//! Media: the `mxc://` URI of a file, where a requested file is served
//! from, the content disposition it carries, and the size of a thumbnail.
use vstd::prelude::*;
use vstd::string::*;
use crate::account::{random_shape, random_string};
use crate::error::{Error, ErrorKind};
use crate::text::str_eq;

verus! {

/// The URI of a file: `mxc://`, the server name, `/`, the media id.
pub open spec fn mxc_spec(server: Seq<char>, media_id: Seq<char>) -> Seq<char> {
    "mxc://"@ + server + seq!['/'] + media_id
}

/// Builds the URI of a file.
pub fn mxc_uri(server: &str, media_id: &str) -> (s: String)
    ensures
        s@ == mxc_spec(server@, media_id@),
{
    let mut s = String::from_str("mxc://");
    s.append(server);
    proof {
        reveal_strlit("/");
    }
    s.append("/");
    s.append(media_id);
    s
}

/// The length of the random media id of an upload.
pub open spec fn media_id_length() -> nat {
    32
}

/// The URI of a new upload: this server and a random id of 32 letters and
/// digits.
pub fn new_upload_uri(server: &str) -> (s: String)
    ensures
        exists|id: Seq<char>| random_shape(id, media_id_length()) && s@ == #[trigger] mxc_spec(server@, id),
{
    let id = random_string(32);
    let s = mxc_uri(server, id.as_str());
    assert(random_shape(id@, media_id_length()));
    s
}

/// The content disposition stored with an upload or sent with a local file
/// under a name: `inline; filename=` and the name.
pub open spec fn inline_disposition_spec(filename: Seq<char>) -> Seq<char> {
    "inline; filename="@ + filename
}

/// Builds the content disposition of an upload (none without a file name).
pub fn upload_disposition(filename: Option<&str>) -> (d: Option<String>)
    ensures
        match filename {
            Some(f) => (d matches Some(s) && s@ == inline_disposition_spec(f@)),
            None => d is None,
        },
{
    match filename {
        Some(f) => {
            let mut s = String::from_str("inline; filename=");
            s.append(f);
            Some(s)
        },
        None => None,
    }
}

/// The content disposition of a file fetched from its server under a
/// name: `inline: filename=` (with a colon, unlike a local file) and the
/// name.
pub open spec fn remote_disposition_spec(filename: Seq<char>) -> Seq<char> {
    "inline: filename="@ + filename
}

/// Builds the content disposition of a file served under a name: that of a
/// local file, or of one fetched from its server.
pub fn named_disposition(filename: &str, fetched: bool) -> (s: String)
    ensures
        !fetched ==> s@ == inline_disposition_spec(filename@),
        fetched ==> s@ == remote_disposition_spec(filename@),
{
    let mut s = if fetched {
        String::from_str("inline: filename=")
    } else {
        String::from_str("inline; filename=")
    };
    s.append(filename);
    s
}

/// Where a requested file comes from.
#[derive(Debug, Clone, Copy, PartialEq, Eq, Structural)]
pub enum MediaSource {
    /// It is stored here.
    Local,
    /// It is fetched from its server.
    Remote,
}

/// A file stored here is served from here; one of another server is
/// fetched from it when the request allows that; otherwise it is not found
/// (`NotFound`).
pub fn media_source(stored: bool, server: &str, our_server: &str, allow_remote: bool) -> (r:
    Result<MediaSource, Error>)
    ensures
        stored ==> r == Ok::<MediaSource, Error>(MediaSource::Local),
        !stored && server@ != our_server@ && allow_remote ==> r == Ok::<MediaSource, Error>(
            MediaSource::Remote,
        ),
        !stored && !(server@ != our_server@ && allow_remote) ==> (r matches Err(e) && e.kind
            == ErrorKind::NotFound && e.message@ == "Media not found."@),
{
    if stored {
        Ok(MediaSource::Local)
    } else if !str_eq(server, our_server) && allow_remote {
        Ok(MediaSource::Remote)
    } else {
        Err(Error::new(ErrorKind::NotFound, "Media not found."))
    }
}

/// The size of a requested thumbnail: width and height must fit in 32
/// bits (`InvalidParam`).
pub fn thumbnail_size(width: u64, height: u64) -> (r: Result<(u32, u32), Error>)
    ensures
        width <= u32::MAX && height <= u32::MAX ==> r == Ok::<(u32, u32), Error>(
            (width as u32, height as u32),
        ),
        !(width <= u32::MAX && height <= u32::MAX) ==> (r matches Err(e) && e.kind
            == ErrorKind::InvalidParam && e.message@ == "Width is invalid."@),
{
    if width > 4294967295 || height > 4294967295 {
        return Err(Error::new(ErrorKind::InvalidParam, "Width is invalid."));
    }
    Ok((width as u32, height as u32))
}

} // verus!
