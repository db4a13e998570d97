//! Room aliases: which server answers for an alias, when creating or
//! deleting one is refused, and which application service may know an
//! alias this server does not.
use vstd::prelude::*;
use vstd::string::*;
use crate::error::{Error, ErrorKind};
use crate::text::str_eq;

verus! {

/// An alias of another server is refused (`InvalidParam`).
pub fn check_local_alias(alias_server: &str, our_server: &str) -> (r: Result<(), Error>)
    ensures
        r is Ok <==> alias_server@ == our_server@,
        r matches Err(e) ==> e.kind == ErrorKind::InvalidParam && e.message@ == "Alias is from another server."@,
{
    if str_eq(alias_server, our_server) {
        Ok(())
    } else {
        Err(Error::new(ErrorKind::InvalidParam, "Alias is from another server."))
    }
}

/// Creating an alias: it must be of this server (`InvalidParam`) and not
/// taken yet (`Conflict`).
pub fn create_alias_check(alias_server: &str, our_server: &str, taken: bool) -> (r: Result<
    (),
    Error,
>)
    ensures
        alias_server@ != our_server@ ==> (r matches Err(e) && e.kind == ErrorKind::InvalidParam
            && e.message@ == "Alias is from another server."@),
        alias_server@ == our_server@ && taken ==> (r matches Err(e) && e.kind
            == ErrorKind::Conflict && e.message@ == "Alias already exists."@),
        alias_server@ == our_server@ && !taken ==> r is Ok,
{
    if let Err(e) = check_local_alias(alias_server, our_server) {
        return Err(e);
    }
    if taken {
        return Err(Error::new(ErrorKind::Conflict, "Alias already exists."));
    }
    Ok(())
}

/// What `regex` makes of a pattern and a text: whether the compiled pattern
/// matches somewhere in the text, `None` where the pattern does not
/// compile.
pub uninterp spec fn regex_match(pattern: Seq<char>, text: Seq<char>) -> Option<bool>;

/// Compiles the pattern with `regex::Regex::new` and calls `is_match` on
/// the text; the contract claims only that the answer is `regex_match` of
/// the two.
#[verifier::external_body]
fn pattern_matches(pattern: &str, text: &str) -> (r: Option<bool>)
    ensures
        r == regex_match(pattern@, text@),
{
    match regex::Regex::new(pattern) {
        Ok(re) => Some(re.is_match(text)),
        Err(_) => None,
    }
}

/// An application service claims an alias when one of its alias patterns
/// compiles and matches it; patterns that do not compile are skipped.
pub open spec fn in_namespace(patterns: Seq<String>, alias: Seq<char>) -> bool {
    exists|i: int| 0 <= i < patterns.len() && regex_match(#[trigger] patterns[i]@, alias) == Some(true)
}

/// Whether an application service's alias namespace holds the alias.
pub fn alias_in_namespace(patterns: &Vec<String>, alias: &str) -> (b: bool)
    ensures
        b == in_namespace(patterns@, alias@),
{
    let mut i: usize = 0;
    while i < patterns.len()
        invariant
            i <= patterns@.len(),
            forall|j: int| 0 <= j < i ==> regex_match(#[trigger] patterns@[j]@, alias@) != Some(true),
        decreases patterns.len() - i,
    {
        if let Some(true) = pattern_matches(patterns[i].as_str(), alias) {
            return true;
        }
        i = i + 1;
    }
    false
}

/// Once an application service said it knows the alias, the alias must now
/// be known here (`BadConfig` otherwise: the service misbehaved).
pub fn alias_after_appservice(room_id: Option<String>) -> (r: Result<String, Error>)
    ensures
        match room_id {
            Some(id) => r == Ok::<String, Error>(id),
            None => (r matches Err(e) && e.kind == ErrorKind::BadConfig && e.message@ == "Appservice lied to us. Room does not exist."@),
        },
{
    match room_id {
        Some(id) => Ok(id),
        None => Err(Error::new(ErrorKind::BadConfig, "Appservice lied to us. Room does not exist.")),
    }
}

/// An alias nobody resolved is not found (`NotFound`); a resolved one is
/// answered with this server as the one to join through.
pub fn resolved_alias(room_id: Option<String>, our_server: &str) -> (r: Result<
    (String, Vec<String>),
    Error,
>)
    ensures
        match room_id {
            Some(id) => (r matches Ok((rid, servers)) && rid == id && servers@.len() == 1
                && servers@[0]@ == our_server@),
            None => (r matches Err(e) && e.kind == ErrorKind::NotFound && e.message@ == "Room with alias not found."@),
        },
{
    match room_id {
        Some(id) => {
            let mut servers: Vec<String> = Vec::new();
            servers.push(our_server.to_string());
            Ok((id, servers))
        },
        None => Err(Error::new(ErrorKind::NotFound, "Room with alias not found.")),
    }
}

} // verus!
