//! TURN credentials: with a shared secret, a username naming the expiry and
//! the user, and a password that is the base64 of its HMAC-SHA1 under the
//! secret; without one, the configured credentials.
use vstd::prelude::*;
use vstd::string::*;
use crate::text::{decimal_digits, format_u64};

verus! {

/// The HMAC-SHA1 of the UTF-8 bytes of `msg` under the UTF-8 bytes of
/// `key`.
pub uninterp spec fn hmac_sha1(key: Seq<char>, msg: Seq<char>) -> Seq<u8>;

/// Computes an HMAC-SHA1 with `hmac` over `sha1`: `Mac::new_from_slice`
/// (which takes keys of any length), `update`, `finalize`. The contract
/// claims that the result is `hmac_sha1` of the two texts, twenty bytes
/// long (the SHA-1 output size).
#[verifier::external_body]
fn hmac_sha1_of(key: &str, msg: &str) -> (d: Vec<u8>)
    ensures
        d@ == hmac_sha1(key@, msg@),
        d@.len() == 20,
{
    let mut mac = <hmac::Hmac<sha1::Sha1> as hmac::Mac>::new_from_slice(key.as_bytes()).expect(
        "HMAC can take key of any size",
    );
    hmac::Mac::update(&mut mac, msg.as_bytes());
    hmac::Mac::finalize(mac).into_bytes().to_vec()
}

/// The base64 text of some bytes in the standard alphabet, padded.
pub uninterp spec fn base64_standard(bytes: Seq<u8>) -> Seq<char>;

/// Encodes with `base64`'s `STANDARD` engine (standard alphabet, with
/// padding). The contract claims that the result is `base64_standard` of
/// the bytes, four characters for every three bytes started; the engine
/// panics when that length does not fit in `usize`, which `requires` rules
/// out.
#[verifier::external_body]
fn base64_encode(bytes: &Vec<u8>) -> (s: String)
    requires
        4 * ((bytes@.len() + 2) / 3) <= usize::MAX,
    ensures
        s@ == base64_standard(bytes@),
        s@.len() == 4 * ((bytes@.len() + 2) / 3),
{
    base64::Engine::encode(&base64::engine::general_purpose::STANDARD, bytes)
}

/// The username of shared-secret credentials: the expiry in seconds since
/// the epoch, `:`, the user id.
pub open spec fn turn_username_spec(expiry: nat, user: Seq<char>) -> Seq<char> {
    decimal_digits(expiry) + seq![':'] + user
}

/// TURN credentials: with a non-empty secret, a username for an expiry
/// `ttl` seconds from `now_secs` and the base64 of its HMAC-SHA1 under the
/// secret as password; otherwise the configured username and password.
pub fn turn_server_route(
    secret: &str,
    user: &str,
    now_secs: u64,
    ttl: u64,
    configured_user: String,
    configured_password: String,
) -> (r: (String, String))
    requires
        now_secs + ttl <= u64::MAX,
    ensures
        secret@.len() == 0 ==> r.0 == configured_user && r.1 == configured_password,
        secret@.len() > 0 ==> r.0@ == turn_username_spec((now_secs + ttl) as nat, user@) && r.1@
            == base64_standard(hmac_sha1(secret@, r.0@)),
{
    if secret.unicode_len() == 0 {
        return (configured_user, configured_password);
    }
    let expiry = now_secs + ttl;
    let mut username = format_u64(expiry);
    proof {
        reveal_strlit(":");
    }
    username.append(":");
    username.append(user);
    let mac = hmac_sha1_of(secret, username.as_str());
    let password = base64_encode(&mac);
    (username, password)
}

} // verus!
