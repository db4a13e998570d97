//! Logging in: who a password or token login is for, when it is refused,
//! and which device and access token it gets.
use vstd::prelude::*;
use vstd::string::*;
use crate::account::{parse_user_id, parsed_user_id, random_shape, random_string};
use crate::error::{Error, ErrorKind};

verus! {

/// What `rust-argon2`'s `verify_encoded` answers for an encoded hash and the
/// UTF-8 bytes of a password: whether they match, or `None` where the hash
/// cannot be read.
pub uninterp spec fn argon2_verify(hash: Seq<char>, password: Seq<char>) -> Option<bool>;

/// Calls `argon2::verify_encoded` with the password's bytes; the contract
/// claims only that the answer is `argon2_verify` of the two texts.
#[verifier::external_body]
fn verify_password_hash(hash: &str, password: &str) -> (r: Option<bool>)
    ensures
        r == argon2_verify(hash@, password@),
{
    argon2::verify_encoded(hash, password.as_bytes()).ok()
}

/// The `sub` claim of a JSON web token: the `sub` member of the JSON object
/// in the token's payload segment, where it is a string. Reading it checks
/// neither the signature nor the time.
pub uninterp spec fn jwt_sub_claim(token: Seq<char>) -> Option<Seq<char>>;

/// Whether a JSON web token is signed with the secret as `jsonwebtoken`'s
/// default validation checks it: its header names HS256 and its signature is
/// the HMAC-SHA256 of its header and payload under the secret's bytes. The
/// check of the expiry against the clock is not part of it.
pub uninterp spec fn jwt_signature_valid(token: Seq<char>, secret: Seq<char>) -> bool;

/// Decodes a JSON web token with `jsonwebtoken::decode`, with a key made by
/// `DecodingKey::from_secret` from the secret's bytes and the default
/// validation, and hands back its `sub` claim. The contract claims that a
/// subject handed back is the token's own `sub` claim (`decode` returns the
/// claims of the token it was given) and that the token is then signed with
/// the secret (`decode` refuses a token whose signature does not verify).
/// That a token so signed is accepted is not stated: the validation also
/// compares the token's expiry with the current time, so two calls may
/// differ.
#[verifier::external_body]
fn jwt_subject(token: &str, secret: &str) -> (r: Option<String>)
    ensures
        r matches Some(s) ==> jwt_sub_claim(token@) == Some(s@),
        r is Some ==> jwt_signature_valid(token@, secret@),
{
    let key = jsonwebtoken::DecodingKey::from_secret(secret.as_bytes());
    let data = jsonwebtoken::decode::<serde_json::Value>(
        token,
        &key,
        &jsonwebtoken::Validation::default(),
    ).ok()?;
    Some(data.claims.get("sub")?.as_str()?.to_owned())
}

/// The user id a login names, completed with this server's name where it is
/// a localpart.
pub open spec fn login_user_spec(user: Seq<char>, server: Seq<char>) -> Option<Seq<char>> {
    match parsed_user_id(user, server) {
        Some((full, _, _)) => Some(full),
        None => None,
    }
}

/// The user of a password login: the identifier must be a user id
/// (`Forbidden` for other kinds, `user` is then `None`) that parses
/// (`InvalidUsername`).
pub fn password_login_user(user: Option<&str>, server: &str) -> (r: Result<String, Error>)
    ensures
        match user {
            None => (r matches Err(e) && e.kind == ErrorKind::Forbidden && e.message@
                == "Bad login type."@),
            Some(u) => match login_user_spec(u@, server@) {
                Some(full) => (r matches Ok(s) && s@ == full),
                None => (r matches Err(e) && e.kind == ErrorKind::InvalidUsername && e.message@
                    == "Username is invalid."@),
            },
        },
{
    let u = match user {
        Some(u) => u,
        None => {
            return Err(Error::new(ErrorKind::Forbidden, "Bad login type."));
        },
    };
    match parse_user_id(u, server) {
        Some(parts) => Ok(parts.full),
        None => Err(Error::new(ErrorKind::InvalidUsername, "Username is invalid.")),
    }
}

/// The password check: the user must have a password hash (`Forbidden`
/// otherwise), a non-empty one (an empty one marks a deactivated account,
/// `UserDeactivated`), and the password must match it (`Forbidden`).
pub open spec fn check_password_spec(stored: Option<Seq<char>>, password: Seq<char>) -> Option<
    ErrorKind,
> {
    match stored {
        None => Some(ErrorKind::Forbidden),
        Some(h) => if h.len() == 0 {
            Some(ErrorKind::UserDeactivated)
        } else if argon2_verify(h, password) == Some(true) {
            None
        } else {
            Some(ErrorKind::Forbidden)
        },
    }
}

/// Checks a login's password against the stored hash.
pub fn check_password(stored: Option<&str>, password: &str) -> (r: Result<(), Error>)
    ensures
        check_password_spec(
            match stored {
                Some(h) => Some(h@),
                None => None,
            },
            password@,
        ) == match r {
            Ok(_) => None,
            Err(e) => Some(e.kind),
        },
        r matches Err(e) ==> e.message@ == (if e.kind == ErrorKind::UserDeactivated {
            "The user has been deactivated"@
        } else {
            "Wrong username or password."@
        }),
{
    let h = match stored {
        Some(h) => h,
        None => {
            return Err(Error::new(ErrorKind::Forbidden, "Wrong username or password."));
        },
    };
    if h.unicode_len() == 0 {
        return Err(Error::new(ErrorKind::UserDeactivated, "The user has been deactivated"));
    }
    match verify_password_hash(h, password) {
        Some(true) => Ok(()),
        _ => Err(Error::new(ErrorKind::Forbidden, "Wrong username or password.")),
    }
}

/// The user of a token login, from the token's subject: a token that does
/// not decode (`subject` is `None`) or a subject that is no user id is
/// refused (`InvalidUsername`).
pub fn token_subject_user(subject: Option<String>, server: &str) -> (r: Result<String, Error>)
    ensures
        match subject {
            None => (r matches Err(e) && e.kind == ErrorKind::InvalidUsername && e.message@
                == "Token is invalid."@),
            Some(s) => match login_user_spec(s@, server@) {
                Some(full) => (r matches Ok(u) && u@ == full),
                None => (r matches Err(e) && e.kind == ErrorKind::InvalidUsername && e.message@
                    == "Username is invalid."@),
            },
        },
{
    let s = match subject {
        Some(s) => s,
        None => {
            return Err(Error::new(ErrorKind::InvalidUsername, "Token is invalid."));
        },
    };
    match parse_user_id(s.as_str(), server) {
        Some(parts) => Ok(parts.full),
        None => Err(Error::new(ErrorKind::InvalidUsername, "Username is invalid.")),
    }
}

/// The user of a token login: refused (`Unknown`) when the server has no
/// key for tokens; otherwise, where the token is accepted (it must be signed
/// with the server's key), the user that the token's own `sub` claim names,
/// and `InvalidUsername` where it is not.
pub fn token_login_user(token: &str, secret: Option<&str>, server: &str) -> (r: Result<
    String,
    Error,
>)
    ensures
        secret is None ==> (r matches Err(e) && e.kind == ErrorKind::Unknown && e.message@
            == "Token login is not supported (server has no jwt decoding key)."@),
        secret is Some ==> exists|subject: Option<String>|
            #[trigger] subject_outcome(subject, server@, r) && (subject matches Some(t)
                ==> jwt_sub_claim(token@) == Some(t@)),
        r matches Ok(u) ==> (jwt_sub_claim(token@) matches Some(c) && login_user_spec(c, server@)
            == Some(u@)),
        r is Ok ==> (secret matches Some(k) && jwt_signature_valid(token@, k@)),
{
    let key = match secret {
        Some(k) => k,
        None => {
            return Err(
                Error::new(
                    ErrorKind::Unknown,
                    "Token login is not supported (server has no jwt decoding key).",
                ),
            );
        },
    };
    let subject = jwt_subject(token, key);
    let ghost g = subject;
    let r = token_subject_user(subject, server);
    assert(subject_outcome(g, server@, r) && (g matches Some(t) ==> jwt_sub_claim(token@) == Some(
        t@,
    )));
    r
}

/// `r` is what `token_subject_user` gives for the subject.
pub open spec fn subject_outcome(subject: Option<String>, server: Seq<char>, r: Result<String, Error>) -> bool {
    match subject {
        None => (r matches Err(e) && e.kind == ErrorKind::InvalidUsername && e.message@
            == "Token is invalid."@),
        Some(s) => match login_user_spec(s@, server) {
            Some(full) => (r matches Ok(u) && u@ == full),
            None => (r matches Err(e) && e.kind == ErrorKind::InvalidUsername && e.message@
                == "Username is invalid."@),
        },
    }
}

/// The device and access token of a login: the device id sent, or a random
/// one of ten letters and digits, and a random token of 256.
pub fn login_device(device_id: Option<String>) -> (r: (String, String))
    ensures
        match device_id {
            Some(d) => r.0@ == d@,
            None => random_shape(r.0@, 10),
        },
        random_shape(r.1@, 256),
{
    let d = match device_id {
        Some(d) => d,
        None => random_string(10),
    };
    let token = random_string(256);
    (d, token)
}

} // verus!
