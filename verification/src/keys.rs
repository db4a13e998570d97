//! End-to-end keys: which users' keys are looked up here and which are
//! asked of their servers, which device keys a query returns, who sees a
//! user-signing key, and how uploaded signatures and key-change ranges are
//! read.
use vstd::prelude::*;
use vstd::string::*;
use crate::error::{Error, ErrorKind};
use crate::text::{opt_view, parse_u64, parse_u64_spec, str_eq};
use crate::transaction::{group_by_room, grouped};

verus! {

// ---------------------------------------------------------------------------
// Splitting a query between this server and others
// ---------------------------------------------------------------------------

/// The requests for users of this server, in order. Each request comes with
/// its user's server name.
pub open spec fn local_requests<E>(reqs: Seq<(String, E)>, ours: Seq<char>) -> Seq<E>
    decreases reqs.len(),
{
    if reqs.len() == 0 {
        Seq::empty()
    } else {
        let prev = local_requests(reqs.drop_last(), ours);
        if reqs.last().0@ == ours {
            prev.push(reqs.last().1)
        } else {
            prev
        }
    }
}

/// The requests for users of other servers, in order, with their server.
pub open spec fn remote_requests<E>(reqs: Seq<(String, E)>, ours: Seq<char>) -> Seq<(String, E)>
    decreases reqs.len(),
{
    if reqs.len() == 0 {
        Seq::empty()
    } else {
        let prev = remote_requests(reqs.drop_last(), ours);
        if reqs.last().0@ != ours {
            prev.push(reqs.last())
        } else {
            prev
        }
    }
}

/// Splits a key query: the requests for local users, and those for other
/// servers' users grouped by server (one request per server).
pub fn split_key_query<E>(reqs: Vec<(String, E)>, ours: &str) -> (r: (Vec<E>, Vec<(String, Vec<E>)>))
    ensures
        r.0@ == local_requests(reqs@, ours@),
        grouped(remote_requests(reqs@, ours@), r.1@),
{
    let ghost all = reqs@;
    let mut rest = reqs;
    let mut rev: Vec<(String, E)> = Vec::new();
    while rest.len() > 0
        invariant
            all == rest@ + rev@.reverse(),
        decreases rest@.len(),
    {
        let ghost before = rest@;
        let x = rest.pop().unwrap();
        rev.push(x);
        assert(before == rest@.push(x));
        assert(all =~= rest@ + rev@.reverse());
    }
    assert(rev@.reverse() =~= all);
    let mut local: Vec<E> = Vec::new();
    let mut remote: Vec<(String, E)> = Vec::new();
    let ghost mut k: int = 0;
    while rev.len() > 0
        invariant
            0 <= k <= all.len(),
            rev@.reverse() =~= all.skip(k),
            local@ == local_requests(all.take(k), ours@),
            remote@ == remote_requests(all.take(k), ours@),
        decreases rev@.len(),
    {
        let ghost rv = rev@;
        assert(rv.reverse().len() == rv.len());
        assert(k < all.len());
        assert(rv.reverse()[0] == rv[rv.len() - 1]);
        assert(all.skip(k)[0] == all[k]);
        let (server, e) = rev.pop().unwrap();
        assert((server, e) == all[k]);
        assert(all.take(k + 1).drop_last() =~= all.take(k));
        if str_eq(server.as_str(), ours) {
            local.push(e);
        } else {
            remote.push((server, e));
        }
        proof {
            assert forall|j: int| 0 <= j < rev@.len() implies rev@.reverse()[j] == all.skip(
                k + 1,
            )[j] by {
                assert(rv.reverse()[j + 1] == all.skip(k)[j + 1]);
                assert(rev@[rev@.len() - 1 - j] == rv[rv.len() - 1 - (j + 1)]);
            }
            k = k + 1;
        }
        assert(rev@.reverse() =~= all.skip(k));
    }
    assert(all.take(k) =~= all);
    let groups = group_by_room(remote);
    (local, groups)
}

// ---------------------------------------------------------------------------
// Device keys of a local user
// ---------------------------------------------------------------------------

/// The devices that have keys, in order.
pub open spec fn with_keys<K>(found: Seq<(String, Option<K>)>) -> Seq<(String, K)>
    decreases found.len(),
{
    if found.len() == 0 {
        Seq::empty()
    } else {
        let prev = with_keys(found.drop_last());
        match found.last().1 {
            Some(k) => prev.push((found.last().0, k)),
            None => prev,
        }
    }
}

/// The device keys a query returns for a local user, given each looked-up
/// device (every device of the user when the query lists none, else each
/// listed device) with its keys (`None` for a device without keys): the keys
/// of every such device that has keys, in order.
pub fn device_keys<K>(found: Vec<(String, Option<K>)>) -> (r: Vec<(String, K)>)
    ensures
        r@ == with_keys(found@),
{
    let ghost all = found@;
    let mut rest = found;
    let mut rev: Vec<(String, Option<K>)> = Vec::new();
    while rest.len() > 0
        invariant
            all == rest@ + rev@.reverse(),
        decreases rest@.len(),
    {
        let ghost before = rest@;
        let x = rest.pop().unwrap();
        rev.push(x);
        assert(before == rest@.push(x));
        assert(all =~= rest@ + rev@.reverse());
    }
    assert(rev@.reverse() =~= all);
    let mut out: Vec<(String, K)> = Vec::new();
    let ghost mut k: int = 0;
    while rev.len() > 0
        invariant
            0 <= k <= all.len(),
            rev@.reverse() =~= all.skip(k),
            out@ == with_keys(all.take(k)),
        decreases rev@.len(),
    {
        let ghost rv = rev@;
        assert(rv.reverse().len() == rv.len());
        assert(k < all.len());
        assert(rv.reverse()[0] == rv[rv.len() - 1]);
        assert(all.skip(k)[0] == all[k]);
        let (d, key) = rev.pop().unwrap();
        assert((d, key) == all[k]);
        assert(all.take(k + 1).drop_last() =~= all.take(k));
        match key {
            Some(x) => out.push((d, x)),
            None => {},
        }
        proof {
            assert forall|j: int| 0 <= j < rev@.len() implies rev@.reverse()[j] == all.skip(
                k + 1,
            )[j] by {
                assert(rv.reverse()[j + 1] == all.skip(k)[j + 1]);
                assert(rev@[rev@.len() - 1 - j] == rv[rv.len() - 1 - (j + 1)]);
            }
            k = k + 1;
        }
        assert(rev@.reverse() =~= all.skip(k));
    }
    assert(all.take(k) =~= all);
    out
}

/// The `failures` of a key query: each server, in the order its answer
/// came, whose federation request failed (`false`); each is reported with an
/// empty object.
pub open spec fn failed_servers(answers: Seq<(String, bool)>) -> Seq<Seq<char>>
    decreases answers.len(),
{
    if answers.len() == 0 {
        Seq::empty()
    } else {
        let prev = failed_servers(answers.drop_last());
        if answers.last().1 {
            prev
        } else {
            prev.push(answers.last().0@)
        }
    }
}

/// Forms the `failures` of a key query from each server's outcome.
pub fn key_query_failures(answers: &Vec<(String, bool)>) -> (r: Vec<String>)
    ensures
        r@.map_values(|s: String| s@) == failed_servers(answers@),
{
    let mut out: Vec<String> = Vec::new();
    let mut i: usize = 0;
    while i < answers.len()
        invariant
            i <= answers.len(),
            out@.map_values(|s: String| s@) == failed_servers(answers@.take(i as int)),
        decreases answers.len() - i,
    {
        assert(answers@.take(i + 1).drop_last() =~= answers@.take(i as int));
        let ghost before = out@;
        if !answers[i].1 {
            out.push(answers[i].0.clone());
            assert(out@.map_values(|s: String| s@) =~= before.map_values(|s: String| s@).push(
                answers@[i as int].0@,
            ));
        }
        i = i + 1;
    }
    assert(answers@.take(answers.len() as int) =~= answers@);
    out
}

/// A user's user-signing key is only returned to that user.
pub fn include_user_signing_key(user: &str, sender: Option<&str>) -> (b: bool)
    ensures
        b == (opt_view(sender) == Some(user@)),
{
    match sender {
        Some(s) => str_eq(s, user),
        None => false,
    }
}

// ---------------------------------------------------------------------------
// Uploads and changes
// ---------------------------------------------------------------------------

/// What uploading cross-signing keys does about authentication: a request
/// with authentication goes by its outcome (`completed`), one without but
/// with a JSON body starts a session, and one with neither is refused
/// (`NotJson`).
#[derive(Debug, Clone, Copy, PartialEq, Eq, Structural)]
pub enum SigningKeysAuth {
    Proceed,
    Continue,
    StartSession,
}

/// Decides the authentication step of a cross-signing key upload.
pub fn signing_keys_auth(has_auth: bool, completed: bool, has_json: bool) -> (r: Result<
    SigningKeysAuth,
    Error,
>)
    ensures
        has_auth && completed ==> r == Ok::<SigningKeysAuth, Error>(SigningKeysAuth::Proceed),
        has_auth && !completed ==> r == Ok::<SigningKeysAuth, Error>(SigningKeysAuth::Continue),
        !has_auth && has_json ==> r == Ok::<SigningKeysAuth, Error>(
            SigningKeysAuth::StartSession,
        ),
        !has_auth && !has_json ==> (r matches Err(e) && e.kind == ErrorKind::NotJson && e.message@ == "Not json."@),
{
    if has_auth {
        if completed {
            Ok(SigningKeysAuth::Proceed)
        } else {
            Ok(SigningKeysAuth::Continue)
        }
    } else if has_json {
        Ok(SigningKeysAuth::StartSession)
    } else {
        Err(Error::new(ErrorKind::NotJson, "Not json."))
    }
}

/// The signatures field of an uploaded key: for each signing user, the
/// signatures (`None` where the entry is not an object), each key id with
/// its value (`None` where the value is not a string).
pub type SignaturesField = Vec<(String, Option<Vec<(String, Option<String>)>>)>;

/// The entry of the first signing user with the given id.
pub open spec fn entry_of(
    sigs: Seq<(String, Option<Vec<(String, Option<String>)>>)>,
    user: Seq<char>,
) -> Option<Option<Vec<(String, Option<String>)>>>
    decreases sigs.len(),
{
    if sigs.len() == 0 {
        None
    } else if sigs[0].0@ == user {
        Some(sigs[0].1)
    } else {
        entry_of(sigs.drop_first(), user)
    }
}

proof fn lemma_entry_of_at(
    sigs: Seq<(String, Option<Vec<(String, Option<String>)>>)>,
    user: Seq<char>,
    i: int,
)
    requires
        0 <= i < sigs.len(),
        sigs[i].0@ == user,
        forall|j: int| 0 <= j < i ==> (#[trigger] sigs[j]).0@ != user,
    ensures
        entry_of(sigs, user) == Some(sigs[i].1),
    decreases i,
{
    if i > 0 {
        assert(sigs[0].0@ != user);
        let t = sigs.drop_first();
        assert forall|j: int| 0 <= j < i - 1 implies (#[trigger] t[j]).0@ != user by {
            assert(t[j] == sigs[j + 1]);
        }
        lemma_entry_of_at(t, user, i - 1);
    }
}

proof fn lemma_entry_of_none(sigs: Seq<(String, Option<Vec<(String, Option<String>)>>)>, user: Seq<char>)
    requires
        forall|j: int| 0 <= j < sigs.len() ==> (#[trigger] sigs[j]).0@ != user,
    ensures
        entry_of(sigs, user) is None,
    decreases sigs.len(),
{
    if sigs.len() > 0 {
        assert(sigs[0].0@ != user);
        let t = sigs.drop_first();
        assert forall|j: int| 0 <= j < t.len() implies (#[trigger] t[j]).0@ != user by {
            assert(t[j] == sigs[j + 1]);
        }
        lemma_entry_of_none(t, user);
    }
}

/// The signatures an upload makes: the signatures field must be there
/// (`InvalidParam`), hold an entry for the uploading user (`InvalidParam`)
/// that is an object (`InvalidParam`) whose values are all strings
/// (`InvalidParam`); the result is that object's entries.
pub open spec fn sender_signatures_spec(
    signatures: Option<Seq<(String, Option<Vec<(String, Option<String>)>>)>>,
    sender: Seq<char>,
) -> Result<Seq<(String, Option<String>)>, (ErrorKind, Seq<char>)> {
    match signatures {
        None => Err((ErrorKind::InvalidParam, "Missing signatures field."@)),
        Some(s) => match entry_of(s, sender) {
            None => Err((ErrorKind::InvalidParam, "Invalid user in signatures field."@)),
            Some(None) => Err((ErrorKind::InvalidParam, "Invalid signature."@)),
            Some(Some(obj)) => if forall|i: int| 0 <= i < obj@.len() ==> (#[trigger] obj@[i]).1 is Some {
                Ok(obj@)
            } else {
                Err((ErrorKind::InvalidParam, "Invalid signature value."@))
            },
        },
    }
}

/// Reads the signatures an upload makes for the uploading user.
pub fn sender_signatures(signatures: Option<SignaturesField>, sender: &str) -> (r: Result<
    Vec<(String, String)>,
    Error,
>)
    ensures
        match sender_signatures_spec(
            match signatures {
                Some(s) => Some(s@),
                None => None,
            },
            sender@,
        ) {
            Ok(entries) => (r matches Ok(v) && v@.len() == entries.len() && forall|i: int|
                0 <= i < entries.len() ==> (#[trigger] v@[i]).0 == entries[i].0 && Some(v@[i].1)
                    == entries[i].1),
            Err((k, m)) => (r matches Err(e) && e.kind == k && e.message@ == m),
        },
{
    let sigs = match signatures {
        Some(s) => s,
        None => {
            return Err(Error::new(ErrorKind::InvalidParam, "Missing signatures field."));
        },
    };
    let ghost sigs0 = sigs;
    let mut sigs = sigs;
    let ghost all = sigs@;
    let mut idx: usize = 0;
    let mut hit = false;
    while idx < sigs.len() && !hit
        invariant
            all == sigs@,
            idx <= sigs@.len(),
            hit ==> idx < sigs@.len() && all[idx as int].0@ == sender@,
            forall|j: int| 0 <= j < idx ==> (#[trigger] all[j]).0@ != sender@,
        decreases sigs.len() - idx, if hit { 0int } else { 1int },
    {
        if str_eq(sigs[idx].0.as_str(), sender) {
            hit = true;
        } else {
            idx = idx + 1;
        }
    }
    let found = if hit {
        proof {
            lemma_entry_of_at(all, sender@, idx as int);
        }
        let (_, e) = sigs.remove(idx);
        Some(e)
    } else {
        proof {
            lemma_entry_of_none(all, sender@);
        }
        None
    };
    let entry = match found {
        Some(e) => e,
        None => {
            return Err(Error::new(ErrorKind::InvalidParam, "Invalid user in signatures field."));
        },
    };
    let obj = match entry {
        Some(o) => o,
        None => {
            return Err(Error::new(ErrorKind::InvalidParam, "Invalid signature."));
        },
    };
    let ghost entries = obj@;
    let mut out: Vec<(String, String)> = Vec::new();
    let mut i: usize = 0;
    while i < obj.len()
        invariant
            entries == obj@,
            entry_of(all, sender@) == Some(Some(obj)),
            signatures == Some(sigs0),
            sigs0@ == all,
            i <= obj@.len(),
            out@.len() == i,
            forall|j: int|
                0 <= j < i ==> (#[trigger] out@[j]).0 == entries[j].0 && Some(out@[j].1)
                    == entries[j].1,
        decreases obj.len() - i,
    {
        let (key, value) = &obj[i];
        match value {
            Some(v) => {
                out.push((key.clone(), v.clone()));
            },
            None => {
                assert(entries[i as int].1 is None);
                assert(!(forall|j: int| 0 <= j < entries.len() ==> (#[trigger] entries[j]).1 is Some));
                return Err(Error::new(ErrorKind::InvalidParam, "Invalid signature value."));
            },
        }
        i = i + 1;
    }
    assert(forall|j: int| 0 <= j < entries.len() ==> (#[trigger] entries[j]).1 is Some) by {
        assert forall|j: int| 0 <= j < entries.len() implies (#[trigger] entries[j]).1 is Some by {
            assert(Some(out@[j].1) == entries[j].1);
        }
    }
    Ok(out)
}

/// The range of a key-change query: both tokens must be numbers
/// (`InvalidParam`), `from` checked first.
pub fn key_changes_range(from: &str, to: &str) -> (r: Result<(u64, u64), Error>)
    ensures
        match (parse_u64_spec(from@), parse_u64_spec(to@)) {
            (Some(f), Some(t)) => r == Ok::<(u64, u64), Error>((f, t)),
            (None, _) => (r matches Err(e) && e.kind == ErrorKind::InvalidParam && e.message@
                == "Invalid `from`."@),
            (Some(_), None) => (r matches Err(e) && e.kind == ErrorKind::InvalidParam && e.message@
                == "Invalid `to`."@),
        },
{
    let f = match parse_u64(from) {
        Some(f) => f,
        None => {
            return Err(Error::new(ErrorKind::InvalidParam, "Invalid `from`."));
        },
    };
    match parse_u64(to) {
        Some(t) => Ok((f, t)),
        None => Err(Error::new(ErrorKind::InvalidParam, "Invalid `to`.")),
    }
}

} // verus!
