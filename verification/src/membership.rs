//! Joining and inviting: whether a join goes through another server, which
//! server helps, how the join event is completed, which state the joined
//! room starts from, how long a bad event is backed off, and how an invite
//! to another server's user is prepared.
use vstd::prelude::*;
use vstd::string::*;
use crate::error::{Error, ErrorKind};
use crate::room_version::{RoomVersion, remove_key, without_key};
use crate::federation::Membership;
use crate::profile::MemberContent;
use crate::text::{seq_has, str_eq, vec_has};

verus! {

// ---------------------------------------------------------------------------
// JSON objects held as their entries
// ---------------------------------------------------------------------------

/// The value under `key`: that of the last entry with the key.
pub open spec fn lookup<V>(obj: Seq<(String, V)>, key: Seq<char>) -> Option<V>
    decreases obj.len(),
{
    if obj.len() == 0 {
        None
    } else if obj.last().0@ == key {
        Some(obj.last().1)
    } else {
        lookup(obj.drop_last(), key)
    }
}

/// Removing a key leaves the other keys' values alone.
pub proof fn lemma_lookup_without_key<V>(obj: Seq<(String, V)>, key: Seq<char>, other: Seq<char>)
    requires
        other != key,
    ensures
        lookup(without_key(obj, key), other) == lookup(obj, other),
        lookup(without_key(obj, key), key) is None,
    decreases obj.len(),
{
    if obj.len() > 0 {
        lemma_lookup_without_key(obj.drop_last(), key, other);
        if obj.last().0@ != key {
            let w = without_key(obj.drop_last(), key).push(obj.last());
            assert(w.drop_last() =~= without_key(obj.drop_last(), key));
        }
    }
}

/// No two entries of a JSON object share a key.
pub open spec fn keys_unique<V>(obj: Seq<(String, V)>) -> bool {
    forall|i: int, j: int| 0 <= i < j < obj.len() ==> obj[i].0@ != obj[j].0@
}

/// Removing a key leaves entries of the object under other keys only, and
/// keeps keys unique.
proof fn lemma_without_key_entries<V>(obj: Seq<(String, V)>, key: Seq<char>)
    ensures
        forall|i: int|
            0 <= i < without_key(obj, key).len() ==> (#[trigger] without_key(obj, key)[i]).0@ != key
                && exists|j: int| 0 <= j < obj.len() && obj[j] == without_key(obj, key)[i],
        keys_unique(obj) ==> keys_unique(without_key(obj, key)),
    decreases obj.len(),
{
    if obj.len() > 0 {
        let o = obj.drop_last();
        lemma_without_key_entries(o, key);
        let w0 = without_key(o, key);
        let w = without_key(obj, key);
        assert forall|i: int| 0 <= i < w.len() implies (#[trigger] w[i]).0@ != key && exists|j: int|
            0 <= j < obj.len() && obj[j] == w[i] by {
            if i < w0.len() {
                assert(w[i] == w0[i]);
                let j = choose|j: int| 0 <= j < o.len() && o[j] == w0[i];
                assert(obj[j] == o[j]);
            } else {
                assert(w[i] == obj.last());
                assert(obj[obj.len() - 1] == obj.last());
            }
        }
        if keys_unique(obj) {
            assert forall|a: int, b: int| 0 <= a < b < w.len() implies w[a].0@ != w[b].0@ by {
                if b < w0.len() {
                    assert(w[a] == w0[a] && w[b] == w0[b]);
                } else {
                    assert(w[a] == w0[a]);
                    let j = choose|j: int| 0 <= j < o.len() && o[j] == w0[a];
                    assert(obj[j] == o[j]);
                    assert(w[b] == obj[obj.len() - 1]);
                }
            }
        }
    }
}

/// Sets `key` to `value` in a JSON object: any entry under the key goes,
/// and the new entry comes last.
pub fn object_insert<V>(obj: &mut Vec<(String, V)>, key: String, value: V)
    ensures
        final(obj)@ == without_key(old(obj)@, key@).push((key, value)),
        lookup(final(obj)@, key@) == Some(value),
        forall|k: Seq<char>| k != key@ ==> lookup(final(obj)@, k) == lookup(old(obj)@, k),
        keys_unique(old(obj)@) ==> keys_unique(final(obj)@),
{
    let ghost before = obj@;
    proof {
        lemma_without_key_entries(before, key@);
    }
    remove_key(obj, key.as_str());
    let ghost kv = key@;
    obj.push((key, value));
    assert forall|k: Seq<char>| k != kv implies lookup(obj@, k) == lookup(before, k) by {
        lemma_lookup_without_key(before, kv, k);
        assert(obj@.drop_last() =~= without_key(before, kv));
    }
}

/// Extends a JSON object (a map held as its entries) with entries, in
/// order: each entry replaces any earlier one under its key, as extending a
/// map does. This merges the keys remote servers return into those of a key
/// query, and the outcomes of a transaction's PDUs into its result map.
pub fn extend_entries<K>(keys: &mut Vec<(String, K)>, response: Vec<(String, K)>)
    ensures
        forall|u: Seq<char>| #[trigger] lookup(final(keys)@, u) == lookup(old(keys)@ + response@, u),
        keys_unique(old(keys)@) ==> keys_unique(final(keys)@),
{
    let ghost start = keys@;
    let ghost all = response@;
    let mut rest = response;
    let mut rev: Vec<(String, K)> = Vec::new();
    while rest.len() > 0
        invariant
            all == rest@ + rev@.reverse(),
        decreases rest@.len(),
    {
        let ghost before = rest@;
        let x = rest.pop().unwrap();
        rev.push(x);
        assert(before == rest@.push(x));
        assert(all =~= rest@ + rev@.reverse());
    }
    assert(rev@.reverse() =~= all);
    let ghost mut k: int = 0;
    while rev.len() > 0
        invariant
            0 <= k <= all.len(),
            rev@.reverse() =~= all.skip(k),
            forall|u: Seq<char>| #[trigger] lookup(keys@, u) == lookup(start + all.take(k), u),
            keys_unique(start) ==> keys_unique(keys@),
        decreases rev@.len(),
    {
        let ghost rv = rev@;
        assert(rv.reverse().len() == rv.len());
        assert(rv.reverse()[0] == rv[rv.len() - 1]);
        assert(all.skip(k)[0] == all[k]);
        let ghost old_keys = keys@;
        let (user, key) = rev.pop().unwrap();
        assert((user, key) == all[k]);
        let ghost uv = user@;
        object_insert(keys, user, key);
        proof {
            let next = start + all.take(k + 1);
            assert(next.drop_last() =~= start + all.take(k));
            assert(next.last() == all[k]);
            assert forall|u: Seq<char>| #[trigger] lookup(keys@, u) == lookup(next, u) by {
                if u != uv {
                    assert(lookup(keys@, u) == lookup(old_keys, u));
                }
            }
            assert forall|j: int| 0 <= j < rev@.len() implies rev@.reverse()[j] == all.skip(
                k + 1,
            )[j] by {
                assert(rv.reverse()[j + 1] == all.skip(k)[j + 1]);
                assert(rev@[rev@.len() - 1 - j] == rv[rv.len() - 1 - (j + 1)]);
            }
            k = k + 1;
        }
        assert(rev@.reverse() =~= all.skip(k));
    }
    assert(all.take(k) =~= all);
}


/// The id of an event from its reference hash: `$` and the hash.
pub fn event_id_from_hash(hash: &str) -> (id: String)
    ensures
        id@ == seq!['$'] + hash@,
{
    let mut s = String::from_str("$");
    proof {
        reveal_strlit("$");
    }
    s.append(hash);
    s
}

// ---------------------------------------------------------------------------
// Joining
// ---------------------------------------------------------------------------

/// A join is made here when the room is known here or belongs to this
/// server; otherwise another server must help.
pub fn join_locally(room_exists: bool, room_server: &str, our_server: &str) -> (b: bool)
    ensures
        b == (room_exists || room_server@ == our_server@),
{
    room_exists || str_eq(room_server, our_server)
}

/// The versions a remote join may use.
pub open spec fn remote_join_version_ok(v: RoomVersion) -> bool {
    v == RoomVersion::V5 || v == RoomVersion::V6
}

/// The version the helping server names must be one this server can join
/// (`BadServerResponse` otherwise, also when it names none).
pub fn remote_join_version(v: Option<RoomVersion>) -> (r: Result<RoomVersion, Error>)
    ensures
        match v {
            Some(x) => if remote_join_version_ok(x) {
                r == Ok::<RoomVersion, Error>(x)
            } else {
                (r matches Err(e) && e.kind == ErrorKind::BadServerResponse && e.message@ == "Room version is not supported"@)
            },
            None => (r matches Err(e) && e.kind == ErrorKind::BadServerResponse && e.message@ == "Room version is not supported"@),
        },
{
    match v {
        Some(RoomVersion::V5) => Ok(RoomVersion::V5),
        Some(RoomVersion::V6) => Ok(RoomVersion::V6),
        _ => Err(Error::new(ErrorKind::BadServerResponse, "Room version is not supported")),
    }
}

/// What a remote join does next in its search for a helping server.
#[derive(Debug, Clone, Copy, PartialEq, Eq, Structural)]
pub enum JoinAttempt {
    /// Ask the server at this position for a join template.
    Ask(usize),
    /// The server at this position answered: use it.
    Use(usize),
    /// Every server failed.
    GiveUp,
}

/// The servers are asked in turn until one answers. `answered` holds the
/// outcome of each server asked so far, in order.
pub open spec fn join_attempt_spec(servers: nat, answered: Seq<bool>) -> JoinAttempt {
    if answered.len() > 0 && answered.last() {
        JoinAttempt::Use((answered.len() - 1) as usize)
    } else if answered.len() < servers {
        JoinAttempt::Ask(answered.len() as usize)
    } else {
        JoinAttempt::GiveUp
    }
}

/// Decides the next step of the search, given how many servers there are
/// and what the ones asked so far answered.
pub fn join_attempt(servers: usize, answered: &Vec<bool>) -> (a: JoinAttempt)
    requires
        answered@.len() <= servers,
        forall|i: int| 0 <= i < answered@.len() - 1 ==> !answered@[i],
    ensures
        a == join_attempt_spec(servers as nat, answered@),
{
    let n = answered.len();
    if n > 0 && answered[n - 1] {
        JoinAttempt::Use(n - 1)
    } else if n < servers {
        JoinAttempt::Ask(n)
    } else {
        JoinAttempt::GiveUp
    }
}

/// The refusal when no server helped.
pub fn no_join_server() -> (e: Error)
    ensures
        e.kind == ErrorKind::BadServerResponse && e.message@ == "No server available to assist in joining."@,
{
    Error::new(ErrorKind::BadServerResponse, "No server available to assist in joining.")
}

/// The state a joined room starts from: for each state key (as a number)
/// the event that sets it, the last one given winning.
pub open spec fn state_lookup(entries: Seq<(u64, String)>, key: u64) -> Option<String>
    decreases entries.len(),
{
    if entries.len() == 0 {
        None
    } else if entries.last().0 == key {
        Some(entries.last().1)
    } else {
        state_lookup(entries.drop_last(), key)
    }
}

/// The room state must hold a create event (`BadServerResponse`).
pub fn check_create_event(entries: &Vec<(u64, String)>, create_key: u64) -> (r: Result<(), Error>)
    ensures
        r is Ok <==> state_lookup(entries@, create_key) is Some,
        r matches Err(e) ==> e.kind == ErrorKind::BadServerResponse && e.message@ == "State contained no create event."@,
{
    let mut i: usize = 0;
    while i < entries.len()
        invariant
            i <= entries@.len(),
            forall|j: int| 0 <= j < i ==> (#[trigger] entries@[j]).0 != create_key,
        decreases entries.len() - i,
    {
        if entries[i].0 == create_key {
            proof {
                lemma_state_lookup_has(entries@, i as int, create_key);
            }
            return Ok(());
        }
        i = i + 1;
    }
    proof {
        lemma_state_lookup_none(entries@, create_key);
    }
    Err(Error::new(ErrorKind::BadServerResponse, "State contained no create event."))
}

proof fn lemma_state_lookup_has(entries: Seq<(u64, String)>, i: int, key: u64)
    requires
        0 <= i < entries.len(),
        entries[i].0 == key,
    ensures
        state_lookup(entries, key) is Some,
    decreases entries.len(),
{
    if entries.last().0 != key {
        lemma_state_lookup_has(entries.drop_last(), i, key);
    }
}

proof fn lemma_state_lookup_none(entries: Seq<(u64, String)>, key: u64)
    requires
        forall|j: int| 0 <= j < entries.len() ==> (#[trigger] entries[j]).0 != key,
    ensures
        state_lookup(entries, key) is None,
    decreases entries.len(),
{
    if entries.len() > 0 {
        assert(entries.last() == entries[entries.len() - 1]);
        lemma_state_lookup_none(entries.drop_last(), key);
    }
}

// ---------------------------------------------------------------------------
// Backing off from bad events
// ---------------------------------------------------------------------------

/// How long, in seconds, a server backs off from an event that failed
/// `tries` times: thirty seconds times the square of the tries, at most a
/// day.
pub open spec fn backoff_secs_spec(tries: u32) -> int {
    if 30 * tries * tries > 86400 {
        86400
    } else {
        30 * tries * tries
    }
}

/// The back-off of an event that failed `tries` times.
pub fn backoff_secs(tries: u32) -> (s: u64)
    requires
        30 * tries * tries <= u64::MAX,
    ensures
        s == backoff_secs_spec(tries),
{
    let t = tries as u64;
    assert(t * t <= u64::MAX) by (nonlinear_arith)
        requires
            30 * t * t <= u64::MAX,
    ;
    let sq = t * t;
    assert(30 * sq <= u64::MAX) by (nonlinear_arith)
        requires
            30 * t * t <= u64::MAX,
            sq == t * t,
    ;
    let w = 30 * sq;
    assert(w == 30 * tries * tries) by (nonlinear_arith)
        requires
            w == 30 * sq,
            sq == t * t,
            t == tries,
    ;
    if w > 86400 {
        86400
    } else {
        w
    }
}

/// The back-off never shrinks as failures add up.
pub proof fn lemma_backoff_grows(t1: u32, t2: u32)
    requires
        t1 <= t2,
    ensures
        backoff_secs_spec(t1) <= backoff_secs_spec(t2),
{
    assert(30 * t1 * t1 <= 30 * t2 * t2) by (nonlinear_arith)
        requires
            0 <= t1 <= t2,
    ;
}

/// Whether a server still backs off from an event: less time has passed
/// since it last failed than its back-off.
pub fn still_backing_off(elapsed_ms: u64, tries: u32) -> (b: bool)
    requires
        30 * tries * tries <= u64::MAX,
    ensures
        b == (elapsed_ms < backoff_secs_spec(tries) * 1000),
{
    let s = backoff_secs(tries);
    (elapsed_ms as u128) < (s as u128) * 1000
}

// ---------------------------------------------------------------------------
// Inviting
// ---------------------------------------------------------------------------

/// The most `prev_events` an invite event refers to.
pub open spec fn max_prev_events() -> int {
    20
}

/// The `prev_events` of an invite: the first twenty leaves of the room.
pub fn invite_prev_events(leaves: Vec<String>) -> (out: Vec<String>)
    ensures
        out@ == (if leaves@.len() <= max_prev_events() {
            leaves@
        } else {
            leaves@.take(max_prev_events())
        }),
{
    let mut v = leaves;
    v.truncate(20);
    v
}

/// The create event is passed to the authorisation check as the previous
/// event when it is the only one the invite refers to.
pub fn create_is_only_prev(prev_events: &Vec<String>, create_event: Option<&str>) -> (b: bool)
    ensures
        b == (prev_events@.len() == 1 && (create_event matches Some(c) && prev_events@[0]@ == c@)),
{
    match create_event {
        Some(c) => prev_events.len() == 1 && str_eq(prev_events[0].as_str(), c),
        None => false,
    }
}

/// The version of the room an invite is made in: that of its create event,
/// version 6 where there is none yet.
pub fn invite_room_version(create_version: Option<RoomVersion>) -> (v: RoomVersion)
    ensures
        v == match create_version {
            Some(x) => x,
            None => RoomVersion::V6,
        },
{
    match create_version {
        Some(x) => x,
        None => RoomVersion::V6,
    }
}

/// The largest depth an event can have (a JSON-safe unsigned integer).
pub open spec fn max_depth() -> int {
    9007199254740991
}

/// The greatest of the depths, 0 for none.
pub open spec fn max_of(depths: Seq<u64>) -> int
    decreases depths.len(),
{
    if depths.len() == 0 {
        0
    } else {
        let m = max_of(depths.drop_last());
        if depths.last() > m {
            depths.last() as int
        } else {
            m
        }
    }
}

/// The depth of a new event: one more than the greatest depth of the events
/// it follows that are known here (0 when none is).
pub fn next_depth(depths: &Vec<u64>) -> (d: u64)
    requires
        forall|i: int| 0 <= i < depths@.len() ==> #[trigger] depths@[i] < max_depth(),
    ensures
        d == max_of(depths@) + 1,
{
    let mut m: u64 = 0;
    let mut i: usize = 0;
    while i < depths.len()
        invariant
            i <= depths@.len(),
            m == max_of(depths@.take(i as int)),
            m < max_depth(),
            forall|k: int| 0 <= k < depths@.len() ==> #[trigger] depths@[k] < max_depth(),
        decreases depths.len() - i,
    {
        assert(depths@.take(i + 1).drop_last() =~= depths@.take(i as int));
        if depths[i] > m {
            m = depths[i];
        }
        i = i + 1;
    }
    assert(depths@.take(depths@.len() as int) =~= depths@);
    m + 1
}

/// An invite event that fails the authorisation rules is refused
/// (`Forbidden`).
pub fn invite_authorized(allowed: bool) -> (r: Result<(), Error>)
    ensures
        r is Ok <==> allowed,
        r matches Err(e) ==> e.kind == ErrorKind::Forbidden && e.message@ == "Event is not authorized."@,
{
    if allowed {
        Ok(())
    } else {
        Err(Error::new(ErrorKind::Forbidden, "Event is not authorized."))
    }
}

/// The content of the member event that invites a user: the membership
/// `invite`, the invited user's display name, avatar and blurhash as this
/// server knows them, whether the room is a direct chat, and no reason.
pub fn invite_content(
    displayname: Option<String>,
    avatar_url: Option<String>,
    blurhash: Option<String>,
    is_direct: bool,
) -> (c: MemberContent)
    ensures
        c.membership == Membership::Invite,
        c.displayname == displayname,
        c.avatar_url == avatar_url,
        c.blurhash == blurhash,
        c.is_direct == Some(is_direct),
        c.reason is None,
{
    MemberContent {
        membership: Membership::Invite,
        displayname,
        avatar_url,
        blurhash,
        is_direct: Some(is_direct),
        reason: None,
    }
}

/// The origin of the invite event the invited user's server sends back: the
/// field must be there and be a server name (`InvalidParam` otherwise).
/// `origin` is `None` when the field is missing and `Some(None)` when it is
/// not a server name.
pub fn invite_response_origin(origin: Option<Option<String>>) -> (r: Result<String, Error>)
    ensures
        match origin {
            Some(Some(o)) => r == Ok::<String, Error>(o),
            Some(None) => (r matches Err(e) && e.kind == ErrorKind::InvalidParam && e.message@
                == "Origin field is invalid."@),
            None => (r matches Err(e) && e.kind == ErrorKind::InvalidParam && e.message@
                == "Event needs an origin field."@),
        },
{
    match origin {
        Some(Some(o)) => Ok(o),
        Some(None) => Err(Error::new(ErrorKind::InvalidParam, "Origin field is invalid.")),
        None => Err(Error::new(ErrorKind::InvalidParam, "Event needs an origin field.")),
    }
}

// ---------------------------------------------------------------------------
// Membership changes made by other members
// ---------------------------------------------------------------------------

/// The member event of a ban: the user's current member event with the
/// membership set to ban, or, without one, a new event with the user's
/// profile (`fresh`) and the ban.
pub fn ban_content(existing: Option<MemberContent>, fresh: MemberContent) -> (c: MemberContent)
    ensures
        c == (match existing {
            Some(e) => MemberContent { membership: Membership::Ban, ..e },
            None => MemberContent { membership: Membership::Ban, ..fresh },
        }),
{
    match existing {
        Some(e) => MemberContent { membership: Membership::Ban, ..e },
        None => MemberContent { membership: Membership::Ban, ..fresh },
    }
}

/// The member event of a kick or an unban: the user's current member event
/// with the membership set to leave. A user without one cannot be kicked or
/// unbanned (`BadState`).
pub fn leave_content(existing: Option<MemberContent>, unban: bool) -> (r: Result<MemberContent, Error>)
    ensures
        match existing {
            Some(e) => r matches Ok(c) && c == (MemberContent { membership: Membership::Leave, ..e }),
            None => (r matches Err(err) && err.kind == ErrorKind::BadState),
        },
{
    match existing {
        Some(e) => Ok(MemberContent { membership: Membership::Leave, ..e }),
        None => if unban {
            Err(Error::new(ErrorKind::BadState, "Cannot unban a user who is not banned."))
        } else {
            Err(Error::new(ErrorKind::BadState, "Cannot kick member that's not in the room."))
        },
    }
}

/// Only users can be invited by id; other recipients are not found
/// (`NotFound`).
pub fn invite_recipient(user: Option<String>) -> (r: Result<String, Error>)
    ensures
        match user {
            Some(u) => r == Ok::<String, Error>(u),
            None => (r matches Err(e) && e.kind == ErrorKind::NotFound && e.message@ == "User not found."@),
        },
{
    match user {
        Some(u) => Ok(u),
        None => Err(Error::new(ErrorKind::NotFound, "User not found.")),
    }
}

/// The servers a join by room id goes through: the servers of the users who
/// sent the invite state (each once) and the room's own server.
pub open spec fn join_via_ok(invite_servers: Seq<String>, room_server: Seq<char>, out: Seq<String>) -> bool {
    &&& forall|i: int, j: int| 0 <= i < j < out.len() ==> out[i]@ != out[j]@
    &&& forall|i: int| 0 <= i < out.len() ==> (seq_has(invite_servers, #[trigger] out[i]@) || out[i]@ == room_server)
    &&& forall|k: int| 0 <= k < invite_servers.len() ==> seq_has(out, #[trigger] invite_servers[k]@)
    &&& seq_has(out, room_server)
}

/// Collects the servers a join by room id goes through.
pub fn join_via(invite_servers: &Vec<String>, room_server: &str) -> (out: Vec<String>)
    ensures
        join_via_ok(invite_servers@, room_server@, out@),
{
    let mut out: Vec<String> = Vec::new();
    let mut i: usize = 0;
    while i < invite_servers.len()
        invariant
            i <= invite_servers@.len(),
            forall|a: int, b: int| 0 <= a < b < out@.len() ==> out@[a]@ != out@[b]@,
            forall|a: int| 0 <= a < out@.len() ==> seq_has(invite_servers@, #[trigger] out@[a]@),
            forall|k: int| 0 <= k < i ==> seq_has(out@, #[trigger] invite_servers@[k]@),
        decreases invite_servers.len() - i,
    {
        let ghost old_out = out@;
        if !vec_has(&out, invite_servers[i].as_str()) {
            out.push(invite_servers[i].clone());
            assert forall|a: int| 0 <= a < out@.len() implies seq_has(invite_servers@, #[trigger] out@[a]@) by {
                if a < old_out.len() {
                    assert(out@[a] == old_out[a]);
                } else {
                    assert(invite_servers@[i as int]@ == out@[a]@);
                }
            }
            assert forall|k: int| 0 <= k < i + 1 implies seq_has(out@, #[trigger] invite_servers@[k]@) by {
                if k < i {
                    let w = choose|w: int| 0 <= w < old_out.len() && old_out[w]@ == invite_servers@[k]@;
                    assert(out@[w] == old_out[w]);
                } else {
                    assert(out@[old_out.len() as int]@ == invite_servers@[k]@);
                }
            }
            assert forall|a: int, b: int| 0 <= a < b < out@.len() implies out@[a]@ != out@[b]@ by {
                assert(out@[a] == old_out[a]);
                if b < old_out.len() {
                    assert(out@[b] == old_out[b]);
                }
            }
        }
        i = i + 1;
    }
    let ghost old_out = out@;
    if !vec_has(&out, room_server) {
        out.push(room_server.to_string());
        assert(out@[old_out.len() as int]@ == room_server@);
        assert forall|k: int| 0 <= k < invite_servers@.len() implies seq_has(out@, #[trigger] invite_servers@[k]@) by {
            let w = choose|w: int| 0 <= w < old_out.len() && old_out[w]@ == invite_servers@[k]@;
            assert(out@[w] == old_out[w]);
        }
        assert forall|a: int, b: int| 0 <= a < b < out@.len() implies out@[a]@ != out@[b]@ by {
            assert(out@[a] == old_out[a]);
            if b < old_out.len() {
                assert(out@[b] == old_out[b]);
            }
        }
        assert forall|a: int| 0 <= a < out@.len() implies (seq_has(invite_servers@, #[trigger] out@[a]@) || out@[a]@ == room_server@) by {
            if a < old_out.len() {
                assert(out@[a] == old_out[a]);
            }
        }
    }
    out
}

} // verus!
