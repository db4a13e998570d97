//! The decisions of `/sync`: where an incremental sync starts, which events
//! make up a room's timeline, which state is sent, who the heroes of a room
//! are, how presence updates are merged, which device lists changed, and
//! whether a sync with nothing to say waits and may be cached.
use vstd::prelude::*;
use vstd::string::*;
use crate::federation::Membership;
use crate::text::{
    decimal_digits, format_u64, lemma_parse_format_u64, opt_view, parse_u64, parse_u64_spec, seq_has,
    str_eq, vec_has,
};

verus! {

// ---------------------------------------------------------------------------
// The starting point
// ---------------------------------------------------------------------------

/// The count an incremental sync starts after: the `since` token read as a
/// number, 0 where there is none or it is not a number.
pub open spec fn since_count_spec(since: Option<Seq<char>>) -> u64 {
    match since {
        None => 0,
        Some(s) => match parse_u64_spec(s) {
            Some(n) => n,
            None => 0,
        },
    }
}

/// Reads the `since` token.
pub fn since_count(since: Option<&str>) -> (n: u64)
    ensures
        n == since_count_spec(opt_view(since)),
{
    match since {
        None => 0,
        Some(s) => match parse_u64(s) {
            Some(n) => n,
            None => 0,
        },
    }
}

/// The `next_batch` token a sync hands out, read back as the `since` of the
/// next sync, gives the same count.
pub proof fn lemma_next_batch_round_trip(next_batch: u64)
    ensures
        since_count_spec(Some(decimal_digits(next_batch as nat))) == next_batch,
{
    lemma_parse_format_u64(next_batch);
}

// ---------------------------------------------------------------------------
// The timeline
// ---------------------------------------------------------------------------

/// The most events a room's timeline holds.
pub open spec fn timeline_max() -> int {
    10
}

/// Which of a room's events form its timeline. The events come newest first
/// with their counts; the timeline takes the newest ones while their count
/// lies after `since`, at most ten of them, and is `limited` when one more
/// such event exists beyond it.
pub struct TimelineWindow {
    pub take: usize,
    pub limited: bool,
}

/// The window over events that come newest first with the given counts.
pub open spec fn timeline_window_spec(counts: Seq<u64>, since: u64, w: TimelineWindow) -> bool {
    &&& w.take <= timeline_max()
    &&& w.take <= counts.len()
    &&& forall|i: int| 0 <= i < w.take ==> counts[i] > since
    &&& w.take < timeline_max() ==> (w.take == counts.len() || counts[w.take as int] <= since)
    &&& w.limited == (w.take == timeline_max() && timeline_max() < counts.len()
        && counts[timeline_max()] > since)
}

/// Picks the timeline of a room.
pub fn timeline_window(counts: &Vec<u64>, since: u64) -> (w: TimelineWindow)
    ensures
        timeline_window_spec(counts@, since, w),
{
    let mut i: usize = 0;
    while i < counts.len() && i < 10
        invariant
            i <= counts@.len(),
            i <= 10,
            forall|j: int| 0 <= j < i ==> counts@[j] > since,
        decreases 10 - i,
    {
        if counts[i] <= since {
            return TimelineWindow { take: i, limited: false };
        }
        i = i + 1;
    }
    let limited = i == 10 && 10 < counts.len() && counts[10] > since;
    TimelineWindow { take: i, limited }
}

/// A timeline that is not marked limited misses nothing: when the counts
/// come newest first, every event after `since` is in it.
pub proof fn lemma_unlimited_timeline_complete(counts: Seq<u64>, since: u64, w: TimelineWindow)
    requires
        forall|i: int, j: int| 0 <= i < j < counts.len() ==> counts[i] > counts[j],
        timeline_window_spec(counts, since, w),
        !w.limited,
    ensures
        forall|i: int| w.take <= i < counts.len() ==> counts[i] <= since,
{
    assert forall|i: int| w.take <= i < counts.len() implies counts[i] <= since by {
        if i > w.take {
            assert(counts[w.take as int] > counts[i]);
        }
    }
}

/// The first `n` of `events` (newest first) in the order they happened,
/// oldest first.
pub fn oldest_first<E>(events: Vec<E>, n: usize) -> (out: Vec<E>)
    requires
        n <= events@.len(),
    ensures
        out@ == events@.take(n as int).reverse(),
{
    let mut rest = events;
    rest.truncate(n);
    let ghost taken = rest@;
    assert(taken =~= events@.take(n as int));
    let mut out: Vec<E> = Vec::new();
    while rest.len() > 0
        invariant
            rest@ == taken.take(rest@.len() as int),
            rest@.len() <= taken.len(),
            out@ == taken.skip(rest@.len() as int).reverse(),
        decreases rest@.len(),
    {
        let ghost before = rest@.len();
        let e = rest.pop().unwrap();
        assert(e == taken[before - 1]);
        out.push(e);
        assert(rest@ =~= taken.take(before - 1));
        assert(out@ =~= taken.skip(before - 1).reverse());
    }
    assert(taken.skip(0) =~= taken);
    out
}

/// The `prev_batch` token of a timeline: the count of its oldest event.
pub fn prev_batch_count(counts: &Vec<u64>, w: &TimelineWindow) -> (c: Option<u64>)
    requires
        w.take <= counts@.len(),
    ensures
        c == (if w.take == 0 {
            None
        } else {
            Some(counts@[w.take - 1])
        }),
{
    if w.take == 0 {
        None
    } else {
        Some(counts[w.take - 1])
    }
}

/// Notification counts are sent when the timeline has events or the user's
/// private read marker moved after `since`.
pub fn send_notification_counts(timeline_len: usize, last_private_read: u64, since: u64) -> (b:
    bool)
    ensures
        b == (timeline_len > 0 || last_private_read > since),
{
    timeline_len > 0 || last_private_read > since
}

/// A room's timeline is marked limited when events were left out or the user
/// joined since the last sync.
pub fn timeline_limited(window: &TimelineWindow, joined_since_last_sync: bool) -> (b: bool)
    ensures
        b == (window.limited || joined_since_last_sync),
{
    window.limited || joined_since_last_sync
}

// ---------------------------------------------------------------------------
// Room state
// ---------------------------------------------------------------------------

/// How a room's state is synced.
#[derive(Debug, Clone, Copy, PartialEq, Eq, Structural)]
pub enum StateSync {
    /// No state is known at `since`: the whole state is sent.
    Initial,
    /// Nothing changed since then: no state is sent.
    Unchanged,
    /// The state changed: the difference is sent.
    Incremental,
}

/// The kind of state sync, from the state at `since` (the state of the last
/// event before it, if any), the current state and whether events came
/// after `since`.
pub open spec fn state_sync_spec(since_state: Option<u64>, current_state: u64, events_after: bool) -> StateSync {
    if since_state is None {
        StateSync::Initial
    } else if !events_after || since_state == Some(current_state) {
        StateSync::Unchanged
    } else {
        StateSync::Incremental
    }
}

/// Decides how a room's state is synced.
pub fn state_sync(since_state: Option<u64>, current_state: u64, events_after: bool) -> (k:
    StateSync)
    ensures
        k == state_sync_spec(since_state, current_state, events_after),
{
    match since_state {
        None => StateSync::Initial,
        Some(s) => if !events_after || s == current_state {
            StateSync::Unchanged
        } else {
            StateSync::Incremental
        },
    }
}

/// The user joined since the last sync unless its membership at `since`
/// (`None` where unknown) was a join.
pub fn joined_since_last_sync(since_membership: Option<Membership>) -> (b: bool)
    ensures
        b == (since_membership != Some(Membership::Join)),
{
    match since_membership {
        Some(Membership::Join) => false,
        _ => true,
    }
}

/// The state events of an incremental sync: every current state event when
/// the user joined since the last sync; otherwise those of the current state
/// that were not in the state at `since` and are not in the timeline, in the
/// order of the current state.
pub open spec fn state_delta(current: Seq<String>, since: Seq<String>, timeline: Seq<String>) -> Seq<
    String,
>
    decreases current.len(),
{
    if current.len() == 0 {
        Seq::empty()
    } else {
        let prev = state_delta(current.drop_last(), since, timeline);
        let id = current.last();
        if !seq_has(since, id@) && !seq_has(timeline, id@) {
            prev.push(id)
        } else {
            prev
        }
    }
}

/// The state event ids an incremental sync sends.
pub fn incremental_state(
    current: &Vec<String>,
    since: &Vec<String>,
    timeline: &Vec<String>,
    joined_since_last_sync: bool,
) -> (out: Vec<String>)
    ensures
        joined_since_last_sync ==> out@ == current@,
        !joined_since_last_sync ==> out@ == state_delta(current@, since@, timeline@),
{
    let mut out: Vec<String> = Vec::new();
    let mut i: usize = 0;
    while i < current.len()
        invariant
            i <= current@.len(),
            joined_since_last_sync ==> out@ == current@.take(i as int),
            !joined_since_last_sync ==> out@ == state_delta(
                current@.take(i as int),
                since@,
                timeline@,
            ),
        decreases current.len() - i,
    {
        let id = &current[i];
        assert(current@.take(i + 1).drop_last() =~= current@.take(i as int));
        if joined_since_last_sync || (!vec_has(since, id.as_str()) && !vec_has(
            timeline,
            id.as_str(),
        )) {
            out.push(id.clone());
        }
        assert(out@ =~= current@.take(i + 1) || !joined_since_last_sync);
        i = i + 1;
    }
    assert(current@.take(current@.len() as int) =~= current@);
    out
}


// ---------------------------------------------------------------------------
// Room summary
// ---------------------------------------------------------------------------

/// A member event of a room, as the hero search reads it: the user it is
/// about (`None` where the state key is missing or not a user id), the
/// membership it set, and whether that user is still joined or invited.
pub struct HeroCandidate {
    pub user: Option<String>,
    pub membership: Membership,
    pub still_member: bool,
}

/// A candidate may be a hero when its event made it a member (joined or
/// invited) and it still is one.
pub open spec fn hero_eligible(c: HeroCandidate) -> bool {
    &&& c.user is Some
    &&& (c.membership == Membership::Join || c.membership == Membership::Invite)
    &&& c.still_member
}

/// The heroes found in the member events, in order: each eligible user once,
/// never the syncing user.
pub open spec fn heroes_spec(c: Seq<HeroCandidate>, sender: Seq<char>) -> Seq<Seq<char>>
    decreases c.len(),
{
    if c.len() == 0 {
        Seq::empty()
    } else {
        let prev = heroes_spec(c.drop_last(), sender);
        let x = c.last();
        if hero_eligible(x) && x.user.unwrap()@ != sender && !prev.contains(x.user.unwrap()@) {
            prev.push(x.user.unwrap()@)
        } else {
            prev
        }
    }
}

/// The distinct users of the eligible candidates, in the order they first
/// come: the room's current members that the member events name.
pub open spec fn eligible_users(c: Seq<HeroCandidate>) -> Seq<Seq<char>>
    decreases c.len(),
{
    if c.len() == 0 {
        Seq::empty()
    } else {
        let prev = eligible_users(c.drop_last());
        let x = c.last();
        if hero_eligible(x) && !prev.contains(x.user.unwrap()@) {
            prev.push(x.user.unwrap()@)
        } else {
            prev
        }
    }
}

/// The heroes are the eligible users but the syncing user, so there are no
/// more of them than eligible users.
proof fn lemma_heroes_within_eligible(c: Seq<HeroCandidate>, sender: Seq<char>)
    ensures
        heroes_spec(c, sender).len() <= eligible_users(c).len(),
        forall|u: Seq<char>|
            heroes_spec(c, sender).contains(u) <==> (eligible_users(c).contains(u) && u != sender),
    decreases c.len(),
{
    if c.len() > 0 {
        let c0 = c.drop_last();
        lemma_heroes_within_eligible(c0, sender);
        let h0 = heroes_spec(c0, sender);
        let e0 = eligible_users(c0);
        let x = c.last();
        if hero_eligible(x) {
            let u = x.user.unwrap()@;
            let h = heroes_spec(c, sender);
            let e = eligible_users(c);
            assert(h == if u != sender && !h0.contains(u) { h0.push(u) } else { h0 });
            assert(e == if !e0.contains(u) { e0.push(u) } else { e0 });
            assert forall|v: Seq<char>| h.contains(v) <==> (e.contains(v) && v != sender) by {
                assert(h0.push(u).contains(v) <==> (h0.contains(v) || v == u)) by {
                    if h0.push(u).contains(v) {
                        let k = choose|k: int| 0 <= k < h0.push(u).len() && h0.push(u)[k] == v;
                        if k < h0.len() {
                            assert(h0[k] == v);
                        }
                    }
                    if h0.contains(v) {
                        let k = choose|k: int| 0 <= k < h0.len() && h0[k] == v;
                        assert(h0.push(u)[k] == v);
                    }
                    if v == u {
                        assert(h0.push(u)[h0.len() as int] == v);
                    }
                }
                assert(e0.push(u).contains(v) <==> (e0.contains(v) || v == u)) by {
                    if e0.push(u).contains(v) {
                        let k = choose|k: int| 0 <= k < e0.push(u).len() && e0.push(u)[k] == v;
                        if k < e0.len() {
                            assert(e0[k] == v);
                        }
                    }
                    if e0.contains(v) {
                        let k = choose|k: int| 0 <= k < e0.len() && e0[k] == v;
                        assert(e0.push(u)[k] == v);
                    }
                    if v == u {
                        assert(e0.push(u)[e0.len() as int] == v);
                    }
                }
            }
        }
    }
}

/// The heroes of a room: searched only when the room has at most five
/// joined and invited members together, otherwise none. The candidates'
/// still-member flags must agree with the counts: the eligible users, all of
/// them current members, are no more than the joined and invited members.
/// So at most five heroes are found.
pub fn heroes(
    joined: usize,
    invited: usize,
    candidates: &Vec<HeroCandidate>,
    sender: &str,
) -> (out: Vec<String>)
    requires
        eligible_users(candidates@).len() <= joined + invited,
    ensures
        joined + invited > 5 ==> out@.len() == 0,
        joined + invited <= 5 ==> out@.map_values(|u: String| u@) == heroes_spec(
            candidates@,
            sender@,
        ),
        out@.len() <= 5,
{
    proof {
        lemma_heroes_within_eligible(candidates@, sender@);
    }
    let mut out: Vec<String> = Vec::new();
    if joined > 5 || invited > 5 - joined {
        return out;
    }
    let mut i: usize = 0;
    while i < candidates.len()
        invariant
            i <= candidates@.len(),
            out@.map_values(|u: String| u@) == heroes_spec(candidates@.take(i as int), sender@),
        decreases candidates.len() - i,
    {
        let c = &candidates[i];
        assert(candidates@.take(i + 1).drop_last() =~= candidates@.take(i as int));
        assert(candidates@.take(i + 1).last() == c);
        let ghost prev = out@.map_values(|u: String| u@);
        match &c.user {
            Some(u) => {
                let member = match c.membership {
                    Membership::Join => true,
                    Membership::Invite => true,
                    _ => false,
                };
                if member && c.still_member && !str_eq(u.as_str(), sender) && !vec_has(
                    &out,
                    u.as_str(),
                ) {
                    out.push(u.clone());
                    assert(out@.map_values(|u: String| u@) =~= prev.push(u@));
                } else {
                    assert(seq_has(out@, u@) ==> prev.contains(u@)) by {
                        if seq_has(out@, u@) {
                            let k = choose|k: int| 0 <= k < out@.len() && out@[k]@ == u@;
                            assert(prev[k] == u@);
                        }
                    }
                }
            },
            None => {},
        }
        proof {
            if c.user is Some && !seq_has(out@, c.user.unwrap()@) {
                assert(!prev.contains(c.user.unwrap()@)) by {
                    if prev.contains(c.user.unwrap()@) {
                        let k = choose|k: int| 0 <= k < prev.len() && prev[k] == c.user.unwrap()@;
                        assert(out@[k]@ == c.user.unwrap()@);
                    }
                }
            }
        }
        i = i + 1;
    }
    assert(candidates@.take(candidates@.len() as int) =~= candidates@);
    out
}

// ---------------------------------------------------------------------------
// Device lists
// ---------------------------------------------------------------------------

/// What a member's change in an encrypted room means for the syncing user's
/// device lists.
#[derive(Debug, Clone, Copy, PartialEq, Eq, Structural)]
pub enum DeviceListChange {
    /// The member's devices are announced as changed.
    Changed,
    /// The member may have left every encrypted room the user shares.
    Left,
    Unchanged,
}

/// A member who was not joined at `since` (no membership there counts as
/// having left) and is joined now is announced, unless the user already
/// shares another encrypted room with them; a member who was joined and has
/// left is noted as possibly gone.
pub open spec fn member_device_change_spec(
    since: Option<Membership>,
    current: Membership,
    shares_other_encrypted_room: bool,
) -> DeviceListChange {
    let before = match since {
        None => Membership::Leave,
        Some(m) => m,
    };
    if before == Membership::Leave && current == Membership::Join {
        if shares_other_encrypted_room {
            DeviceListChange::Unchanged
        } else {
            DeviceListChange::Changed
        }
    } else if before == Membership::Join && current == Membership::Leave {
        DeviceListChange::Left
    } else {
        DeviceListChange::Unchanged
    }
}

/// A member who had left at `since` counts the same as one with no
/// membership there; a member who had left (or had none) and is joined now
/// has their devices announced unless the user shares another encrypted room
/// with them; a member who was joined and has left may be gone.
pub proof fn lemma_left_is_no_membership(current: Membership, shares_other_encrypted_room: bool)
    ensures
        member_device_change_spec(Some(Membership::Leave), current, shares_other_encrypted_room)
            == member_device_change_spec(None, current, shares_other_encrypted_room),
        member_device_change_spec(Some(Membership::Leave), Membership::Join, false)
            == DeviceListChange::Changed,
        member_device_change_spec(None, Membership::Join, false) == DeviceListChange::Changed,
        member_device_change_spec(Some(Membership::Leave), Membership::Join, true)
            == DeviceListChange::Unchanged,
        member_device_change_spec(Some(Membership::Join), Membership::Leave,
            shares_other_encrypted_room) == DeviceListChange::Left,
{
}

/// Classifies a member's change in an encrypted room.
pub fn member_device_change(
    since: Option<Membership>,
    current: Membership,
    shares_other_encrypted_room: bool,
) -> (c: DeviceListChange)
    ensures
        c == member_device_change_spec(since, current, shares_other_encrypted_room),
        (since is None || since == Some(Membership::Leave)) && current == Membership::Join ==> c
            == (if shares_other_encrypted_room {
            DeviceListChange::Unchanged
        } else {
            DeviceListChange::Changed
        }),
        since == Some(Membership::Join) && current == Membership::Leave ==> c
            == DeviceListChange::Left,
        c == DeviceListChange::Changed ==> current == Membership::Join,
        c == DeviceListChange::Left ==> since == Some(Membership::Join) && current
            == Membership::Leave,
{
    let before = match since {
        None => Membership::Leave,
        Some(m) => m,
    };
    if before == Membership::Leave && current == Membership::Join {
        if shares_other_encrypted_room {
            DeviceListChange::Unchanged
        } else {
            DeviceListChange::Changed
        }
    } else if before == Membership::Join && current == Membership::Leave {
        DeviceListChange::Left
    } else {
        DeviceListChange::Unchanged
    }
}

/// Every member's devices are announced when the user joined an encrypted
/// room since the last sync, or the room became encrypted since then.
pub fn announce_all_members(joined_since_last_sync: bool, encrypted: bool, encrypted_at_since:
    bool) -> (b: bool)
    ensures
        b == ((joined_since_last_sync && encrypted) || (encrypted && !encrypted_at_since)),
{
    (joined_since_last_sync && encrypted) || (encrypted && !encrypted_at_since)
}

/// The members whose devices are announced: all but the syncing user and
/// those with whom it already shares another encrypted room. Each member
/// comes with whether such a room exists.
pub open spec fn members_to_announce_spec(members: Seq<(String, bool)>, sender: Seq<char>) -> Seq<
    String,
>
    decreases members.len(),
{
    if members.len() == 0 {
        Seq::empty()
    } else {
        let prev = members_to_announce_spec(members.drop_last(), sender);
        let (u, shares) = members.last();
        if u@ != sender && !shares {
            prev.push(u)
        } else {
            prev
        }
    }
}

/// Picks the members whose devices are announced.
pub fn members_to_announce(members: &Vec<(String, bool)>, sender: &str) -> (out: Vec<String>)
    ensures
        out@ == members_to_announce_spec(members@, sender@),
{
    let mut out: Vec<String> = Vec::new();
    let mut i: usize = 0;
    while i < members.len()
        invariant
            i <= members@.len(),
            out@ == members_to_announce_spec(members@.take(i as int), sender@),
        decreases members.len() - i,
    {
        assert(members@.take(i + 1).drop_last() =~= members@.take(i as int));
        let (u, shares) = &members[i];
        if !str_eq(u.as_str(), sender) && !*shares {
            out.push(u.clone());
        }
        i = i + 1;
    }
    assert(members@.take(members@.len() as int) =~= members@);
    out
}

/// A user who left an encrypted room is reported as left when no room the
/// two still share is encrypted.
pub fn device_list_left(shared_rooms_encrypted: &Vec<bool>) -> (b: bool)
    ensures
        b == !shared_rooms_encrypted@.contains(true),
{
    let mut i: usize = 0;
    while i < shared_rooms_encrypted.len()
        invariant
            i <= shared_rooms_encrypted@.len(),
            forall|j: int| 0 <= j < i ==> !shared_rooms_encrypted@[j],
        decreases shared_rooms_encrypted.len() - i,
    {
        if shared_rooms_encrypted[i] {
            assert(shared_rooms_encrypted@[i as int]);
            return false;
        }
        i = i + 1;
    }
    true
}

/// One-time key counts are sent on an initial sync and when keys changed
/// after `since`.
pub fn send_one_time_key_counts(last_update: u64, since: u64) -> (b: bool)
    ensures
        b == (last_update > since || since == 0),
{
    last_update > since || since == 0
}

// ---------------------------------------------------------------------------
// Left and invited rooms
// ---------------------------------------------------------------------------

/// A left or invited room appears when the user left it, or was invited to
/// it, after `since` (the count of that event, `None` where unknown).
pub fn changed_after(count: Option<u64>, since: u64) -> (b: bool)
    ensures
        b == (count matches Some(c) && c > since),
{
    match count {
        Some(c) => c > since,
        None => false,
    }
}


// ---------------------------------------------------------------------------
// Presence
// ---------------------------------------------------------------------------

/// A user's presence state.
#[derive(Debug, Clone, Copy, PartialEq, Eq, Structural)]
pub enum PresenceState {
    Online,
    Offline,
    Unavailable,
}

/// The content of a presence update.
pub struct PresenceContent {
    pub presence: PresenceState,
    pub status_msg: Option<String>,
    pub last_active_ago: Option<u64>,
    pub displayname: Option<String>,
    pub avatar_url: Option<String>,
    pub currently_active: Option<bool>,
}

/// A later update of the same user refines an earlier one: its presence
/// state wins, and each other field it carries replaces the earlier value.
pub open spec fn merge_presence_spec(old: PresenceContent, new: PresenceContent) -> PresenceContent {
    PresenceContent {
        presence: new.presence,
        status_msg: if new.status_msg is Some {
            new.status_msg
        } else {
            old.status_msg
        },
        last_active_ago: if new.last_active_ago is Some {
            new.last_active_ago
        } else {
            old.last_active_ago
        },
        displayname: if new.displayname is Some {
            new.displayname
        } else {
            old.displayname
        },
        avatar_url: if new.avatar_url is Some {
            new.avatar_url
        } else {
            old.avatar_url
        },
        currently_active: if new.currently_active is Some {
            new.currently_active
        } else {
            old.currently_active
        },
    }
}

/// Merges a later update into an earlier one.
pub fn merge_presence(old: PresenceContent, new: PresenceContent) -> (m: PresenceContent)
    ensures
        m == merge_presence_spec(old, new),
{
    PresenceContent {
        presence: new.presence,
        status_msg: match new.status_msg {
            Some(x) => Some(x),
            None => old.status_msg,
        },
        last_active_ago: match new.last_active_ago {
            Some(x) => Some(x),
            None => old.last_active_ago,
        },
        displayname: match new.displayname {
            Some(x) => Some(x),
            None => old.displayname,
        },
        avatar_url: match new.avatar_url {
            Some(x) => Some(x),
            None => old.avatar_url,
        },
        currently_active: match new.currently_active {
            Some(x) => Some(x),
            None => old.currently_active,
        },
    }
}

/// What the updates say of one user: their merge, in order, or `None` when
/// the user has none.
pub open spec fn merged_for(updates: Seq<(String, PresenceContent)>, user: Seq<char>) -> Option<
    PresenceContent,
>
    decreases updates.len(),
{
    if updates.len() == 0 {
        None
    } else {
        let prev = merged_for(updates.drop_last(), user);
        let (u, p) = updates.last();
        if u@ == user {
            match prev {
                None => Some(p),
                Some(q) => Some(merge_presence_spec(q, p)),
            }
        } else {
            prev
        }
    }
}

/// The merged presence of a sync: one entry per user with any update, which
/// is the merge of all of that user's updates in order.
pub open spec fn presence_merged(
    updates: Seq<(String, PresenceContent)>,
    out: Seq<(String, PresenceContent)>,
) -> bool {
    &&& forall|i: int, j: int| 0 <= i < j < out.len() ==> out[i].0@ != out[j].0@
    &&& forall|i: int| 0 <= i < out.len() ==> merged_for(updates, #[trigger] out[i].0@) == Some(
        out[i].1,
    )
    &&& forall|k: int|
        0 <= k < updates.len() ==> exists|i: int|
            0 <= i < out.len() && #[trigger] out[i].0@ == (#[trigger] updates[k]).0@
}

proof fn lemma_merged_for_absent(updates: Seq<(String, PresenceContent)>, user: Seq<char>)
    requires
        forall|k: int| 0 <= k < updates.len() ==> (#[trigger] updates[k]).0@ != user,
    ensures
        merged_for(updates, user) is None,
    decreases updates.len(),
{
    if updates.len() > 0 {
        lemma_merged_for_absent(updates.drop_last(), user);
        assert(updates.last() == updates[updates.len() - 1]);
    }
}

fn find_user(out: &Vec<(String, PresenceContent)>, user: &str) -> (r: Option<usize>)
    ensures
        match r {
            Some(i) => i < out@.len() && out@[i as int].0@ == user@,
            None => forall|i: int| 0 <= i < out@.len() ==> (#[trigger] out@[i]).0@ != user@,
        },
{
    let mut i: usize = 0;
    while i < out.len()
        invariant
            i <= out@.len(),
            forall|j: int| 0 <= j < i ==> (#[trigger] out@[j]).0@ != user@,
        decreases out.len() - i,
    {
        if str_eq(out[i].0.as_str(), user) {
            return Some(i);
        }
        i = i + 1;
    }
    None
}

/// Merges the presence updates of all rooms: one entry per user, in the
/// order users first appear.
pub fn merge_presence_updates(updates: Vec<(String, PresenceContent)>) -> (out: Vec<
    (String, PresenceContent),
>)
    ensures
        presence_merged(updates@, out@),
{
    let ghost all = updates@;
    let n = updates.len();
    let mut rev = oldest_first(updates, n);
    assert(all.take(n as int) =~= all);
    let mut out: Vec<(String, PresenceContent)> = Vec::new();
    let ghost mut k: int = 0;
    while rev.len() > 0
        invariant
            0 <= k <= all.len(),
            rev@ =~= all.skip(k).reverse(),
            presence_merged(all.take(k), out@),
        decreases rev@.len(),
    {
        let (u, p) = rev.pop().unwrap();
        assert((u, p) == all[k]);
        let ghost before = all.take(k);
        let ghost after = all.take(k + 1);
        assert(after.drop_last() =~= before);
        assert(after.last() == (u, p));
        let ghost old_out = out@;
        match find_user(&out, u.as_str()) {
            Some(idx) => {
                let old_entry = out.remove(idx);
                assert(old_entry == old_out[idx as int]);
                let merged = merge_presence(old_entry.1, p);
                out.insert(idx, (u, merged));
                assert(out@ =~= old_out.update(idx as int, (u, merged)));
                assert forall|i: int| 0 <= i < out@.len() implies merged_for(
                    after,
                    #[trigger] out@[i].0@,
                ) == Some(out@[i].1) by {
                    assert(merged_for(before, old_out[i].0@) == Some(old_out[i].1));
                }
                assert forall|j: int| 0 <= j < after.len() implies exists|i: int|
                    0 <= i < out@.len() && #[trigger] out@[i].0@ == (#[trigger] after[j]).0@ by {
                    if j < k {
                        assert(after[j] == before[j]);
                        let i = choose|i: int|
                            0 <= i < old_out.len() && #[trigger] old_out[i].0@ == before[j].0@;
                        assert(out@[i].0@ == after[j].0@);
                    } else {
                        assert(out@[idx as int].0@ == after[j].0@);
                    }
                }
            },
            None => {
                proof {
                    assert forall|j: int| 0 <= j < before.len() implies (
                    #[trigger] before[j]).0@ != u@ by {
                        let i = choose|i: int|
                            0 <= i < old_out.len() && #[trigger] old_out[i].0@ == before[j].0@;
                        assert(old_out[i].0@ != u@);
                    }
                    lemma_merged_for_absent(before, u@);
                }
                let ghost uv = u@;
                out.push((u, p));
                assert forall|i: int| 0 <= i < out@.len() implies merged_for(
                    after,
                    #[trigger] out@[i].0@,
                ) == Some(out@[i].1) by {
                    if i < old_out.len() {
                        assert(out@[i] == old_out[i]);
                        assert(merged_for(before, old_out[i].0@) == Some(old_out[i].1));
                    }
                }
                assert forall|j: int| 0 <= j < after.len() implies exists|i: int|
                    0 <= i < out@.len() && #[trigger] out@[i].0@ == (#[trigger] after[j]).0@ by {
                    if j < k {
                        assert(after[j] == before[j]);
                        let i = choose|i: int|
                            0 <= i < old_out.len() && #[trigger] old_out[i].0@ == before[j].0@;
                        assert(out@[i] == old_out[i]);
                        assert(out@[i].0@ == after[j].0@);
                    } else {
                        assert(out@[old_out.len() as int].0@ == after[j].0@);
                    }
                }
                assert forall|a: int, b: int| 0 <= a < b < out@.len() implies out@[a].0@
                    != out@[b].0@ by {
                    if b == old_out.len() {
                        assert(out@[a] == old_out[a]);
                    } else {
                        assert(out@[a] == old_out[a]);
                        assert(out@[b] == old_out[b]);
                    }
                }
            },
        }
        proof {
            k = k + 1;
        }
        assert(rev@ =~= all.skip(k).reverse());
    }
    assert(all.take(k) =~= all);
    out
}

// ---------------------------------------------------------------------------
// The answer
// ---------------------------------------------------------------------------

/// The longest a sync with nothing to report waits, in milliseconds.
pub open spec fn max_wait_ms() -> u64 {
    30000
}

/// What happens with a sync response once it is built.
pub struct SyncOutcome {
    /// How long to wait for news before answering (`None`: answer at once).
    pub wait_ms: Option<u64>,
    /// Whether the response may be reused for a repeated request.
    pub cacheable: bool,
}

/// A sync that is not a full-state one and has nothing to report waits for
/// the client's timeout (none: not at all), cut to thirty seconds when its
/// whole seconds exceed thirty, and is not cached. Any other response is
/// sent at once and cached when the sync made progress.
pub open spec fn sync_outcome_spec(
    full_state: bool,
    nothing_new: bool,
    timeout_ms: Option<u64>,
    since: u64,
    next_batch: u64,
) -> SyncOutcome {
    if !full_state && nothing_new {
        let t = match timeout_ms {
            Some(t) => t,
            None => 0,
        };
        SyncOutcome {
            wait_ms: Some(if t / 1000 > 30 { max_wait_ms() } else { t }),
            cacheable: false,
        }
    } else {
        SyncOutcome { wait_ms: None, cacheable: since != next_batch }
    }
}

/// Decides whether the response waits and whether it may be cached.
pub fn sync_outcome(
    full_state: bool,
    nothing_new: bool,
    timeout_ms: Option<u64>,
    since: u64,
    next_batch: u64,
) -> (o: SyncOutcome)
    ensures
        o == sync_outcome_spec(full_state, nothing_new, timeout_ms, since, next_batch),
{
    if !full_state && nothing_new {
        let t = match timeout_ms {
            Some(t) => t,
            None => 0,
        };
        SyncOutcome { wait_ms: Some(if t / 1000 > 30 { 30000 } else { t }), cacheable: false }
    } else {
        SyncOutcome { wait_ms: None, cacheable: since != next_batch }
    }
}

/// The `next_batch` token of a sync: the server's current count, in
/// decimal.
pub fn next_batch_token(count: u64) -> (s: String)
    ensures
        s@ == decimal_digits(count as nat),
{
    format_u64(count)
}

/// How many entries each part of a sync response holds: joined, left,
/// invited and knocked rooms, presence events, global account data events,
/// changed and left device lists, one-time key counts and to-device events.
#[derive(Debug)]
pub struct SyncSections {
    pub joined_rooms: usize,
    pub left_rooms: usize,
    pub invited_rooms: usize,
    pub knocked_rooms: usize,
    pub presence: usize,
    pub account_data: usize,
    pub device_lists_changed: usize,
    pub device_lists_left: usize,
    pub one_time_key_counts: usize,
    pub to_device: usize,
}

/// A response has nothing new when every part of it is empty.
pub open spec fn nothing_new_spec(s: SyncSections) -> bool {
    &&& s.joined_rooms == 0
    &&& s.left_rooms == 0
    &&& s.invited_rooms == 0
    &&& s.knocked_rooms == 0
    &&& s.presence == 0
    &&& s.account_data == 0
    &&& s.device_lists_changed == 0
    &&& s.device_lists_left == 0
    &&& s.one_time_key_counts == 0
    &&& s.to_device == 0
}

/// The end of a sync: its `next_batch` token, the current count in decimal,
/// and whether the response waits and may be cached, where "nothing new"
/// means that every part of the response is empty.
pub fn finish_sync(
    full_state: bool,
    sections: &SyncSections,
    timeout_ms: Option<u64>,
    since: u64,
    count: u64,
) -> (r: (String, SyncOutcome))
    ensures
        r.0@ == decimal_digits(count as nat),
        r.1 == sync_outcome_spec(full_state, nothing_new_spec(*sections), timeout_ms, since, count),
{
    let nothing_new = sections.joined_rooms == 0 && sections.left_rooms == 0
        && sections.invited_rooms == 0 && sections.knocked_rooms == 0 && sections.presence == 0
        && sections.account_data == 0 && sections.device_lists_changed == 0
        && sections.device_lists_left == 0 && sections.one_time_key_counts == 0
        && sections.to_device == 0;
    (next_batch_token(count), sync_outcome(full_state, nothing_new, timeout_ms, since, count))
}

/// The entry of a room the user left: no account data, the room's state,
/// and a timeline without events that is not limited and whose `prev_batch`
/// is this sync's `next_batch`.
#[derive(Debug)]
pub struct LeftRoom<E> {
    pub account_data: Vec<E>,
    pub state: Vec<E>,
    pub timeline: Vec<E>,
    pub limited: bool,
    pub prev_batch: Option<String>,
}

/// A left room is listed when the user left it after `since` (`left_count`
/// is the count of the leave, `None` where unknown), with an empty
/// timeline.
pub fn left_room<E>(left_count: Option<u64>, since: u64, next_batch: &str, state: Vec<E>) -> (r:
    Option<LeftRoom<E>>)
    ensures
        r is Some <==> (left_count matches Some(c) && c > since),
        r matches Some(l) ==> {
            &&& l.account_data@.len() == 0
            &&& l.state@ == state@
            &&& l.timeline@.len() == 0
            &&& !l.limited
            &&& l.prev_batch matches Some(p) && p@ == next_batch@
        },
{
    if !changed_after(left_count, since) {
        return None;
    }
    Some(
        LeftRoom {
            account_data: Vec::new(),
            state,
            timeline: Vec::new(),
            limited: false,
            prev_batch: Some(next_batch.to_string()),
        },
    )
}

/// What a `/sync` request does about a sync already running for the same
/// device.
#[derive(Debug, Clone, Copy, PartialEq, Eq, Structural)]
pub enum SyncStart {
    /// Start a new sync and remember it.
    Spawn,
    /// Wait for the running one, which has the same `since`.
    Reuse,
}

fn token_eq(a: Option<&str>, b: Option<&str>) -> (r: bool)
    ensures
        r == (opt_view(a) == opt_view(b)),
{
    match (a, b) {
        (None, None) => true,
        (Some(x), Some(y)) => str_eq(x, y),
        _ => false,
    }
}

/// A running sync of the device (`running` is its `since`, `None` when
/// there is none) is reused when it started from the same `since`.
pub fn sync_start(running: Option<Option<&str>>, since: Option<&str>) -> (s: SyncStart)
    ensures
        (s == SyncStart::Reuse) <==> (running matches Some(r) && opt_view(r) == opt_view(
            since,
        )),
{
    match running {
        Some(r) => if token_eq(r, since) {
            SyncStart::Reuse
        } else {
            SyncStart::Spawn
        },
        None => SyncStart::Spawn,
    }
}

/// When a finished sync may not be cached, its entry is forgotten, unless
/// the device has meanwhile started a sync from another `since`.
pub fn forget_running_sync(
    succeeded: bool,
    cacheable: bool,
    running: Option<Option<&str>>,
    since: Option<&str>,
) -> (b: bool)
    ensures
        b == (succeeded && !cacheable && (running matches Some(r) && opt_view(r) == opt_view(
            since,
        ))),
{
    if !succeeded || cacheable {
        return false;
    }
    match running {
        Some(r) => token_eq(r, since),
        None => false,
    }
}

/// Whether the user shares an encrypted room with another user, apart from
/// the room being synced: each shared room comes with whether it is
/// encrypted.
pub open spec fn shares_encrypted_room_spec(shared: Seq<(String, bool)>, ignore: Seq<char>) -> bool {
    exists|i: int| 0 <= i < shared.len() && #[trigger] shared[i].0@ != ignore && shared[i].1
}

/// Decides whether another encrypted room is shared.
pub fn share_encrypted_room(shared: &Vec<(String, bool)>, ignore: &str) -> (b: bool)
    ensures
        b == shares_encrypted_room_spec(shared@, ignore@),
{
    let mut i: usize = 0;
    while i < shared.len()
        invariant
            i <= shared@.len(),
            forall|j: int| 0 <= j < i ==> !(#[trigger] shared@[j].0@ != ignore@ && shared@[j].1),
        decreases shared.len() - i,
    {
        if !str_eq(shared[i].0.as_str(), ignore) && shared[i].1 {
            return true;
        }
        i = i + 1;
    }
    false
}

} // verus!
