//! Profiles: where a profile is read from, when a local one is missing,
//! which member events a profile change sends, and the presence that goes
//! with it.
use vstd::prelude::*;
use vstd::string::*;
use crate::error::{Error, ErrorKind};
use crate::federation::Membership;
use crate::sync::{PresenceContent, PresenceState};
use crate::text::str_eq;

verus! {

/// A profile of a user of another server is asked of that server.
pub fn is_remote_user(user_server: &str, our_server: &str) -> (b: bool)
    ensures
        b == (user_server@ != our_server@),
{
    !str_eq(user_server, our_server)
}

/// A local profile of a user that does not exist is not found
/// (`NotFound`).
pub fn local_profile_exists(exists: bool) -> (r: Result<(), Error>)
    ensures
        r is Ok <==> exists,
        r matches Err(e) ==> e.kind == ErrorKind::NotFound && e.message@ == "Profile was not found."@,
{
    if exists {
        Ok(())
    } else {
        Err(Error::new(ErrorKind::NotFound, "Profile was not found."))
    }
}

/// The content of a member event, as a profile change reads and writes it.
pub struct MemberContent {
    pub membership: Membership,
    pub displayname: Option<String>,
    pub avatar_url: Option<String>,
    pub blurhash: Option<String>,
    pub is_direct: Option<bool>,
    pub reason: Option<String>,
}

/// A change of the profile.
pub enum ProfileChange {
    DisplayName(Option<String>),
    AvatarUrl(Option<String>),
}

/// A member event's content after a profile change: the changed field
/// replaced, the rest kept.
pub open spec fn changed_content(c: MemberContent, change: ProfileChange) -> MemberContent {
    match change {
        ProfileChange::DisplayName(n) => MemberContent { displayname: n, ..c },
        ProfileChange::AvatarUrl(a) => MemberContent { avatar_url: a, ..c },
    }
}

fn change_content(c: MemberContent, change: &ProfileChange) -> (out: MemberContent)
    ensures
        out == changed_content(c, *change),
{
    match change {
        ProfileChange::DisplayName(n) => {
            let v = match n {
                Some(s) => Some(s.clone()),
                None => None,
            };
            MemberContent { displayname: v, ..c }
        },
        ProfileChange::AvatarUrl(a) => {
            let v = match a {
                Some(s) => Some(s.clone()),
                None => None,
            };
            MemberContent { avatar_url: v, ..c }
        },
    }
}

/// The member events a profile change sends: for each joined room whose
/// current member event of the user is known (rooms without one are
/// skipped), that content with the change applied.
pub open spec fn member_updates_spec(
    rooms: Seq<(String, Option<MemberContent>)>,
    change: ProfileChange,
) -> Seq<(String, MemberContent)>
    decreases rooms.len(),
{
    if rooms.len() == 0 {
        Seq::empty()
    } else {
        let prev = member_updates_spec(rooms.drop_last(), change);
        match rooms.last().1 {
            Some(c) => prev.push((rooms.last().0, changed_content(c, change))),
            None => prev,
        }
    }
}

/// A sent member content carries the change: the changed field holds the new
/// value, and every other field is that of the stored content.
pub open spec fn carries_change(stored: MemberContent, change: ProfileChange, sent: MemberContent) -> bool {
    &&& sent.membership == stored.membership
    &&& sent.blurhash == stored.blurhash
    &&& sent.is_direct == stored.is_direct
    &&& sent.reason == stored.reason
    &&& match change {
        ProfileChange::DisplayName(n) => sent.displayname == n && sent.avatar_url
            == stored.avatar_url,
        ProfileChange::AvatarUrl(a) => sent.avatar_url == a && sent.displayname
            == stored.displayname,
    }
}

/// A sent member event is for one of the rooms whose stored content is
/// known, and carries the change on top of that content.
pub open spec fn sent_for_known_room(
    rooms: Seq<(String, Option<MemberContent>)>,
    change: ProfileChange,
    sent: (String, MemberContent),
) -> bool {
    exists|j: int|
        0 <= j < rooms.len() && rooms[j].0 == sent.0 && rooms[j].1 is Some && carries_change(
            rooms[j].1.unwrap(),
            change,
            sent.1,
        )
}

/// A room whose stored content is known gets a sent member event carrying
/// the change on top of that content.
pub open spec fn room_gets_update(
    sent: Seq<(String, MemberContent)>,
    change: ProfileChange,
    room: (String, Option<MemberContent>),
) -> bool {
    room.1 is Some ==> exists|i: int|
        0 <= i < sent.len() && sent[i].0 == room.0 && carries_change(room.1.unwrap(), change, sent[i].1)
}

/// Every member event a profile change sends is for a joined room whose
/// stored member content is known, and carries the change on top of that
/// content.
pub proof fn lemma_member_updates_carry_change(
    rooms: Seq<(String, Option<MemberContent>)>,
    change: ProfileChange,
    i: int,
)
    requires
        0 <= i < member_updates_spec(rooms, change).len(),
    ensures
        sent_for_known_room(rooms, change, member_updates_spec(rooms, change)[i]),
    decreases rooms.len(),
{
    let r0 = rooms.drop_last();
    let u0 = member_updates_spec(r0, change);
    let u = member_updates_spec(rooms, change);
    if i < u0.len() {
        assert(u[i] == u0[i]);
        lemma_member_updates_carry_change(r0, change, i);
        let j = choose|j: int|
            0 <= j < r0.len() && r0[j].0 == u0[i].0 && r0[j].1 is Some && carries_change(
                r0[j].1.unwrap(),
                change,
                u0[i].1,
            );
        assert(rooms[j] == r0[j]);
    } else {
        let j = rooms.len() - 1;
        assert(rooms[j] == rooms.last());
        assert(rooms[j].0 == u[i].0 && rooms[j].1 is Some && carries_change(
            rooms[j].1.unwrap(),
            change,
            u[i].1,
        ));
    }
}

/// Every joined room whose stored member content is known gets a member
/// event from a profile change, carrying the change on top of that content.
pub proof fn lemma_member_updates_cover_rooms(
    rooms: Seq<(String, Option<MemberContent>)>,
    change: ProfileChange,
    j: int,
)
    requires
        0 <= j < rooms.len(),
        rooms[j].1 is Some,
    ensures
        room_gets_update(member_updates_spec(rooms, change), change, rooms[j]),
    decreases rooms.len(),
{
    let r0 = rooms.drop_last();
    let u0 = member_updates_spec(r0, change);
    let u = member_updates_spec(rooms, change);
    if j < r0.len() {
        assert(r0[j] == rooms[j]);
        lemma_member_updates_cover_rooms(r0, change, j);
        let i = choose|i: int|
            0 <= i < u0.len() && u0[i].0 == r0[j].0 && carries_change(
                r0[j].1.unwrap(),
                change,
                u0[i].1,
            );
        assert(u[i] == u0[i]);
    } else {
        assert(rooms[j] == rooms.last());
        let i = u.len() - 1;
        assert(u[i] == (rooms[j].0, changed_content(rooms[j].1.unwrap(), change)));
        assert(0 <= i < u.len() && u[i].0 == rooms[j].0 && carries_change(
            rooms[j].1.unwrap(),
            change,
            u[i].1,
        ));
    }
}

proof fn lemma_member_updates_len(rooms: Seq<(String, Option<MemberContent>)>, change: ProfileChange)
    ensures
        member_updates_spec(rooms, change).len() <= rooms.len(),
    decreases rooms.len(),
{
    if rooms.len() > 0 {
        lemma_member_updates_len(rooms.drop_last(), change);
    }
}

/// Builds the member events of a profile change.
pub fn member_updates(rooms: Vec<(String, Option<MemberContent>)>, change: &ProfileChange) -> (out:
    Vec<(String, MemberContent)>)
    ensures
        out@ == member_updates_spec(rooms@, *change),
        out@.len() <= rooms@.len(),
        forall|i: int| 0 <= i < out@.len() ==> sent_for_known_room(rooms@, *change, #[trigger] out@[i]),
        forall|j: int| 0 <= j < rooms@.len() ==> room_gets_update(out@, *change, #[trigger] rooms@[j]),
{
    proof {
        lemma_member_updates_len(rooms@, *change);
    }
    let ghost all = rooms@;
    let mut out: Vec<(String, MemberContent)> = Vec::new();
    let mut rest = rooms;
    let mut rev: Vec<(String, Option<MemberContent>)> = Vec::new();
    while rest.len() > 0
        invariant
            all == rest@ + rev@.reverse(),
        decreases rest@.len(),
    {
        let ghost before = rest@;
        let x = rest.pop().unwrap();
        rev.push(x);
        assert(before == rest@.push(x));
        assert(all =~= rest@ + rev@.reverse());
    }
    assert(rev@.reverse() =~= all);
    let ghost mut k: int = 0;
    while rev.len() > 0
        invariant
            0 <= k <= all.len(),
            rev@.reverse() =~= all.skip(k),
            out@ == member_updates_spec(all.take(k), *change),
        decreases rev@.len(),
    {
        let ghost rv = rev@;
        assert(rv.reverse().len() == rv.len());
        assert(k < all.len());
        assert(rv.reverse()[0] == rv[rv.len() - 1]);
        assert(all.skip(k)[0] == all[k]);
        let (room, content) = rev.pop().unwrap();
        assert((room, content) == all[k]);
        assert(all.take(k + 1).drop_last() =~= all.take(k));
        match content {
            Some(c) => {
                out.push((room, change_content(c, change)));
            },
            None => {},
        }
        proof {
            assert forall|j: int| 0 <= j < rev@.len() implies rev@.reverse()[j] == all.skip(
                k + 1,
            )[j] by {
                assert(rv.reverse()[j + 1] == all.skip(k)[j + 1]);
                assert(rev@[rev@.len() - 1 - j] == rv[rv.len() - 1 - (j + 1)]);
            }
            k = k + 1;
        }
        assert(rev@.reverse() =~= all.skip(k));
    }
    assert(all.take(k) =~= all);
    proof {
        assert forall|i: int| 0 <= i < out@.len() implies sent_for_known_room(
            all,
            *change,
            #[trigger] out@[i],
        ) by {
            lemma_member_updates_carry_change(all, *change, i);
        }
        assert forall|j: int| 0 <= j < all.len() implies room_gets_update(
            out@,
            *change,
            #[trigger] all[j],
        ) by {
            if all[j].1 is Some {
                lemma_member_updates_cover_rooms(all, *change, j);
            }
        }
    }
    out
}

/// The presence a profile change announces in each joined room: online,
/// active just now, with the user's current display name and avatar.
pub open spec fn profile_presence_spec(
    displayname: Option<String>,
    avatar_url: Option<String>,
    now_ms: u64,
) -> PresenceContent {
    PresenceContent {
        presence: PresenceState::Online,
        status_msg: None,
        last_active_ago: Some(now_ms),
        displayname,
        avatar_url,
        currently_active: None,
    }
}

/// Builds the presence of a profile change.
pub fn profile_presence(displayname: Option<String>, avatar_url: Option<String>, now_ms: u64) -> (p:
    PresenceContent)
    ensures
        p == profile_presence_spec(displayname, avatar_url, now_ms),
{
    PresenceContent {
        presence: PresenceState::Online,
        status_msg: None,
        last_active_ago: Some(now_ms),
        displayname,
        avatar_url,
        currently_active: None,
    }
}

} // verus!
