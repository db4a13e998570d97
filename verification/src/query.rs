//! Federation queries: the servers offered for joining a room through one
//! of its aliases, and which profile fields another server may read.
use vstd::prelude::*;
use vstd::string::*;
use crate::error::{Error, ErrorKind};
use crate::text::{seq_has, str_eq, vec_has};

verus! {

/// The positions `0..n` in an order drawn at random: `rand`'s
/// `SliceRandom::shuffle` with the thread-local generator over `0..n`. The
/// contract claims only that the result is an ordering of `0..n`: each
/// position once. Which ordering is left open: it is random.
#[verifier::external_body]
fn shuffled_order(n: usize) -> (p: Vec<usize>)
    ensures
        is_ordering(p@, n as nat),
{
    let mut p: Vec<usize> = (0..n).collect();
    rand::seq::SliceRandom::shuffle(p.as_mut_slice(), &mut rand::thread_rng());
    p
}

/// `p` lists each of the positions `0..n` once.
pub open spec fn is_ordering(p: Seq<usize>, n: nat) -> bool {
    &&& p.len() == n
    &&& forall|i: int| 0 <= i < n ==> #[trigger] p[i] < n
    &&& forall|i: int, j: int| 0 <= i < j < n ==> p[i] != p[j]
    &&& forall|k: int| 0 <= k < n ==> #[trigger] occurs_in(p, k)
}

/// `k` is one of the positions listed.
pub open spec fn occurs_in(p: Seq<usize>, k: int) -> bool {
    exists|i: int| 0 <= i < p.len() && p[i] == k
}

/// The servers offered to join through: each server of the room once, in
/// random order, except that this server, if it is one of them, comes
/// first.
pub open spec fn join_servers_ok(servers: Seq<String>, ours: Seq<char>, out: Seq<String>) -> bool {
    &&& forall|i: int, j: int| 0 <= i < j < out.len() ==> out[i]@ != out[j]@
    &&& forall|i: int| 0 <= i < out.len() ==> seq_has(servers, #[trigger] out[i]@)
    &&& forall|k: int| 0 <= k < servers.len() ==> seq_has(out, #[trigger] servers[k]@)
    &&& seq_has(servers, ours) ==> out.len() > 0 && out[0]@ == ours
}

fn distinct(servers: &Vec<String>) -> (out: Vec<String>)
    ensures
        forall|i: int, j: int| 0 <= i < j < out@.len() ==> out@[i]@ != out@[j]@,
        forall|i: int| 0 <= i < out@.len() ==> seq_has(servers@, #[trigger] out@[i]@),
        forall|k: int| 0 <= k < servers@.len() ==> seq_has(out@, #[trigger] servers@[k]@),
{
    let mut out: Vec<String> = Vec::new();
    let mut i: usize = 0;
    while i < servers.len()
        invariant
            i <= servers@.len(),
            forall|a: int, b: int| 0 <= a < b < out@.len() ==> out@[a]@ != out@[b]@,
            forall|a: int| 0 <= a < out@.len() ==> seq_has(servers@, #[trigger] out@[a]@),
            forall|k: int| 0 <= k < i ==> seq_has(out@, #[trigger] servers@[k]@),
        decreases servers.len() - i,
    {
        let ghost old_out = out@;
        if !vec_has(&out, servers[i].as_str()) {
            out.push(servers[i].clone());
            assert forall|a: int| 0 <= a < out@.len() implies seq_has(servers@, #[trigger] out@[a]@) by {
                if a < old_out.len() {
                    assert(out@[a] == old_out[a]);
                } else {
                    assert(servers@[i as int]@ == out@[a]@);
                }
            }
            assert forall|k: int| 0 <= k < i + 1 implies seq_has(out@, #[trigger] servers@[k]@) by {
                if k < i {
                    let w = choose|w: int| 0 <= w < old_out.len() && old_out[w]@ == servers@[k]@;
                    assert(out@[w] == old_out[w]);
                } else {
                    assert(out@[old_out.len() as int]@ == servers@[k]@);
                }
            }
            assert forall|a: int, b: int| 0 <= a < b < out@.len() implies out@[a]@ != out@[b]@ by {
                assert(out@[a] == old_out[a]);
                if b < old_out.len() {
                    assert(out@[b] == old_out[b]);
                }
            }
        }
        i = i + 1;
    }
    out
}

/// `x` is one of the entries of `s`.
pub open spec fn has_elem(s: Seq<String>, x: String) -> bool {
    exists|b: int| 0 <= b < s.len() && s[b] == x
}

/// Orders the servers offered to join through.
pub fn join_servers(servers: &Vec<String>, ours: &str) -> (out: Vec<String>)
    ensures
        join_servers_ok(servers@, ours@, out@),
{
    let d = distinct(servers);
    let n = d.len();
    let perm = shuffled_order(n);
    let ghost pv = perm@;
    let mut out: Vec<String> = Vec::new();
    let mut i: usize = 0;
    while i < n
        invariant
            i <= n,
            n == d@.len(),
            perm@.len() == n,
            forall|a: int| 0 <= a < n ==> #[trigger] perm@[a] < n,
            forall|a: int, b: int| 0 <= a < b < n ==> perm@[a] != perm@[b],
            out@.len() == i,
            forall|a: int| 0 <= a < i ==> (#[trigger] out@[a])@ == d@[perm@[a] as int]@,
        decreases n - i,
    {
        out.push(d[perm[i]].clone());
        i = i + 1;
    }
    assert forall|a: int, b: int| 0 <= a < b < out@.len() implies out@[a]@ != out@[b]@ by {
        assert(perm@[a] != perm@[b]);
    }
    assert forall|a: int| 0 <= a < out@.len() implies seq_has(servers@, #[trigger] out@[a]@) by {
        assert(seq_has(servers@, d@[perm@[a] as int]@));
    }
    assert forall|k: int| 0 <= k < servers@.len() implies seq_has(out@, #[trigger] servers@[k]@) by {
        let w = choose|w: int| 0 <= w < d@.len() && d@[w]@ == servers@[k]@;
        assert(occurs_in(pv, w));
        let a = choose|a: int| 0 <= a < pv.len() && pv[a] == w;
        assert(out@[a]@ == servers@[k]@);
    }
    // This server goes first.
    let mut p: usize = 0;
    let mut found = false;
    while p < out.len() && !found
        invariant
            p <= out@.len(),
            found ==> p < out@.len() && out@[p as int]@ == ours@,
            forall|a: int| 0 <= a < p ==> (#[trigger] out@[a])@ != ours@,
        decreases out.len() - p, if found { 0int } else { 1int },
    {
        if str_eq(out[p].as_str(), ours) {
            found = true;
        } else {
            p = p + 1;
        }
    }
    if found {
        let ghost before = out@;
        let x = out.swap_remove(p);
        out.insert(0, x);
        let ghost mid = before.update(p as int, before.last()).drop_last();
        assert(out@ =~= seq![before[p as int]] + mid);
        assert forall|a: int| 0 <= a < out@.len() implies #[trigger] has_elem(before, out@[a]) by {
            if a == 0 {
                assert(out@[0] == before[p as int]);
            } else if a - 1 == p && p + 1 < before.len() {
                assert(out@[a] == before[before.len() - 1]);
            } else {
                assert(out@[a] == before[a - 1]);
            }
        }
        assert forall|b: int| 0 <= b < before.len() implies #[trigger] has_elem(out@, before[b]) by {
            if b == p {
                assert(out@[0] == before[b]);
            } else if b == before.len() - 1 {
                assert(out@[p + 1] == before[b]);
            } else {
                assert(out@[b + 1] == before[b]);
            }
        }
        assert forall|a: int, b: int| 0 <= a < b < out@.len() implies out@[a]@ != out@[b]@ by {
            let a0 = if a == 0 { p as int } else if a - 1 == p && p + 1 < before.len() { before.len() - 1 } else { a - 1 };
            let b0 = if b == 0 { p as int } else if b - 1 == p && p + 1 < before.len() { before.len() - 1 } else { b - 1 };
            assert(out@[a] == before[a0]);
            assert(out@[b] == before[b0]);
        }
        assert forall|a: int| 0 <= a < out@.len() implies seq_has(servers@, #[trigger] out@[a]@) by {
            assert(has_elem(before, out@[a]));
            let b = choose|b: int| 0 <= b < before.len() && before[b] == out@[a];
            assert(seq_has(servers@, before[b]@));
        }
        assert forall|k: int| 0 <= k < servers@.len() implies seq_has(out@, #[trigger] servers@[k]@) by {
            let w = choose|w: int| 0 <= w < before.len() && before[w]@ == servers@[k]@;
            assert(has_elem(out@, before[w]));
            let a = choose|a: int| 0 <= a < out@.len() && out@[a] == before[w];
            assert(out@[a]@ == servers@[k]@);
        }
    } else {
        proof {
            if seq_has(servers@, ours@) {
                let k = choose|k: int| 0 <= k < servers@.len() && servers@[k]@ == ours@;
                assert(seq_has(out@, servers@[k]@));
                let a = choose|a: int| 0 <= a < out@.len() && out@[a]@ == servers@[k]@;
                assert(out@[a]@ != ours@);
            }
        }
    }
    out
}

/// A room alias this server does not know is not found (`NotFound`).
pub fn local_alias_room(room_id: Option<String>) -> (r: Result<String, Error>)
    ensures
        match room_id {
            Some(id) => r == Ok::<String, Error>(id),
            None => (r matches Err(e) && e.kind == ErrorKind::NotFound && e.message@ == "Room alias not found."@),
        },
{
    match room_id {
        Some(id) => Ok(id),
        None => Err(Error::new(ErrorKind::NotFound, "Room alias not found.")),
    }
}

/// The profile field another server asks for.
#[derive(Debug, Clone, Copy, PartialEq, Eq, Structural)]
pub enum ProfileField {
    DisplayName,
    AvatarUrl,
    Custom,
}

/// Which parts of a profile a query returns: the display name, and the
/// avatar with its blurhash.
#[derive(Debug, Clone, Copy, PartialEq, Eq, Structural)]
pub struct ProfileParts {
    pub displayname: bool,
    pub avatar: bool,
}

/// A profile query is refused when the server does not allow them
/// (`Forbidden`) and for a user of another server (`InvalidParam`). It
/// returns the field asked for, nothing for a field this server does not
/// know, and the whole profile when no field is named.
pub fn profile_query(allowed: bool, user_server: &str, our_server: &str, field: Option<ProfileField>) -> (r:
    Result<ProfileParts, Error>)
    ensures
        !allowed ==> (r matches Err(e) && e.kind == ErrorKind::Forbidden && e.message@ == "Profile lookup over federation is not allowed on this homeserver."@),
        allowed && user_server@ != our_server@ ==> (r matches Err(e) && e.kind
            == ErrorKind::InvalidParam && e.message@ == "User does not belong to this server."@),
        allowed && user_server@ == our_server@ ==> r == Ok::<ProfileParts, Error>(
            match field {
                Some(ProfileField::DisplayName) => ProfileParts { displayname: true, avatar: false },
                Some(ProfileField::AvatarUrl) => ProfileParts { displayname: false, avatar: true },
                Some(ProfileField::Custom) => ProfileParts { displayname: false, avatar: false },
                None => ProfileParts { displayname: true, avatar: true },
            },
        ),
{
    if !allowed {
        return Err(
            Error::new(
                ErrorKind::Forbidden,
                "Profile lookup over federation is not allowed on this homeserver.",
            ),
        );
    }
    if !str_eq(user_server, our_server) {
        return Err(Error::new(ErrorKind::InvalidParam, "User does not belong to this server."));
    }
    Ok(
        match field {
            Some(ProfileField::DisplayName) => ProfileParts { displayname: true, avatar: false },
            Some(ProfileField::AvatarUrl) => ProfileParts { displayname: false, avatar: true },
            Some(ProfileField::Custom) => ProfileParts { displayname: false, avatar: false },
            None => ProfileParts { displayname: true, avatar: true },
        },
    )
}

} // verus!
