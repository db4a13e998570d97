//! Incoming federation transactions: the PDUs of a transaction are handled
//! room by room, each room's events in the order they were sent.
use vstd::prelude::*;
use vstd::string::*;
use crate::error::Error;
use crate::membership::{extend_entries, keys_unique, lookup};

verus! {

/// The events of one room, in the order they came.
pub open spec fn events_of<E>(pdus: Seq<(String, E)>, room: Seq<char>) -> Seq<E>
    decreases pdus.len(),
{
    if pdus.len() == 0 {
        Seq::empty()
    } else {
        let prev = events_of(pdus.drop_last(), room);
        if pdus.last().0@ == room {
            prev.push(pdus.last().1)
        } else {
            prev
        }
    }
}

/// The grouping of a transaction's PDUs: one group per room that has any,
/// holding that room's events in the order they came.
pub open spec fn grouped<E>(pdus: Seq<(String, E)>, groups: Seq<(String, Vec<E>)>) -> bool {
    &&& forall|i: int, j: int| 0 <= i < j < groups.len() ==> groups[i].0@ != groups[j].0@
    &&& forall|i: int|
        0 <= i < groups.len() ==> (#[trigger] groups[i]).1@ == events_of(pdus, groups[i].0@)
    &&& forall|k: int| 0 <= k < pdus.len() ==> has_group(groups, (#[trigger] pdus[k]).0@)
}

/// Some group is keyed by the room.
pub open spec fn has_group<V>(groups: Seq<(String, V)>, room: Seq<char>) -> bool {
    exists|i: int| 0 <= i < groups.len() && #[trigger] groups[i].0@ == room
}

/// What a transaction learned of one of its PDUs: the room id read from it
/// (an error where it has none that is valid), whether this server is in
/// that room, and the event id the PDU got when it was parsed for its room's
/// version (`None` where parsing failed).
pub struct TxnPdu {
    pub room: Result<String, Error>,
    pub room_known: bool,
    pub event_id: Option<String>,
}

/// The PDUs a transaction goes on to handle, as (event id, room id): those
/// with a readable room id, of a room this server is in, that parsed, in
/// order. Any other PDU is passed over; a transaction as a whole is refused
/// only by its origin and size checks (`federation::transaction_checks`).
pub open spec fn txn_pdus_spec(p: Seq<TxnPdu>) -> Seq<(Seq<char>, Seq<char>)>
    decreases p.len(),
{
    if p.len() == 0 {
        Seq::empty()
    } else {
        let prev = txn_pdus_spec(p.drop_last());
        match p.last().room {
            Ok(r) => if p.last().room_known && p.last().event_id is Some {
                prev.push((p.last().event_id.unwrap()@, r@))
            } else {
                prev
            },
            Err(_) => prev,
        }
    }
}

/// Picks the PDUs of a transaction that are handled.
pub fn transaction_pdus(pdus: &Vec<TxnPdu>) -> (v: Vec<(String, String)>)
    ensures
        v@.map_values(|x: (String, String)| (x.0@, x.1@)) == txn_pdus_spec(pdus@),
{
    let mut out: Vec<(String, String)> = Vec::new();
    let mut i: usize = 0;
    while i < pdus.len()
        invariant
            i <= pdus@.len(),
            out@.map_values(|x: (String, String)| (x.0@, x.1@)) == txn_pdus_spec(
                pdus@.take(i as int),
            ),
        decreases pdus.len() - i,
    {
        assert(pdus@.take(i + 1).drop_last() =~= pdus@.take(i as int));
        assert(pdus@.take(i + 1).last() == pdus@[i as int]);
        let p = &pdus[i];
        match &p.room {
            Err(_) => {},
            Ok(room) => {
                if p.room_known {
                    match &p.event_id {
                        Some(id) => {
                            let ghost before = out@;
                            out.push((id.clone(), room.clone()));
                            assert(out@.map_values(|x: (String, String)| (x.0@, x.1@))
                                =~= before.map_values(|x: (String, String)| (x.0@, x.1@)).push(
                                (id@, room@),
                            ));
                        },
                        None => {},
                    }
                }
            },
        }
        i = i + 1;
    }
    assert(pdus@.take(pdus@.len() as int) =~= pdus@);
    out
}

/// The result map of a transaction: for each handled PDU's event id, the
/// outcome of handling it, each event id once and the last outcome under an
/// event id winning, as inserting into a map does.
pub fn transaction_results(results: Vec<(String, Result<(), Error>)>) -> (m: Vec<
    (String, Result<(), Error>),
>)
    ensures
        keys_unique(m@),
        forall|id: Seq<char>| #[trigger] lookup(m@, id) == lookup(results@, id),
{
    let mut m: Vec<(String, Result<(), Error>)> = Vec::new();
    let ghost r = results@;
    extend_entries(&mut m, results);
    assert(Seq::<(String, Result<(), Error>)>::empty() + r =~= r);
    m
}

/// The PDUs of one room, whole, in the order they came.
pub open spec fn pdus_of<E>(pdus: Seq<(String, E)>, room: Seq<char>) -> Seq<(String, E)>
    decreases pdus.len(),
{
    if pdus.len() == 0 {
        Seq::empty()
    } else {
        let prev = pdus_of(pdus.drop_last(), room);
        if pdus.last().0@ == room {
            prev.push(pdus.last())
        } else {
            prev
        }
    }
}

/// A grouping of whole PDUs: one group per room that has any, keyed by the
/// room, holding that room's PDUs in the order they came.
pub open spec fn grouped_whole<E>(pdus: Seq<(String, E)>, groups: Seq<(String, Vec<(String, E)>)>) -> bool {
    &&& forall|i: int, j: int| 0 <= i < j < groups.len() ==> groups[i].0@ != groups[j].0@
    &&& forall|i: int|
        0 <= i < groups.len() ==> (#[trigger] groups[i]).1@ == pdus_of(pdus, groups[i].0@)
    &&& forall|k: int| 0 <= k < pdus.len() ==> has_group(groups, (#[trigger] pdus[k]).0@)
}

/// Groups the PDUs with `itertools`' `into_grouping_map_by`, keyed by a
/// clone of each PDU's room, collected into a `HashMap` of vectors and then
/// into a vector of its entries. The contract claims that each room that
/// occurs has one group with its PDUs in the order they came (each group's
/// vector is extended in iteration order); the order of the groups is the
/// map's walk order and is not stated.
#[verifier::external_body]
fn grouping_map<E>(pdus: Vec<(String, E)>) -> (groups: Vec<(String, Vec<(String, E)>)>)
    ensures
        grouped_whole(pdus@, groups@),
{
    let map: std::collections::HashMap<String, Vec<(String, E)>> =
        itertools::Itertools::into_grouping_map_by(pdus.into_iter(), |p: &(String, E)| p.0.clone())
            .collect();
    map.into_iter().collect()
}

/// The events of a room's PDUs are the PDUs' second parts.
proof fn lemma_events_of_pdus_of<E>(pdus: Seq<(String, E)>, room: Seq<char>)
    ensures
        pdus_of(pdus, room).map_values(|p: (String, E)| p.1) =~= events_of(pdus, room),
    decreases pdus.len(),
{
    if pdus.len() > 0 {
        lemma_events_of_pdus_of(pdus.drop_last(), room);
        let prev = pdus_of(pdus.drop_last(), room);
        if pdus.last().0@ == room {
            assert(prev.push(pdus.last()).map_values(|p: (String, E)| p.1) =~= prev.map_values(
                |p: (String, E)| p.1,
            ).push(pdus.last().1));
        }
    }
}

/// Takes the events out of a group's PDUs, in order.
fn group_events<E>(whole: Vec<(String, E)>) -> (out: Vec<E>)
    ensures
        out@ == whole@.map_values(|p: (String, E)| p.1),
{
    let ghost all = whole@;
    let mut rest = whole;
    let mut rev: Vec<E> = Vec::new();
    while rest.len() > 0
        invariant
            rest@.len() + rev@.len() == all.len(),
            rest@ == all.take(rest@.len() as int),
            forall|j: int| 0 <= j < rev@.len() ==> rev@[j] == all[all.len() - 1 - j].1,
        decreases rest@.len(),
    {
        let ghost n = rest@.len();
        let (_, e) = rest.pop().unwrap();
        assert(all.take(n as int)[n - 1] == all[n - 1]);
        rev.push(e);
        assert(rest@ =~= all.take(rest@.len() as int));
    }
    let mut out: Vec<E> = Vec::new();
    while rev.len() > 0
        invariant
            out@.len() + rev@.len() == all.len(),
            forall|j: int| 0 <= j < rev@.len() ==> rev@[j] == all[all.len() - 1 - j].1,
            forall|j: int| 0 <= j < out@.len() ==> out@[j] == all[j].1,
        decreases rev@.len(),
    {
        let e = rev.pop().unwrap();
        out.push(e);
    }
    assert(out@ =~= all.map_values(|p: (String, E)| p.1));
    out
}

/// Groups a transaction's PDUs by room; the order of the rooms is not
/// fixed.
pub fn group_by_room<E>(pdus: Vec<(String, E)>) -> (groups: Vec<(String, Vec<E>)>)
    ensures
        grouped(pdus@, groups@),
{
    let ghost all = pdus@;
    let mut whole = grouping_map(pdus);
    let ghost g = whole@;
    let ghost n = g.len();
    let mut out: Vec<(String, Vec<E>)> = Vec::new();
    while whole.len() > 0
        invariant
            grouped_whole(all, g),
            n == g.len(),
            whole@.len() + out@.len() == n,
            whole@ == g.take(whole@.len() as int),
            forall|j: int|
                0 <= j < out@.len() ==> (#[trigger] out@[j]).0@ == g[n - 1 - j].0@ && out@[j].1@
                    == events_of(all, g[n - 1 - j].0@),
        decreases whole@.len(),
    {
        let ghost m = whole@.len();
        let (room, group) = whole.pop().unwrap();
        assert(g.take(m as int)[m - 1] == g[m - 1]);
        assert(group@ == pdus_of(all, g[m - 1].0@));
        let evs = group_events(group);
        proof {
            lemma_events_of_pdus_of(all, room@);
        }
        out.push((room, evs));
        assert(whole@ =~= g.take(whole@.len() as int));
    }
    assert forall|a: int, b: int| 0 <= a < b < out@.len() implies out@[a].0@ != out@[b].0@ by {
        assert(out@[a].0@ == g[n - 1 - a].0@);
        assert(out@[b].0@ == g[n - 1 - b].0@);
    }
    assert forall|k: int| 0 <= k < all.len() implies has_group(out@, (#[trigger] all[k]).0@) by {
        let i = choose|i: int| 0 <= i < g.len() && #[trigger] g[i].0@ == all[k].0@;
        assert(out@[n - 1 - i].0@ == g[i].0@);
    }
    assert forall|i: int| 0 <= i < out@.len() implies (#[trigger] out@[i]).1@ == events_of(
        all,
        out@[i].0@,
    ) by {
        assert(out@[i].0@ == g[n - 1 - i].0@);
    }
    out
}

} // verus!
