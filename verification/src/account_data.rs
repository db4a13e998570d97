//! Per-room account data: a room's tags, and the presence shown for a
//! user.
use vstd::prelude::*;
use vstd::string::*;
use crate::membership::{lookup, object_insert};
use crate::room_version::{remove_key, without_key};

verus! {

/// Tags a room: the tag's entry becomes `info`, replacing any earlier one.
pub fn update_tag<V>(tags: &mut Vec<(String, V)>, tag: String, info: V)
    ensures
        final(tags)@ == without_key(old(tags)@, tag@).push((tag, info)),
        lookup(final(tags)@, tag@) == Some(info),
        forall|k: Seq<char>| k != tag@ ==> lookup(final(tags)@, k) == lookup(old(tags)@, k),
{
    object_insert(tags, tag, info);
}

/// Untags a room: the tag's entry goes, the others stay.
pub fn delete_tag<V>(tags: &mut Vec<(String, V)>, tag: &str)
    ensures
        final(tags)@ == without_key(old(tags)@, tag@),
        lookup(final(tags)@, tag@) is None,
        forall|k: Seq<char>| k != tag@ ==> lookup(final(tags)@, k) == lookup(old(tags)@, k),
{
    let ghost before = tags@;
    remove_key(tags, tag);
    proof {
        assert forall|k: Seq<char>| k != tag@ implies lookup(tags@, k) == lookup(before, k) by {
            crate::membership::lemma_lookup_without_key(before, tag@, k);
        }
        if before.len() >= 0 {
            lemma_lookup_removed(before, tag@);
        }
    }
}

proof fn lemma_lookup_removed<V>(obj: Seq<(String, V)>, key: Seq<char>)
    ensures
        lookup(without_key(obj, key), key) is None,
    decreases obj.len(),
{
    if obj.len() > 0 {
        lemma_lookup_removed(obj.drop_last(), key);
        if obj.last().0@ != key {
            let w = without_key(obj.drop_last(), key).push(obj.last());
            assert(w.drop_last() =~= without_key(obj.drop_last(), key));
        }
    }
}

/// The last of the presence events found in the rooms shared with the
/// user (`None` when there is none).
pub open spec fn last_found<P>(found: Seq<Option<P>>) -> Option<P>
    decreases found.len(),
{
    if found.len() == 0 {
        None
    } else if found.last() is Some {
        found.last()
    } else {
        last_found(found.drop_last())
    }
}

/// Picks the presence shown for a user: that of the last shared room that
/// has one.
pub fn shown_presence<P>(found: Vec<Option<P>>) -> (p: Option<P>)
    ensures
        p == last_found(found@),
{
    let ghost all = found@;
    let mut rest = found;
    assert(all.take(all.len() as int) =~= all);
    while rest.len() > 0
        invariant
            rest@.len() <= all.len(),
            all == found@,
            rest@ == all.take(rest@.len() as int),
            last_found(all) == last_found(rest@),
        decreases rest@.len(),
    {
        let ghost before = rest@;
        let x = rest.pop().unwrap();
        assert(before.drop_last() =~= rest@);
        assert(x == before.last());
        assert(all.take(before.len() as int).drop_last() =~= all.take(rest@.len() as int));
        if x.is_some() {
            assert(before.len() > 0 && before.last() is Some);
            assert(last_found(before) == x);
            assert(last_found(all) == x);
            return x;
        }
    }
    None
}

} // verus!
