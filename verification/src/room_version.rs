//! Room versions and the event-format rules that depend on them.
use vstd::prelude::*;
use vstd::string::*;
use crate::text::str_eq;

verus! {

/// A room version; `Custom` stands for any version this server does not
/// know.
#[derive(Debug, Clone, Copy, PartialEq, Eq, Structural)]
pub enum RoomVersion {
    V1,
    V2,
    V3,
    V4,
    V5,
    V6,
    V7,
    V8,
    V9,
    V10,
    V11,
    Custom,
}

/// Versions 1 and 2 carry the event id inside the event; later versions
/// derive it from the event's hash.
pub open spec fn keeps_event_id_spec(v: RoomVersion) -> bool {
    v == RoomVersion::V1 || v == RoomVersion::V2
}

/// Versions 1 to 7 have no restricted join rules.
pub open spec fn supports_restricted_spec(v: RoomVersion) -> bool {
    !(v == RoomVersion::V1 || v == RoomVersion::V2 || v == RoomVersion::V3 || v == RoomVersion::V4
        || v == RoomVersion::V5 || v == RoomVersion::V6 || v == RoomVersion::V7)
}

/// Versions 1 to 6 have no knocking.
pub open spec fn supports_knock_spec(v: RoomVersion) -> bool {
    !(v == RoomVersion::V1 || v == RoomVersion::V2 || v == RoomVersion::V3 || v == RoomVersion::V4
        || v == RoomVersion::V5 || v == RoomVersion::V6)
}

/// Whether events of this version carry their event id.
pub fn keeps_event_id(v: RoomVersion) -> (b: bool)
    ensures
        b == keeps_event_id_spec(v),
{
    matches!(v, RoomVersion::V1 | RoomVersion::V2)
}

/// Whether this version has restricted join rules.
pub fn supports_restricted(v: RoomVersion) -> (b: bool)
    ensures
        b == supports_restricted_spec(v),
{
    !matches!(
        v,
        RoomVersion::V1 | RoomVersion::V2 | RoomVersion::V3 | RoomVersion::V4 | RoomVersion::V5
            | RoomVersion::V6 | RoomVersion::V7
    )
}

/// Whether this version has knocking.
pub fn supports_knock(v: RoomVersion) -> (b: bool)
    ensures
        b == supports_knock_spec(v),
{
    !matches!(
        v,
        RoomVersion::V1 | RoomVersion::V2 | RoomVersion::V3 | RoomVersion::V4 | RoomVersion::V5
            | RoomVersion::V6
    )
}

/// The entries of a JSON object other than those under `key`, in order.
pub open spec fn without_key<V>(obj: Seq<(String, V)>, key: Seq<char>) -> Seq<(String, V)>
    decreases obj.len(),
{
    if obj.len() == 0 {
        obj
    } else if obj.last().0@ == key {
        without_key(obj.drop_last(), key)
    } else {
        without_key(obj.drop_last(), key).push(obj.last())
    }
}

/// Removes the entries under `key` from a JSON object held as its entries.
pub fn remove_key<V>(obj: &mut Vec<(String, V)>, key: &str)
    ensures
        final(obj)@ == without_key(old(obj)@, key@),
{
    let mut rest: Vec<(String, V)> = Vec::new();
    std::mem::swap(&mut rest, obj);
    let ghost orig = rest@;
    let mut i: usize = 0;
    let n0 = rest.len();
    while rest.len() > 0
        invariant
            orig.len() == i + rest@.len(),
            orig.len() == n0,
            rest@ == orig.skip(i as int),
            obj@ == without_key(orig.take(i as int), key@),
        decreases rest.len(),
    {
        let entry = rest.remove(0);
        assert(entry == orig[i as int]);
        assert(orig.take(i + 1).drop_last() =~= orig.take(i as int));
        assert(orig.take(i + 1).last() == entry);
        if !str_eq(entry.0.as_str(), key) {
            obj.push(entry);
        }
        i = i + 1;
        assert(rest@ =~= orig.skip(i as int));
    }
    assert(orig.take(i as int) =~= orig);
}

/// Room versions 3 and later dropped the `event_id` field from the event
/// format sent to other servers: remove it unless the room is of version 1
/// or 2.
pub fn maybe_strip_event_id<V>(pdu_json: &mut Vec<(String, V)>, room_version: RoomVersion)
    ensures
        keeps_event_id_spec(room_version) ==> final(pdu_json)@ == old(pdu_json)@,
        !keeps_event_id_spec(room_version) ==> final(pdu_json)@ == without_key(
            old(pdu_json)@,
            "event_id"@,
        ),
{
    if !keeps_event_id(room_version) {
        remove_key(pdu_json, "event_id");
    }
}

} // verus!
