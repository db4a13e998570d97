//! Reading a PDU that another server sent as raw JSON text: its room id, and
//! the fields of a membership event that the join endpoint checks.
use vstd::prelude::*;
use vstd::string::*;
use crate::account::{parse_user_id, parsed_user_id};
use crate::error::{Error, ErrorKind};
use crate::federation::{MemberEventFields, Membership};
use crate::text::{seq_starts_with, str_eq, str_starts_with};

verus! {

/// What `serde_json` makes of a PDU's text read as a `ruma`
/// `CanonicalJsonObject`, asked for the member `key`: `None` where the text
/// is not such an object, `Some(None)` where the member is missing or not a
/// string, else the string.
pub uninterp spec fn pdu_string_member(pdu: Seq<char>, key: Seq<char>) -> Option<Option<Seq<char>>>;

/// The same for the member `key` of the PDU's `content` object: `Some(None)`
/// also where `content` is missing or not an object.
pub uninterp spec fn pdu_content_member(pdu: Seq<char>, key: Seq<char>) -> Option<
    Option<Seq<char>>,
>;

/// Whether `ruma`'s `RoomId::parse` accepts a text as a room id.
pub uninterp spec fn valid_room_id(id: Seq<char>) -> bool;

/// The plain value of an optional text.
pub open spec fn opt_string(o: Option<String>) -> Option<Seq<char>> {
    match o {
        Some(s) => Some(s@),
        None => None,
    }
}

/// The plain value of a looked-up member.
pub open spec fn member_view(o: Option<Option<String>>) -> Option<Option<Seq<char>>> {
    match o {
        None => None,
        Some(m) => Some(opt_string(m)),
    }
}

/// Parses the text with `serde_json::from_str` into a `CanonicalJsonObject`
/// and reads the member with `CanonicalJsonValue::as_str`. The contract
/// claims only that the outcome is `pdu_string_member` of the two texts.
#[verifier::external_body]
fn string_member(pdu: &str, key: &str) -> (r: Option<Option<String>>)
    ensures
        member_view(r) == pdu_string_member(pdu@, key@),
{
    let v: ruma::CanonicalJsonObject = serde_json::from_str(pdu).ok()?;
    Some(v.get(key).and_then(ruma::CanonicalJsonValue::as_str).map(str::to_owned))
}

/// Parses the text as `string_member` does, picks the `content` member
/// where it is an object (telling `CanonicalJsonValue`'s variants apart),
/// and reads the member `key` of it with `CanonicalJsonValue::as_str`. The
/// contract claims only that the outcome is `pdu_content_member` of the two
/// texts.
#[verifier::external_body]
fn content_member(pdu: &str, key: &str) -> (r: Option<Option<String>>)
    ensures
        member_view(r) == pdu_content_member(pdu@, key@),
{
    let v: ruma::CanonicalJsonObject = serde_json::from_str(pdu).ok()?;
    match v.get("content") {
        Some(ruma::CanonicalJsonValue::Object(c)) => Some(
            c.get(key).and_then(ruma::CanonicalJsonValue::as_str).map(str::to_owned),
        ),
        _ => Some(None),
    }
}

/// Calls `ruma`'s `RoomId::parse`; the contract claims only that the answer
/// is `valid_room_id` of the text.
#[verifier::external_body]
fn is_room_id(id: &str) -> (b: bool)
    ensures
        b == valid_room_id(id@),
{
    ruma::RoomId::parse(id).is_ok()
}

/// The room id of an incoming PDU: a PDU that is no JSON object is a bad
/// answer of the sending server (`BadServerResponse`); one without a valid
/// room id is refused (`InvalidParam`).
pub fn pdu_room_id(pdu: &str) -> (r: Result<String, Error>)
    ensures
        match pdu_string_member(pdu@, "room_id"@) {
            None => r matches Err(e) && e.kind == ErrorKind::BadServerResponse && e.message@
                == "Invalid PDU in server response"@,
            Some(Some(id)) if valid_room_id(id) => r matches Ok(s) && s@ == id,
            Some(_) => r matches Err(e) && e.kind == ErrorKind::InvalidParam && e.message@
                == "Invalid room id in pdu"@,
        },
{
    match string_member(pdu, "room_id") {
        None => Err(Error::new(ErrorKind::BadServerResponse, "Invalid PDU in server response")),
        Some(Some(id)) => {
            if is_room_id(id.as_str()) {
                Ok(id)
            } else {
                Err(Error::new(ErrorKind::InvalidParam, "Invalid room id in pdu"))
            }
        },
        Some(None) => Err(Error::new(ErrorKind::InvalidParam, "Invalid room id in pdu")),
    }
}

/// The membership a `membership` text names.
pub open spec fn membership_of(m: Seq<char>) -> Membership {
    if m == "join"@ {
        Membership::Join
    } else if m == "leave"@ {
        Membership::Leave
    } else if m == "invite"@ {
        Membership::Invite
    } else if m == "ban"@ {
        Membership::Ban
    } else if m == "knock"@ {
        Membership::Knock
    } else {
        Membership::Other
    }
}

fn membership_from(m: &str) -> (r: Membership)
    ensures
        r == membership_of(m@),
{
    if str_eq(m, "join") {
        Membership::Join
    } else if str_eq(m, "leave") {
        Membership::Leave
    } else if str_eq(m, "invite") {
        Membership::Invite
    } else if str_eq(m, "ban") {
        Membership::Ban
    } else if str_eq(m, "knock") {
        Membership::Knock
    } else {
        Membership::Other
    }
}

/// The sender of a membership event, where it is a full user id (it starts
/// with `@` and parses): its text and its server.
pub open spec fn sender_parts(m: Option<Option<Seq<char>>>, origin: Seq<char>) -> Option<
    (Seq<char>, Seq<char>),
> {
    match m {
        Some(Some(s)) => if seq_starts_with(s, "@"@) {
            match parsed_user_id(s, origin) {
                Some((full, _, server)) => Some((full, server)),
                None => None,
            }
        } else {
            None
        },
        _ => None,
    }
}

/// The fields read from a membership event PDU, as `MemberEventFields`
/// holds them: the room id where it is valid, whether the type is
/// `m.room.member`, the membership of the content, the sender where it is a
/// full user id (checked against the requesting server's name), the state
/// key and the content's `join_authorised_via_users_server`.
pub open spec fn member_fields_match(f: MemberEventFields, pdu: Seq<char>, origin: Seq<char>) -> bool {
    &&& opt_string(f.room_id) == match pdu_string_member(pdu, "room_id"@) {
        Some(Some(id)) => if valid_room_id(id) {
            Some(id)
        } else {
            None
        },
        _ => None,
    }
    &&& f.is_member_event == match pdu_string_member(pdu, "type"@) {
        Some(Some(t)) => Some(t == "m.room.member"@),
        _ => None,
    }
    &&& f.membership == match pdu_content_member(pdu, "membership"@) {
        Some(Some(m)) => Some(membership_of(m)),
        _ => None,
    }
    &&& match sender_parts(pdu_string_member(pdu, "sender"@), origin) {
        Some((full, server)) => opt_string(f.sender) == Some(full) && opt_string(f.sender_server)
            == Some(server),
        None => f.sender is None && f.sender_server is None,
    }
    &&& opt_string(f.state_key) == match pdu_string_member(pdu, "state_key"@) {
        Some(Some(k)) => Some(k),
        _ => None,
    }
    &&& opt_string(f.authorising_user) == match pdu_content_member(
        pdu,
        "join_authorised_via_users_server"@,
    ) {
        Some(Some(u)) => Some(u),
        _ => None,
    }
}

fn present(m: Option<Option<String>>) -> (r: Option<String>)
    ensures
        opt_string(r) == match member_view(m) {
            Some(Some(s)) => Some(s),
            _ => None,
        },
{
    match m {
        Some(Some(s)) => Some(s),
        _ => None,
    }
}

/// Reads the fields of a membership event PDU: a text that is no JSON
/// object is refused (`BadJson`).
pub fn member_event_fields(pdu: &str, origin: &str) -> (r: Result<MemberEventFields, Error>)
    ensures
        pdu_string_member(pdu@, "room_id"@) is None ==> (r matches Err(e) && e.kind
            == ErrorKind::BadJson && e.message@ == "Could not convert event to canonical json."@),
        pdu_string_member(pdu@, "room_id"@) is Some ==> (r matches Ok(f) && member_fields_match(
            f,
            pdu@,
            origin@,
        )),
{
    let room = match string_member(pdu, "room_id") {
        None => {
            return Err(
                Error::new(ErrorKind::BadJson, "Could not convert event to canonical json."),
            );
        },
        Some(Some(id)) => {
            if is_room_id(id.as_str()) {
                Some(id)
            } else {
                None
            }
        },
        Some(None) => None,
    };
    let is_member_event = match string_member(pdu, "type") {
        Some(Some(t)) => Some(str_eq(t.as_str(), "m.room.member")),
        _ => None,
    };
    let membership = match content_member(pdu, "membership") {
        Some(Some(m)) => Some(membership_from(m.as_str())),
        _ => None,
    };
    let (sender, sender_server) = match string_member(pdu, "sender") {
        Some(Some(s)) => {
            if str_starts_with(s.as_str(), "@") {
                match parse_user_id(s.as_str(), origin) {
                    Some(p) => (Some(p.full), Some(p.server)),
                    None => (None, None),
                }
            } else {
                (None, None)
            }
        },
        _ => (None, None),
    };
    let state_key = present(string_member(pdu, "state_key"));
    let authorising_user = present(content_member(pdu, "join_authorised_via_users_server"));
    Ok(
        MemberEventFields {
            room_id: room,
            is_member_event,
            membership,
            sender,
            sender_server,
            state_key,
            authorising_user,
        },
    )
}

} // verus!
