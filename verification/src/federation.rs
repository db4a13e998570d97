//! Checks that federation endpoints make before they act on a request from
//! another server: membership templates (`make_join`, `make_knock`,
//! `make_leave`), submitted membership events (`send_join`, `send_leave`),
//! invites, restricted joins, and the limits of backfill and transactions.
use vstd::prelude::*;
use vstd::string::*;
use crate::error::{Error, ErrorKind};
use crate::room_version::{
    RoomVersion, supports_knock, supports_knock_spec, supports_restricted,
    supports_restricted_spec,
};
use crate::text::str_eq;

verus! {

/// The outcome of a check, taken as a plain value.
pub open spec fn err_kind(r: Result<(), Error>) -> Option<(ErrorKind, Seq<char>)> {
    match r {
        Ok(_) => None,
        Err(e) => Some((e.kind, e.message@)),
    }
}

// ---------------------------------------------------------------------------
// Membership templates
// ---------------------------------------------------------------------------

/// What the template endpoints know about a request before they build the
/// event: whether the room exists, the server of the user the template is
/// for, the requesting server, the outcome of the room's server ACL check for
/// it, and whether the requesting server or the room's server is on the
/// forbidden list.
#[derive(Debug)]
pub struct TemplateRequest {
    pub room_exists: bool,
    pub user_server: String,
    pub origin: String,
    pub acl: Result<(), Error>,
    pub origin_forbidden: bool,
    pub room_server_forbidden: bool,
}

/// The checks of `make_join` before the join rules: the room must exist,
/// the user must belong to the requesting server, the server must pass the
/// room's ACL, and neither it nor the room's server may be forbidden.
pub open spec fn make_join_checks_spec(f: TemplateRequest) -> Option<(ErrorKind, Seq<char>)> {
    if !f.room_exists {
        Some((ErrorKind::NotFound, "Room is unknown to this server."@))
    } else if f.user_server@ != f.origin@ {
        Some((ErrorKind::InvalidParam, "Not allowed to join on behalf of another server/user"@))
    } else if f.acl is Err {
        err_kind(f.acl)
    } else if f.origin_forbidden || f.room_server_forbidden {
        Some((ErrorKind::Forbidden, "Server is banned on this homeserver."@))
    } else {
        None
    }
}

/// The checks of `make_join` before the join rules.
pub fn make_join_checks(f: &TemplateRequest) -> (r: Result<(), Error>)
    ensures
        err_kind(r) == make_join_checks_spec(*f),
{
    if !f.room_exists {
        return Err(Error::new(ErrorKind::NotFound, "Room is unknown to this server."));
    }
    if !str_eq(f.user_server.as_str(), f.origin.as_str()) {
        return Err(
            Error::new(ErrorKind::InvalidParam, "Not allowed to join on behalf of another server/user"),
        );
    }
    if let Err(e) = f.acl {
        return Err(e);
    }
    if f.origin_forbidden || f.room_server_forbidden {
        return Err(Error::new(ErrorKind::Forbidden, "Server is banned on this homeserver."));
    }
    Ok(())
}

/// The checks of `make_knock`: as for a join (the user's server mismatch is
/// `BadJson` here), then the room's version must support knocking and be one
/// the requesting server offers.
pub open spec fn make_knock_checks_spec(
    f: TemplateRequest,
    version: RoomVersion,
    offered: Seq<RoomVersion>,
) -> Option<(ErrorKind, Seq<char>)> {
    if !f.room_exists {
        Some((ErrorKind::NotFound, "Room is unknown to this server."@))
    } else if f.user_server@ != f.origin@ {
        Some((ErrorKind::BadJson, "Not allowed to knock on behalf of another server/user."@))
    } else if f.acl is Err {
        err_kind(f.acl)
    } else if f.origin_forbidden || f.room_server_forbidden {
        Some((ErrorKind::Forbidden, "Server is banned on this homeserver."@))
    } else if !supports_knock_spec(version) {
        Some((ErrorKind::IncompatibleRoomVersion, "Room version does not support knocking."@))
    } else if !offered.contains(version) {
        Some((ErrorKind::IncompatibleRoomVersion, "Your homeserver does not support the features required to knock on this room."@))
    } else {
        None
    }
}

/// Whether the requesting server offers the room's version.
pub fn offers_version(offered: &Vec<RoomVersion>, version: RoomVersion) -> (b: bool)
    ensures
        b == offered@.contains(version),
{
    let mut i: usize = 0;
    while i < offered.len()
        invariant
            i <= offered@.len(),
            forall|j: int| 0 <= j < i ==> offered@[j] != version,
        decreases offered.len() - i,
    {
        if offered[i] == version {
            assert(offered@[i as int] == version);
            return true;
        }
        i = i + 1;
    }
    false
}

/// The checks of `make_knock`.
pub fn make_knock_checks(f: &TemplateRequest, version: RoomVersion, offered: &Vec<RoomVersion>) -> (r:
    Result<(), Error>)
    ensures
        err_kind(r) == make_knock_checks_spec(*f, version, offered@),
{
    if !f.room_exists {
        return Err(Error::new(ErrorKind::NotFound, "Room is unknown to this server."));
    }
    if !str_eq(f.user_server.as_str(), f.origin.as_str()) {
        return Err(
            Error::new(ErrorKind::BadJson, "Not allowed to knock on behalf of another server/user."),
        );
    }
    if let Err(e) = f.acl {
        return Err(e);
    }
    if f.origin_forbidden || f.room_server_forbidden {
        return Err(Error::new(ErrorKind::Forbidden, "Server is banned on this homeserver."));
    }
    if !supports_knock(version) {
        return Err(
            Error::new(ErrorKind::IncompatibleRoomVersion, "Room version does not support knocking."),
        );
    }
    if !offers_version(offered, version) {
        return Err(
            Error::new(
                ErrorKind::IncompatibleRoomVersion,
                "Your homeserver does not support the features required to knock on this room.",
            ),
        );
    }
    Ok(())
}

/// The checks of `make_leave`: the room must exist, the user must belong to
/// the requesting server (else `Forbidden`) and the server must pass the ACL.
pub open spec fn make_leave_checks_spec(f: TemplateRequest) -> Option<(ErrorKind, Seq<char>)> {
    if !f.room_exists {
        Some((ErrorKind::NotFound, "Room is unknown to this server."@))
    } else if f.user_server@ != f.origin@ {
        Some((ErrorKind::Forbidden, "Not allowed to leave on behalf of another server/user."@))
    } else {
        err_kind(f.acl)
    }
}

/// The checks of `make_leave`.
pub fn make_leave_checks(f: &TemplateRequest) -> (r: Result<(), Error>)
    ensures
        err_kind(r) == make_leave_checks_spec(*f),
{
    if !f.room_exists {
        return Err(Error::new(ErrorKind::NotFound, "Room is unknown to this server."));
    }
    if !str_eq(f.user_server.as_str(), f.origin.as_str()) {
        return Err(
            Error::new(ErrorKind::Forbidden, "Not allowed to leave on behalf of another server/user."),
        );
    }
    f.acl
}

/// A knock is refused to a user the room has banned.
pub fn knock_membership_check(banned: bool) -> (r: Result<(), Error>)
    ensures
        r is Err <==> banned,
        r matches Err(e) ==> e.kind == ErrorKind::Forbidden && e.message@ == "You cannot knock on a room you are banned from."@,
{
    if banned {
        Err(Error::new(ErrorKind::Forbidden, "You cannot knock on a room you are banned from."))
    } else {
        Ok(())
    }
}

/// The room's version must be one the requesting server offers.
pub fn check_version_offered(offered: &Vec<RoomVersion>, version: RoomVersion) -> (r: Result<
    (),
    Error,
>)
    ensures
        r is Ok <==> offered@.contains(version),
        r matches Err(e) ==> e.kind == ErrorKind::IncompatibleRoomVersion && e.message@ == "Room version not supported."@,
{
    if offers_version(offered, version) {
        Ok(())
    } else {
        Err(Error::new(ErrorKind::IncompatibleRoomVersion, "Room version not supported."))
    }
}

/// A membership event as the template endpoints hand it out: its type,
/// sender and state key, and its content.
#[derive(Debug)]
pub struct MemberTemplate {
    pub event_type: String,
    pub sender: String,
    pub state_key: String,
    pub membership: Membership,
    pub displayname: Option<String>,
    pub avatar_url: Option<String>,
    pub is_direct: Option<bool>,
    pub reason: Option<String>,
    pub join_authorised_via_users_server: Option<String>,
}

/// The join event template for a user: an `m.room.member` event sent by the
/// user about the user, whose content is the membership `join` and nothing
/// else but the authorising user of a restricted join, where there is one.
pub fn join_template(user_id: &str, authorised_via: Option<String>) -> (t: MemberTemplate)
    ensures
        t.event_type@ == "m.room.member"@,
        t.sender@ == user_id@,
        t.state_key@ == user_id@,
        t.membership == Membership::Join,
        t.displayname is None,
        t.avatar_url is None,
        t.is_direct is None,
        t.reason is None,
        t.join_authorised_via_users_server == authorised_via,
{
    MemberTemplate {
        event_type: String::from_str("m.room.member"),
        sender: user_id.to_string(),
        state_key: user_id.to_string(),
        membership: Membership::Join,
        displayname: None,
        avatar_url: None,
        is_direct: None,
        reason: None,
        join_authorised_via_users_server: authorised_via,
    }
}

// ---------------------------------------------------------------------------
// Restricted joins
// ---------------------------------------------------------------------------

/// The join rule of a room, as far as restricted joins are concerned.
#[derive(Debug, Clone, Copy, PartialEq, Eq, Structural)]
pub enum JoinRuleKind {
    Restricted,
    KnockRestricted,
    Other,
}

/// Whether a user may join through a restricted join rule: not without a
/// readable join rule, in a version without restricted rooms or under a
/// rule that is not restricted; otherwise when the user is joined to one of
/// the rooms the rule allows, and a refusal (`UnableToAuthorizeJoin`) when
/// the user is joined to none. `allowed_joined` holds, for each room the rule
/// allows, whether the user is joined to it.
pub open spec fn restricted_join_spec(
    version: RoomVersion,
    rule: Option<JoinRuleKind>,
    allowed_joined: Seq<bool>,
) -> Result<bool, (ErrorKind, Seq<char>)> {
    match rule {
        None => Ok(false),
        Some(k) => if !supports_restricted_spec(version) {
            Ok(false)
        } else if k == JoinRuleKind::Other {
            Ok(false)
        } else if allowed_joined.contains(true) {
            Ok(true)
        } else {
            Err((ErrorKind::UnableToAuthorizeJoin, "User is not known to be in any required room."@))
        },
    }
}

/// Whether a user may join through the room's restricted join rule.
pub fn user_can_perform_restricted_join(
    version: RoomVersion,
    rule: Option<JoinRuleKind>,
    allowed_joined: &Vec<bool>,
) -> (r: Result<bool, Error>)
    ensures
        match restricted_join_spec(version, rule, allowed_joined@) {
            Ok(b) => r == Ok::<bool, Error>(b),
            Err((k, m)) => r matches Err(e) && e.kind == k && e.message@ == m,
        },
{
    let k = match rule {
        None => {
            return Ok(false);
        },
        Some(k) => k,
    };
    if !supports_restricted(version) {
        return Ok(false);
    }
    if k == JoinRuleKind::Other {
        return Ok(false);
    }
    let mut i: usize = 0;
    while i < allowed_joined.len()
        invariant
            i <= allowed_joined@.len(),
            rule == Some(k),
            supports_restricted_spec(version),
            k != JoinRuleKind::Other,
            forall|j: int| 0 <= j < i ==> !allowed_joined@[j],
        decreases allowed_joined.len() - i,
    {
        if allowed_joined[i] {
            assert(allowed_joined@[i as int]);
            return Ok(true);
        }
        i = i + 1;
    }
    Err(Error::new(ErrorKind::UnableToAuthorizeJoin, "User is not known to be in any required room."))
}

/// Who authorises a restricted join in the template: when the user has left
/// the room and may join through its restricted rule, the first local member
/// who can invite the user (a refusal `UnableToGrantJoin` when there is
/// none); otherwise nobody. A refusal of the restricted rule is passed on.
pub fn join_authorized_via(
    user_has_left: bool,
    restricted: Result<bool, Error>,
    local_inviter: Option<String>,
) -> (r: Result<Option<String>, Error>)
    ensures
        !user_has_left ==> r matches Ok(None),
        user_has_left ==> match restricted {
            Err(e) => r == Err::<Option<String>, Error>(e),
            Ok(false) => r matches Ok(None),
            Ok(true) => match local_inviter {
                Some(u) => r == Ok::<Option<String>, Error>(Some(u)),
                None => r matches Err(e) && e.kind == ErrorKind::UnableToGrantJoin && e.message@ == "No user on this server is able to assist in joining."@,
            },
        },
{
    if !user_has_left {
        return Ok(None);
    }
    match restricted {
        Err(e) => Err(e),
        Ok(false) => Ok(None),
        Ok(true) => match local_inviter {
            Some(u) => Ok(Some(u)),
            None => Err(
                Error::new(
                    ErrorKind::UnableToGrantJoin,
                    "No user on this server is able to assist in joining.",
                ),
            ),
        },
    }
}

// ---------------------------------------------------------------------------
// Submitted membership events
// ---------------------------------------------------------------------------

/// The membership a member event sets.
#[derive(Debug, Clone, Copy, PartialEq, Eq, Structural)]
pub enum Membership {
    Join,
    Leave,
    Invite,
    Ban,
    Knock,
    Other,
}

/// The fields of a submitted membership event that the endpoint reads,
/// `None` where the field is missing or not valid.
#[derive(Debug, Clone)]
pub struct MemberEventFields {
    pub room_id: Option<String>,
    pub is_member_event: Option<bool>,
    pub membership: Option<Membership>,
    pub sender: Option<String>,
    pub sender_server: Option<String>,
    pub state_key: Option<String>,
    pub authorising_user: Option<String>,
}

/// The checks of `send_join` on the submitted event, in order: the room id,
/// the event type, the membership, the sender (its server must pass the ACL,
/// `sender_acl`, and be the requesting server), the state key (the sender).
pub open spec fn send_join_event_spec(
    f: MemberEventFields,
    room_id: Seq<char>,
    origin: Seq<char>,
    sender_acl: Result<(), Error>,
) -> Option<(ErrorKind, Seq<char>)> {
    if f.room_id is None {
        Some((ErrorKind::BadJson, "Event missing room_id property."@))
    } else if f.room_id.unwrap()@ != room_id {
        Some((ErrorKind::BadJson, "Event room_id does not match request path room ID."@))
    } else if f.is_member_event != Some(true) {
        Some((ErrorKind::BadJson, "Not allowed to send non-membership state event to join endpoint."@))
    } else if f.membership != Some(Membership::Join) {
        Some((ErrorKind::BadJson, "Not allowed to send a non-join membership event to join endpoint."@))
    } else if f.sender is None || f.sender_server is None {
        Some((ErrorKind::BadJson, "Event missing sender property."@))
    } else if sender_acl is Err {
        err_kind(sender_acl)
    } else if f.sender_server.unwrap()@ != origin {
        Some((ErrorKind::Forbidden, "Not allowed to join on behalf of another server."@))
    } else if f.state_key is None {
        Some((ErrorKind::BadJson, "Event missing state_key property."@))
    } else if f.state_key.unwrap()@ != f.sender.unwrap()@ {
        Some((ErrorKind::BadJson, "State key does not match sender user."@))
    } else {
        None
    }
}

/// Checks the submitted join event.
pub fn send_join_event_checks(
    f: &MemberEventFields,
    room_id: &str,
    origin: &str,
    sender_acl: Result<(), Error>,
) -> (r: Result<(), Error>)
    ensures
        err_kind(r) == send_join_event_spec(*f, room_id@, origin@, sender_acl),
{
    match &f.room_id {
        None => {
            return Err(Error::new(ErrorKind::BadJson, "Event missing room_id property."));
        },
        Some(rid) => {
            if !str_eq(rid.as_str(), room_id) {
                return Err(
                    Error::new(ErrorKind::BadJson, "Event room_id does not match request path room ID."),
                );
            }
        },
    }
    if f.is_member_event != Some(true) {
        return Err(
            Error::new(ErrorKind::BadJson, "Not allowed to send non-membership state event to join endpoint."),
        );
    }
    if f.membership != Some(Membership::Join) {
        return Err(
            Error::new(ErrorKind::BadJson, "Not allowed to send a non-join membership event to join endpoint."),
        );
    }
    let (sender, sender_server) = match (&f.sender, &f.sender_server) {
        (Some(s), Some(ss)) => (s, ss),
        _ => {
            return Err(Error::new(ErrorKind::BadJson, "Event missing sender property."));
        },
    };
    if let Err(e) = sender_acl {
        return Err(e);
    }
    if !str_eq(sender_server.as_str(), origin) {
        return Err(Error::new(ErrorKind::Forbidden, "Not allowed to join on behalf of another server."));
    }
    match &f.state_key {
        None => Err(Error::new(ErrorKind::BadJson, "Event missing state_key property.")),
        Some(sk) => {
            if !str_eq(sk.as_str(), sender.as_str()) {
                Err(Error::new(ErrorKind::BadJson, "State key does not match sender user."))
            } else {
                Ok(())
            }
        },
    }
}

/// The checks of a join authorised through a local user
/// (`join_authorised_via_users_server`): the room version must have
/// restricted rooms, the user must be local and joined, and the joining user
/// must pass the restricted rule (`restricted`, whose refusal is passed on).
pub open spec fn authorised_join_spec(
    version: RoomVersion,
    authoriser_local: bool,
    authoriser_joined: bool,
    restricted: Result<bool, Error>,
) -> Option<(ErrorKind, Seq<char>)> {
    if !supports_restricted_spec(version) {
        Some((ErrorKind::InvalidParam, "Room version does not support restricted rooms."@))
    } else if !authoriser_local {
        Some((ErrorKind::InvalidParam, "Cannot authorise membership event through a remote user."@))
    } else if !authoriser_joined {
        Some((ErrorKind::InvalidParam, "Authorising user is not in the room you are trying to join."@))
    } else {
        match restricted {
            Err(e) => Some((e.kind, e.message@)),
            Ok(true) => None,
            Ok(false) => Some((ErrorKind::UnableToAuthorizeJoin, "Joining user did not pass restricted room's rules."@)),
        }
    }
}

/// Checks a join that names an authorising local user.
pub fn authorised_join_checks(
    version: RoomVersion,
    authoriser_local: bool,
    authoriser_joined: bool,
    restricted: Result<bool, Error>,
) -> (r: Result<(), Error>)
    ensures
        err_kind(r) == authorised_join_spec(version, authoriser_local, authoriser_joined, restricted),
{
    if !supports_restricted(version) {
        return Err(
            Error::new(ErrorKind::InvalidParam, "Room version does not support restricted rooms."),
        );
    }
    if !authoriser_local {
        return Err(
            Error::new(ErrorKind::InvalidParam, "Cannot authorise membership event through a remote user."),
        );
    }
    if !authoriser_joined {
        return Err(
            Error::new(ErrorKind::InvalidParam, "Authorising user is not in the room you are trying to join."),
        );
    }
    match restricted {
        Err(e) => Err(e),
        Ok(true) => Ok(()),
        Ok(false) => Err(
            Error::new(ErrorKind::UnableToAuthorizeJoin, "Joining user did not pass restricted room's rules."),
        ),
    }
}

/// The checks of `send_leave` on the submitted event, in order: the content
/// (membership `leave`), the event type, the sender (its server must pass
/// the ACL and be the requesting server), the state key (the sender).
pub open spec fn send_leave_event_spec(
    f: MemberEventFields,
    origin: Seq<char>,
    sender_acl: Result<(), Error>,
) -> Option<(ErrorKind, Seq<char>)> {
    if f.membership is None {
        Some((ErrorKind::InvalidParam, "Event content is empty or invalid"@))
    } else if f.membership != Some(Membership::Leave) {
        Some((ErrorKind::InvalidParam, "Not allowed to send a non-leave membership event to leave endpoint."@))
    } else if f.is_member_event is None {
        Some((ErrorKind::BadJson, "Event does not have a valid state event type."@))
    } else if f.is_member_event != Some(true) {
        Some((ErrorKind::InvalidParam, "Not allowed to send non-membership state event to leave endpoint."@))
    } else if f.sender is None || f.sender_server is None {
        Some((ErrorKind::BadJson, "User ID in sender is invalid."@))
    } else if sender_acl is Err {
        err_kind(sender_acl)
    } else if f.sender_server.unwrap()@ != origin {
        Some((ErrorKind::InvalidParam, "Not allowed to leave on behalf of another server."@))
    } else if f.state_key is None {
        Some((ErrorKind::BadJson, "state_key is invalid or not a user ID"@))
    } else if f.state_key.unwrap()@ != f.sender.unwrap()@ {
        Some((ErrorKind::InvalidParam, "state_key does not match sender user."@))
    } else {
        None
    }
}

/// Checks the submitted leave event.
pub fn send_leave_event_checks(f: &MemberEventFields, origin: &str, sender_acl: Result<(), Error>) -> (r:
    Result<(), Error>)
    ensures
        err_kind(r) == send_leave_event_spec(*f, origin@, sender_acl),
{
    match f.membership {
        None => {
            return Err(Error::new(ErrorKind::InvalidParam, "Event content is empty or invalid"));
        },
        Some(m) => {
            if m != Membership::Leave {
                return Err(
                    Error::new(
                        ErrorKind::InvalidParam,
                        "Not allowed to send a non-leave membership event to leave endpoint.",
                    ),
                );
            }
        },
    }
    match f.is_member_event {
        None => {
            return Err(
                Error::new(ErrorKind::BadJson, "Event does not have a valid state event type."),
            );
        },
        Some(b) => {
            if !b {
                return Err(
                    Error::new(
                        ErrorKind::InvalidParam,
                        "Not allowed to send non-membership state event to leave endpoint.",
                    ),
                );
            }
        },
    }
    let (sender, sender_server) = match (&f.sender, &f.sender_server) {
        (Some(s), Some(ss)) => (s, ss),
        _ => {
            return Err(Error::new(ErrorKind::BadJson, "User ID in sender is invalid."));
        },
    };
    if let Err(e) = sender_acl {
        return Err(e);
    }
    if !str_eq(sender_server.as_str(), origin) {
        return Err(
            Error::new(ErrorKind::InvalidParam, "Not allowed to leave on behalf of another server."),
        );
    }
    match &f.state_key {
        None => Err(Error::new(ErrorKind::BadJson, "state_key is invalid or not a user ID")),
        Some(sk) => {
            if !str_eq(sk.as_str(), sender.as_str()) {
                Err(Error::new(ErrorKind::InvalidParam, "state_key does not match sender user."))
            } else {
                Ok(())
            }
        },
    }
}

/// The servers that a room's submitted leave is sent on to: those of the
/// room other than this one, in order.
pub open spec fn remote_servers(servers: Seq<String>, ours: Seq<char>) -> Seq<String>
    decreases servers.len(),
{
    if servers.len() == 0 {
        servers
    } else if servers.last()@ == ours {
        remote_servers(servers.drop_last(), ours)
    } else {
        remote_servers(servers.drop_last(), ours).push(servers.last())
    }
}

/// Keeps the servers other than this one.
pub fn without_our_server(servers: Vec<String>, ours: &str) -> (out: Vec<String>)
    ensures
        out@ == remote_servers(servers@, ours@),
{
    let ghost orig = servers@;
    let mut rest = servers;
    let mut out: Vec<String> = Vec::new();
    let mut i: usize = 0;
    let n0 = rest.len();
    while rest.len() > 0
        invariant
            orig.len() == i + rest@.len(),
            orig.len() == n0,
            rest@ == orig.skip(i as int),
            out@ == remote_servers(orig.take(i as int), ours@),
        decreases rest.len(),
    {
        let s = rest.remove(0);
        assert(s == orig[i as int]);
        assert(orig.take(i + 1).drop_last() =~= orig.take(i as int));
        assert(orig.take(i + 1).last() == s);
        if !str_eq(s.as_str(), ours) {
            out.push(s);
        }
        i = i + 1;
        assert(rest@ =~= orig.skip(i as int));
    }
    assert(orig.take(i as int) =~= orig);
    out
}

// ---------------------------------------------------------------------------
// Invites
// ---------------------------------------------------------------------------

/// What `create_invite` knows before it signs the event.
#[derive(Debug)]
pub struct InviteRequest {
    pub origin_acl: Result<(), Error>,
    pub version_supported: bool,
    pub room_server_forbidden: bool,
    pub origin_forbidden: bool,
    pub invitee_server_is_ours: Option<bool>,
    pub invitee_server_acl: Result<(), Error>,
}

/// The checks of `create_invite` before signing, in order: the requesting
/// server's ACL, the room version, the room's server and the requesting
/// server against the forbidden list, the invited user (a valid user id of
/// this server) and this server's ACL in the room.
pub open spec fn invite_checks_spec(f: InviteRequest) -> Option<(ErrorKind, Seq<char>)> {
    if f.origin_acl is Err {
        err_kind(f.origin_acl)
    } else if !f.version_supported {
        Some((ErrorKind::IncompatibleRoomVersion, "Server does not support this room version."@))
    } else if f.room_server_forbidden || f.origin_forbidden {
        Some((ErrorKind::Forbidden, "Server is banned on this homeserver."@))
    } else if f.invitee_server_is_ours is None {
        Some((ErrorKind::InvalidParam, "Invalid state_key property."@))
    } else if f.invitee_server_is_ours == Some(false) {
        Some((ErrorKind::InvalidParam, "User does not belong to this homeserver."@))
    } else {
        err_kind(f.invitee_server_acl)
    }
}

/// The checks of `create_invite` before signing.
pub fn invite_checks(f: &InviteRequest) -> (r: Result<(), Error>)
    ensures
        err_kind(r) == invite_checks_spec(*f),
{
    if let Err(e) = f.origin_acl {
        return Err(e);
    }
    if !f.version_supported {
        return Err(
            Error::new(ErrorKind::IncompatibleRoomVersion, "Server does not support this room version."),
        );
    }
    if f.room_server_forbidden || f.origin_forbidden {
        return Err(Error::new(ErrorKind::Forbidden, "Server is banned on this homeserver."));
    }
    match f.invitee_server_is_ours {
        None => {
            return Err(Error::new(ErrorKind::InvalidParam, "Invalid state_key property."));
        },
        Some(false) => {
            return Err(
                Error::new(ErrorKind::InvalidParam, "User does not belong to this homeserver."),
            );
        },
        Some(true) => {},
    }
    f.invitee_server_acl
}

/// The checks of `create_invite` after signing: a room this server has
/// banned, or a server that blocks invites, takes invites only for admins.
pub open spec fn invite_policy_spec(
    room_banned: bool,
    block_non_admin_invites: bool,
    invitee_is_admin: bool,
) -> Option<(ErrorKind, Seq<char>)> {
    if room_banned && !invitee_is_admin {
        Some((ErrorKind::Forbidden, "This room is banned on this homeserver."@))
    } else if block_non_admin_invites && !invitee_is_admin {
        Some((ErrorKind::Forbidden, "This server does not allow room invites."@))
    } else {
        None
    }
}

/// The checks of `create_invite` after signing.
pub fn invite_policy_checks(
    room_banned: bool,
    block_non_admin_invites: bool,
    invitee_is_admin: bool,
) -> (r: Result<(), Error>)
    ensures
        err_kind(r) == invite_policy_spec(room_banned, block_non_admin_invites, invitee_is_admin),
{
    if room_banned && !invitee_is_admin {
        return Err(Error::new(ErrorKind::Forbidden, "This room is banned on this homeserver."));
    }
    if block_non_admin_invites && !invitee_is_admin {
        return Err(Error::new(ErrorKind::Forbidden, "This server does not allow room invites."));
    }
    Ok(())
}

// ---------------------------------------------------------------------------
// Limits
// ---------------------------------------------------------------------------

/// The number of events a backfill returns: the requested limit, at most
/// 100.
pub fn backfill_limit(limit: u64) -> (n: u64)
    ensures
        n == if limit <= 100 { limit } else { 100 },
{
    if limit <= 100 {
        limit
    } else {
        100
    }
}

/// The largest of the known counts, if any is known.
pub open spec fn max_known(counts: Seq<Option<u64>>) -> Option<u64>
    decreases counts.len(),
{
    if counts.len() == 0 {
        None
    } else {
        let prev = max_known(counts.drop_last());
        match counts.last() {
            None => prev,
            Some(c) => match prev {
                Some(p) if p >= c => Some(p),
                _ => Some(c),
            },
        }
    }
}

/// Where a backfill starts: the latest of the events `v` names that this
/// server knows, given each one's count in the timeline (`None` for an
/// unknown event); refused (`InvalidParam`) when it knows none of them.
pub fn backfill_until(counts: &Vec<Option<u64>>) -> (r: Result<u64, Error>)
    ensures
        match max_known(counts@) {
            Some(m) => r == Ok::<u64, Error>(m),
            None => r matches Err(e) && e.kind == ErrorKind::InvalidParam && e.message@
                == "No known eventid in v"@,
        },
{
    let mut best: Option<u64> = None;
    let mut i: usize = 0;
    while i < counts.len()
        invariant
            i <= counts.len(),
            best == max_known(counts@.take(i as int)),
        decreases counts.len() - i,
    {
        assert(counts@.take(i + 1).drop_last() =~= counts@.take(i as int));
        match counts[i] {
            None => {},
            Some(c) => {
                best = match best {
                    Some(p) => if p >= c {
                        Some(p)
                    } else {
                        Some(c)
                    },
                    None => Some(c),
                };
            },
        }
        i = i + 1;
    }
    assert(counts@.take(counts.len() as int) =~= counts@);
    match best {
        Some(m) => Ok(m),
        None => Err(Error::new(ErrorKind::InvalidParam, "No known eventid in v")),
    }
}

/// The most transaction PDUs a request may carry.
pub open spec fn pdu_limit() -> usize {
    50
}

/// The most transaction EDUs a request may carry.
pub open spec fn edu_limit() -> usize {
    100
}

/// A transaction is refused when it claims another origin than the server
/// that sent it, or carries more than 50 PDUs or 100 EDUs.
pub open spec fn transaction_checks_spec(
    origin: Seq<char>,
    body_origin: Seq<char>,
    pdus: usize,
    edus: usize,
) -> Option<(ErrorKind, Seq<char>)> {
    if origin != body_origin {
        Some((ErrorKind::Forbidden, "Not allowed to send transactions on behalf of other servers"@))
    } else if pdus > pdu_limit() {
        Some((ErrorKind::Forbidden, "Not allowed to send more than 50 PDUs in one transaction"@))
    } else if edus > edu_limit() {
        Some((ErrorKind::Forbidden, "Not allowed to send more than 100 EDUs in one transaction"@))
    } else {
        None
    }
}

/// Checks a transaction before its contents are handled.
pub fn transaction_checks(origin: &str, body_origin: &str, pdus: usize, edus: usize) -> (r: Result<
    (),
    Error,
>)
    ensures
        err_kind(r) == transaction_checks_spec(origin@, body_origin@, pdus, edus),
{
    if !str_eq(origin, body_origin) {
        return Err(
            Error::new(ErrorKind::Forbidden, "Not allowed to send transactions on behalf of other servers"),
        );
    }
    if pdus > 50 {
        return Err(
            Error::new(ErrorKind::Forbidden, "Not allowed to send more than 50 PDUs in one transaction"),
        );
    }
    if edus > 100 {
        return Err(
            Error::new(ErrorKind::Forbidden, "Not allowed to send more than 100 EDUs in one transaction"),
        );
    }
    Ok(())
}

/// The moment a remote typing notice runs out: now plus the configured
/// timeout in seconds, both in milliseconds, saturating at the largest value.
pub open spec fn typing_deadline(now_ms: u64, timeout_s: u64) -> int {
    if now_ms + timeout_s * 1000 > u64::MAX {
        u64::MAX as int
    } else {
        now_ms + timeout_s * 1000
    }
}

/// Works out when a remote typing notice runs out.
pub fn typing_timeout(now_ms: u64, timeout_s: u64) -> (t: u64)
    ensures
        t == typing_deadline(now_ms, timeout_s),
{
    let ms: u64 = if timeout_s > u64::MAX / 1000 {
        u64::MAX
    } else {
        timeout_s * 1000
    };
    if ms > u64::MAX - now_ms {
        u64::MAX
    } else {
        now_ms + ms
    }
}

// ---------------------------------------------------------------------------
// EDUs
// ---------------------------------------------------------------------------

/// The kinds of ephemeral data units.
#[derive(Debug, Clone, Copy, PartialEq, Eq, Structural)]
pub enum EduKind {
    Presence,
    Receipt,
    Typing,
    DeviceListUpdate,
    DirectToDevice,
    SigningKeyUpdate,
    Custom,
}

/// What to do with an EDU.
#[derive(Debug, Clone, Copy, PartialEq, Eq, Structural)]
pub enum EduAction {
    Handle(EduKind),
    Skip,
}

/// Presence, receipts and typing are handled only when the configuration
/// lets them in; device list, to-device and signing key updates always;
/// anything else is skipped.
pub open spec fn edu_action_spec(
    kind: EduKind,
    allow_presence: bool,
    allow_receipts: bool,
    allow_typing: bool,
) -> EduAction {
    match kind {
        EduKind::Presence => if allow_presence {
            EduAction::Handle(kind)
        } else {
            EduAction::Skip
        },
        EduKind::Receipt => if allow_receipts {
            EduAction::Handle(kind)
        } else {
            EduAction::Skip
        },
        EduKind::Typing => if allow_typing {
            EduAction::Handle(kind)
        } else {
            EduAction::Skip
        },
        EduKind::Custom => EduAction::Skip,
        _ => EduAction::Handle(kind),
    }
}

/// Device list updates, to-device messages and signing key updates are
/// always handled, whatever the configuration; presence, receipts and
/// typing are handled exactly when their own flag allows them; EDUs of other
/// kinds are skipped.
pub proof fn lemma_edu_handling(kind: EduKind, allow_presence: bool, allow_receipts: bool, allow_typing: bool)
    ensures
        ({
            let a = edu_action_spec(kind, allow_presence, allow_receipts, allow_typing);
            &&& (kind == EduKind::DeviceListUpdate || kind == EduKind::DirectToDevice || kind
                == EduKind::SigningKeyUpdate) ==> a == EduAction::Handle(kind)
            &&& kind == EduKind::Presence ==> (a == EduAction::Handle(kind) <==> allow_presence)
            &&& kind == EduKind::Receipt ==> (a == EduAction::Handle(kind) <==> allow_receipts)
            &&& kind == EduKind::Typing ==> (a == EduAction::Handle(kind) <==> allow_typing)
            &&& a is Skip || a == EduAction::Handle(kind)
            &&& kind == EduKind::Custom ==> a is Skip
        }),
{
}

/// Decides what to do with an EDU.
pub fn handle_edu(kind: EduKind, allow_presence: bool, allow_receipts: bool, allow_typing: bool) -> (a:
    EduAction)
    ensures
        a == edu_action_spec(kind, allow_presence, allow_receipts, allow_typing),
        (kind == EduKind::DeviceListUpdate || kind == EduKind::DirectToDevice || kind
            == EduKind::SigningKeyUpdate) ==> a == EduAction::Handle(kind),
        kind == EduKind::Presence ==> (a == EduAction::Handle(kind) <==> allow_presence),
        kind == EduKind::Receipt ==> (a == EduAction::Handle(kind) <==> allow_receipts),
        kind == EduKind::Typing ==> (a == EduAction::Handle(kind) <==> allow_typing),
        a is Skip || a == EduAction::Handle(kind),
        kind == EduKind::Custom ==> a is Skip,
{
    match kind {
        EduKind::Presence => if allow_presence {
            EduAction::Handle(kind)
        } else {
            EduAction::Skip
        },
        EduKind::Receipt => if allow_receipts {
            EduAction::Handle(kind)
        } else {
            EduAction::Skip
        },
        EduKind::Typing => if allow_typing {
            EduAction::Handle(kind)
        } else {
            EduAction::Skip
        },
        EduKind::Custom => EduAction::Skip,
        _ => EduAction::Handle(kind),
    }
}

/// An EDU about a user is taken only from the user's own server.
pub fn user_belongs_to_origin(user_server: &str, origin: &str) -> (b: bool)
    ensures
        b == (user_server@ == origin@),
{
    str_eq(user_server, origin)
}

/// What a typing EDU does: nothing unless the user belongs to the sending
/// server, passes the room's ACL and is joined; then it starts the user's
/// typing until the given moment, or stops it.
#[derive(Debug, Clone, Copy, PartialEq, Eq, Structural)]
pub enum TypingAction {
    Ignore,
    /// Typing until this moment, in milliseconds.
    Add(u64),
    Remove,
}

/// Decides what a typing EDU does; a notice that starts typing runs out the
/// configured timeout (in seconds) after `now_ms`, saturating.
pub fn handle_edu_typing(
    user_of_origin: bool,
    acl_ok: bool,
    joined: bool,
    typing: bool,
    now_ms: u64,
    timeout_s: u64,
) -> (a: TypingAction)
    ensures
        !(user_of_origin && acl_ok && joined) ==> a == TypingAction::Ignore,
        user_of_origin && acl_ok && joined && typing ==> (a matches TypingAction::Add(t) && t
            == typing_deadline(now_ms, timeout_s)),
        user_of_origin && acl_ok && joined && !typing ==> a == TypingAction::Remove,
{
    if !user_of_origin || !acl_ok || !joined {
        TypingAction::Ignore
    } else if typing {
        TypingAction::Add(typing_timeout(now_ms, timeout_s))
    } else {
        TypingAction::Remove
    }
}

/// A read receipt EDU is taken for a user of the sending server that passes
/// the room's ACL and has a member in the room.
pub fn accept_receipt(acl_ok: bool, user_of_origin: bool, origin_in_room: bool) -> (b: bool)
    ensures
        b == (acl_ok && user_of_origin && origin_in_room),
{
    acl_ok && user_of_origin && origin_in_room
}

/// Of the events a receipt names, the one latest in the timeline: the last
/// position holding the greatest known count (`None` for events not known
/// here); `None` when no event is known.
pub open spec fn latest_known_spec(counts: Seq<Option<u64>>, r: Option<usize>) -> bool {
    match r {
        None => forall|i: int| 0 <= i < counts.len() ==> counts[i] is None,
        Some(k) => {
            &&& k < counts.len()
            &&& counts[k as int] is Some
            &&& forall|i: int|
                0 <= i < counts.len() && counts[i] is Some ==> counts[i].unwrap() <= counts[
                    k as int
                ].unwrap()
            &&& forall|i: int|
                k < i < counts.len() && counts[i] is Some ==> counts[i].unwrap() < counts[
                    k as int
                ].unwrap()
        },
    }
}

/// Picks the latest known event of a read receipt.
pub fn latest_known_event(counts: &Vec<Option<u64>>) -> (r: Option<usize>)
    ensures
        latest_known_spec(counts@, r),
{
    let mut best: Option<usize> = None;
    let mut i: usize = 0;
    while i < counts.len()
        invariant
            i <= counts@.len(),
            latest_known_spec(counts@.take(i as int), best),
        decreases counts.len() - i,
    {
        let ghost prev = counts@.take(i as int);
        assert(counts@.take(i + 1) =~= prev.push(counts@[i as int]));
        match counts[i] {
            None => {},
            Some(c) => {
                let replace = match best {
                    None => true,
                    Some(b) => match counts[b] {
                        Some(cb) => c >= cb,
                        None => true,
                    },
                };
                if replace {
                    best = Some(i);
                }
            },
        }
        i = i + 1;
    }
    assert(counts@.take(i as int) =~= counts@);
    best
}

// ---------------------------------------------------------------------------
// Reading a room over federation
// ---------------------------------------------------------------------------

/// A server reading a room's events or state must be in the room
/// (`Forbidden`) and pass its ACL (the outcome `acl`).
pub fn room_read_access(in_room: bool, acl: Result<(), Error>) -> (r: Result<(), Error>)
    ensures
        !in_room ==> (r matches Err(e) && e.kind == ErrorKind::Forbidden && e.message@ == "Server is not in room."@),
        in_room ==> r == acl,
{
    if !in_room {
        return Err(Error::new(ErrorKind::Forbidden, "Server is not in room."));
    }
    acl
}

/// A server reading one event must be in the event's room and allowed to
/// see the event (`Forbidden` otherwise).
pub fn event_read_access(in_room: bool, can_see: bool) -> (r: Result<(), Error>)
    ensures
        r is Ok <==> in_room && can_see,
        r matches Err(e) ==> e.kind == ErrorKind::Forbidden && e.message@ == (if !in_room {
            "Server is not in room"@
        } else {
            "Server is not allowed to see event."@
        }),
{
    if !in_room {
        return Err(Error::new(ErrorKind::Forbidden, "Server is not in room"));
    }
    if !can_see {
        return Err(Error::new(ErrorKind::Forbidden, "Server is not allowed to see event."));
    }
    Ok(())
}

/// The state a state query reads is that at the event; an event without
/// known state is not found (`NotFound`).
pub fn state_at_event(state: Option<u64>) -> (r: Result<u64, Error>)
    ensures
        match state {
            Some(s) => r == Ok::<u64, Error>(s),
            None => (r matches Err(e) && e.kind == ErrorKind::NotFound && e.message@ == "Pdu state not found."@),
        },
{
    match state {
        Some(s) => Ok(s),
        None => Err(Error::new(ErrorKind::NotFound, "Pdu state not found.")),
    }
}

/// The hierarchy of a room this server does not know is not found
/// (`NotFound`).
pub fn hierarchy_room(exists: bool) -> (r: Result<(), Error>)
    ensures
        r is Ok <==> exists,
        r matches Err(e) ==> e.kind == ErrorKind::NotFound && e.message@ == "Room does not exist."@,
{
    if exists {
        Ok(())
    } else {
        Err(Error::new(ErrorKind::NotFound, "Room does not exist."))
    }
}

/// The device list another server asks for must be of a local user
/// (`InvalidParam`).
pub fn devices_of_local_user(user_server: &str, our_server: &str) -> (r: Result<(), Error>)
    ensures
        r is Ok <==> user_server@ == our_server@,
        r matches Err(e) ==> e.kind == ErrorKind::InvalidParam && e.message@ == "Tried to access user from other server."@,
{
    if str_eq(user_server, our_server) {
        Ok(())
    } else {
        Err(Error::new(ErrorKind::InvalidParam, "Tried to access user from other server."))
    }
}

/// The display name another server sees for a device: the device's own
/// when the server shares them, otherwise the device id.
pub fn federated_device_name(share_names: bool, device_id: String, display_name: Option<String>) -> (n:
    Option<String>)
    ensures
        share_names ==> n == display_name,
        !share_names ==> n == Some(device_id),
{
    if share_names {
        display_name
    } else {
        Some(device_id)
    }
}

/// The version of a user's device list: 0 when it never changed.
pub fn device_list_stream_id(version: Option<u64>) -> (n: u64)
    ensures
        n == match version {
            Some(v) => v,
            None => 0,
        },
{
    match version {
        Some(v) => v,
        None => 0,
    }
}

/// The federation endpoints that only describe the server are refused
/// when federation is off (`BadConfig`).
pub fn federation_enabled(allowed: bool) -> (r: Result<(), Error>)
    ensures
        r is Ok <==> allowed,
        r matches Err(e) ==> e.kind == ErrorKind::BadConfig && e.message@ == "Federation is disabled."@,
{
    if allowed {
        Ok(())
    } else {
        Err(Error::new(ErrorKind::BadConfig, "Federation is disabled."))
    }
}

/// The `m.server` delegation of `/.well-known/matrix/server`: refused when
/// federation is off (`BadConfig`), not found when none is configured
/// (`NotFound`).
pub fn well_known_server_route(allowed: bool, configured: Option<String>) -> (r: Result<String, Error>)
    ensures
        !allowed ==> (r matches Err(e) && e.kind == ErrorKind::BadConfig && e.message@
            == "Federation is disabled."@),
        allowed ==> match configured {
            Some(c) => r == Ok::<String, Error>(c),
            None => (r matches Err(e) && e.kind == ErrorKind::NotFound && e.message@ == "Not found."@),
        },
{
    if let Err(e) = federation_enabled(allowed) {
        return Err(e);
    }
    match configured {
        Some(c) => Ok(c),
        None => Err(Error::new(ErrorKind::NotFound, "Not found.")),
    }
}

/// The id of this server's signing key: `ed25519:` and the key's version.
pub fn server_key_id(version: &str) -> (s: String)
    ensures
        s@ == "ed25519:"@ + version@,
{
    let mut s = String::from_str("ed25519:");
    s.append(version);
    s
}

/// The latest moment a Matrix timestamp can name, in milliseconds: the
/// largest integer that JSON carries exactly (2^53 - 1).
pub open spec fn max_timestamp_ms() -> int {
    9007199254740991
}

/// The moment until which the published keys are valid. Published keys
/// cannot be invalidated, so they never expire: the latest moment a
/// timestamp can name.
pub fn keys_valid_until() -> (t: u64)
    ensures
        t == max_timestamp_ms(),
{
    9007199254740991
}

/// The to-device messages already handled: for each, its sender and
/// message id.
#[derive(Debug)]
pub struct ToDeviceLog {
    pub seen: Vec<(String, String)>,
}

/// Whether a sender's message id is in the log.
pub open spec fn log_has(seen: Seq<(String, String)>, sender: Seq<char>, message_id: Seq<char>) -> bool {
    exists|i: int| 0 <= i < seen.len() && #[trigger] seen[i].0@ == sender && seen[i].1@ == message_id
}

impl ToDeviceLog {
    /// Takes a direct-to-device EDU: it is handled when its sender belongs
    /// to the sending server and the log does not hold its message id yet,
    /// and the log then records it; otherwise it is dropped and the log
    /// stays as it was.
    pub fn deliver(&mut self, sender: &str, sender_server: &str, origin: &str, message_id: &str) -> (b:
        bool)
        ensures
            b == (sender_server@ == origin@ && !log_has(old(self).seen@, sender@, message_id@)),
            b ==> final(self).seen@.len() == old(self).seen@.len() + 1 && final(self).seen@.drop_last()
                == old(self).seen@ && final(self).seen@.last().0@ == sender@
                && final(self).seen@.last().1@ == message_id@,
            !b ==> final(self).seen@ == old(self).seen@,
    {
        let mut seen_before = false;
        let mut i: usize = 0;
        while i < self.seen.len()
            invariant
                i <= self.seen@.len(),
                seen_before <==> exists|j: int|
                    0 <= j < i && #[trigger] self.seen@[j].0@ == sender@ && self.seen@[j].1@
                        == message_id@,
            decreases self.seen.len() - i,
        {
            if str_eq(self.seen[i].0.as_str(), sender) && str_eq(self.seen[i].1.as_str(), message_id) {
                seen_before = true;
            }
            i = i + 1;
        }
        let b = accept_direct_to_device(sender_server, origin, seen_before);
        if b {
            let ghost before = self.seen@;
            self.seen.push((sender.to_string(), message_id.to_string()));
            assert(self.seen@.drop_last() =~= before);
        }
        b
    }
}

/// A to-device message delivered twice is handled at most once: after a
/// delivery was taken, the same sender's same message id is dropped.
pub proof fn lemma_to_device_once(
    before: Seq<(String, String)>,
    after: Seq<(String, String)>,
    sender: Seq<char>,
    message_id: Seq<char>,
)
    requires
        after.len() == before.len() + 1,
        after.last().0@ == sender,
        after.last().1@ == message_id,
    ensures
        log_has(after, sender, message_id),
{
    assert(after[after.len() - 1].0@ == sender);
}

/// A direct-to-device EDU is taken when its sender belongs to the sending
/// server and its message id was not seen before.
pub fn accept_direct_to_device(sender_server: &str, origin: &str, seen_before: bool) -> (b: bool)
    ensures
        b == (sender_server@ == origin@ && !seen_before),
{
    str_eq(sender_server, origin) && !seen_before
}

} // verus!
