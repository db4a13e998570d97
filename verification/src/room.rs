//! Creating and upgrading rooms: the alias a new room gets, the rules its
//! preset implies, who starts with full power, which initial state is kept,
//! and what an upgrade copies and how it locks the old room.
use vstd::prelude::*;
use vstd::string::*;
use crate::error::{Error, ErrorKind};
use crate::room_version::RoomVersion;
use crate::text::{str_eq, vec_has, seq_has};

verus! {

// ---------------------------------------------------------------------------
// Room aliases
// ---------------------------------------------------------------------------

/// The text of a local alias: `#`, the localpart, `:`, the server name.
pub open spec fn alias_text_spec(localpart: Seq<char>, server: Seq<char>) -> Seq<char> {
    seq!['#'] + localpart + seq![':'] + server
}

/// Whether `ruma` accepts a text as a room alias (`RoomAliasId::try_from`).
pub uninterp spec fn valid_room_alias(alias: Seq<char>) -> bool;

/// Calls `ruma`'s `<&RoomAliasId>::try_from`; the contract claims only that
/// the answer is `valid_room_alias` of the text.
#[verifier::external_body]
fn is_room_alias(alias: &str) -> (b: bool)
    ensures
        b == valid_room_alias(alias@),
{
    <&ruma::RoomAliasId>::try_from(alias).is_ok()
}

/// Builds the text of a local alias.
pub fn alias_text(localpart: &str, server: &str) -> (s: String)
    ensures
        s@ == alias_text_spec(localpart@, server@),
{
    let mut s = String::from_str("#");
    proof {
        reveal_strlit("#");
        reveal_strlit(":");
    }
    s.append(localpart);
    s.append(":");
    s.append(server);
    s
}

/// The alias a new room asks for: none without a localpart; otherwise the
/// local alias, which must be valid (`InvalidParam`).
pub open spec fn requested_alias_spec(localpart: Option<Seq<char>>, server: Seq<char>) -> Result<
    Option<Seq<char>>,
    ErrorKind,
> {
    match localpart {
        None => Ok(None),
        Some(l) => if valid_room_alias(alias_text_spec(l, server)) {
            Ok(Some(alias_text_spec(l, server)))
        } else {
            Err(ErrorKind::InvalidParam)
        },
    }
}

/// Reads the alias a new room asks for.
pub fn requested_alias(localpart: Option<&str>, server: &str) -> (r: Result<Option<String>, Error>)
    ensures
        requested_alias_spec(
            match localpart {
                Some(l) => Some(l@),
                None => None,
            },
            server@,
        ) == match r {
            Ok(Some(a)) => Ok(Some(a@)),
            Ok(None) => Ok(None),
            Err(e) => Err::<Option<Seq<char>>, ErrorKind>(e.kind),
        },
        r matches Err(e) ==> e.message@ == "Invalid alias."@,
{
    match localpart {
        None => Ok(None),
        Some(l) => {
            let a = alias_text(l, server);
            if is_room_alias(a.as_str()) {
                Ok(Some(a))
            } else {
                Err(Error::new(ErrorKind::InvalidParam, "Invalid alias."))
            }
        },
    }
}

/// An alias already pointing at a room is refused (`RoomInUse`).
pub fn alias_free(taken: bool) -> (r: Result<(), Error>)
    ensures
        r is Ok <==> !taken,
        r matches Err(e) ==> e.kind == ErrorKind::RoomInUse && e.message@
            == "Room alias already exists."@,
{
    if taken {
        Err(Error::new(ErrorKind::RoomInUse, "Room alias already exists."))
    } else {
        Ok(())
    }
}

// ---------------------------------------------------------------------------
// Presets
// ---------------------------------------------------------------------------

/// Whether a room is listed in the public directory.
#[derive(Debug, Clone, Copy, PartialEq, Eq, Structural)]
pub enum Visibility {
    Private,
    Public,
}

/// A room preset.
#[derive(Debug, Clone, Copy, PartialEq, Eq, Structural)]
pub enum Preset {
    PrivateChat,
    PublicChat,
    TrustedPrivateChat,
}

/// Who may join a room.
#[derive(Debug, Clone, Copy, PartialEq, Eq, Structural)]
pub enum JoinRule {
    Public,
    Invite,
}

/// Whether guests may join a room.
#[derive(Debug, Clone, Copy, PartialEq, Eq, Structural)]
pub enum GuestAccess {
    CanJoin,
    Forbidden,
}

/// Who may read a room's history.
#[derive(Debug, Clone, Copy, PartialEq, Eq, Structural)]
pub enum HistoryVisibility {
    Invited,
    Joined,
    Shared,
    WorldReadable,
}

/// The rules a new room starts with.
#[derive(Debug, Clone, Copy, PartialEq, Eq, Structural)]
pub struct PresetRules {
    pub preset: Preset,
    pub join_rule: JoinRule,
    pub guest_access: GuestAccess,
    pub history_visibility: HistoryVisibility,
    pub published: bool,
}

/// The preset asked for, or the one the visibility implies (public chat for
/// a public room, private chat otherwise). A public chat is open to all and
/// closed to guests; any other preset is invite-only and open to guests.
/// Every new room shares its history with its members. A public room is
/// published in the directory.
pub open spec fn preset_rules_spec(preset: Option<Preset>, visibility: Visibility) -> PresetRules {
    let p = match preset {
        Some(p) => p,
        None => if visibility == Visibility::Public {
            Preset::PublicChat
        } else {
            Preset::PrivateChat
        },
    };
    PresetRules {
        preset: p,
        join_rule: if p == Preset::PublicChat {
            JoinRule::Public
        } else {
            JoinRule::Invite
        },
        guest_access: if p == Preset::PublicChat {
            GuestAccess::Forbidden
        } else {
            GuestAccess::CanJoin
        },
        history_visibility: HistoryVisibility::Shared,
        published: visibility == Visibility::Public,
    }
}

/// Who may join and whether guests may depend on the chosen preset alone:
/// a public chat is open to all and closed to guests, any other preset is
/// invite-only and open to guests, whatever the visibility. The preset is the
/// one asked for, or public chat exactly for a public room; the visibility
/// alone decides whether the room is published.
pub proof fn lemma_preset_decides_access(preset: Option<Preset>, visibility: Visibility)
    ensures
        ({
            let r = preset_rules_spec(preset, visibility);
            &&& preset matches Some(p) ==> r.preset == p
            &&& preset is None ==> (r.preset == Preset::PublicChat <==> visibility
                == Visibility::Public)
            &&& r.preset == Preset::PublicChat ==> r.join_rule == JoinRule::Public
                && r.guest_access == GuestAccess::Forbidden
            &&& r.preset != Preset::PublicChat ==> r.join_rule == JoinRule::Invite
                && r.guest_access == GuestAccess::CanJoin
            &&& r.published <==> visibility == Visibility::Public
        }),
{
}

/// Works out the rules of a new room.
pub fn preset_rules(preset: Option<Preset>, visibility: Visibility) -> (r: PresetRules)
    ensures
        r == preset_rules_spec(preset, visibility),
        preset matches Some(p) ==> r.preset == p,
        preset is None ==> (r.preset == Preset::PublicChat <==> visibility == Visibility::Public),
        r.preset == Preset::PublicChat ==> r.join_rule == JoinRule::Public && r.guest_access
            == GuestAccess::Forbidden,
        r.preset != Preset::PublicChat ==> r.join_rule == JoinRule::Invite && r.guest_access
            == GuestAccess::CanJoin,
        r.history_visibility == HistoryVisibility::Shared,
        r.published <==> visibility == Visibility::Public,
{
    let p = match preset {
        Some(p) => p,
        None => if visibility == Visibility::Public {
            Preset::PublicChat
        } else {
            Preset::PrivateChat
        },
    };
    let public = p == Preset::PublicChat;
    PresetRules {
        preset: p,
        join_rule: if public {
            JoinRule::Public
        } else {
            JoinRule::Invite
        },
        guest_access: if public {
            GuestAccess::Forbidden
        } else {
            GuestAccess::CanJoin
        },
        history_visibility: HistoryVisibility::Shared,
        published: visibility == Visibility::Public,
    }
}

/// The users who start with full power in a new room: the creator and every
/// invited user, each once.
pub open spec fn power_users_ok(creator: Seq<char>, invites: Seq<String>, out: Seq<String>) -> bool {
    &&& forall|i: int, j: int| 0 <= i < j < out.len() ==> out[i]@ != out[j]@
    &&& forall|i: int| 0 <= i < out.len() ==> (out[i]@ == creator || seq_has(invites, #[trigger] out[i]@))
    &&& seq_has(out, creator)
    &&& forall|k: int| 0 <= k < invites.len() ==> seq_has(out, #[trigger] invites[k]@)
}

/// Lists the users who start with full power.
pub fn power_users(creator: &str, invites: &Vec<String>) -> (out: Vec<String>)
    ensures
        power_users_ok(creator@, invites@, out@),
{
    let mut out: Vec<String> = Vec::new();
    out.push(creator.to_string());
    assert(out@[0]@ == creator@);
    let mut i: usize = 0;
    while i < invites.len()
        invariant
            i <= invites@.len(),
            out@.len() > 0,
            out@[0]@ == creator@,
            forall|a: int, b: int| 0 <= a < b < out@.len() ==> out@[a]@ != out@[b]@,
            forall|a: int| 0 <= a < out@.len() ==> (out@[a]@ == creator@ || seq_has(invites@, #[trigger] out@[a]@)),
            forall|k: int| 0 <= k < i ==> seq_has(out@, #[trigger] invites@[k]@),
        decreases invites.len() - i,
    {
        let u = &invites[i];
        let ghost old_out = out@;
        if !vec_has(&out, u.as_str()) {
            out.push(u.clone());
            assert(out@[old_out.len() as int]@ == invites@[i as int]@);
            assert forall|k: int| 0 <= k < i + 1 implies seq_has(out@, #[trigger] invites@[k]@) by {
                if k < i {
                    let w = choose|w: int| 0 <= w < old_out.len() && old_out[w]@ == invites@[k]@;
                    assert(out@[w] == old_out[w]);
                }
            }
            assert forall|a: int| 0 <= a < out@.len() implies (out@[a]@ == creator@ || seq_has(invites@, #[trigger] out@[a]@)) by {
                if a == old_out.len() {
                    assert(invites@[i as int]@ == out@[a]@);
                } else {
                    assert(out@[a] == old_out[a]);
                }
            }
            assert forall|a: int, b: int| 0 <= a < b < out@.len() implies out@[a]@ != out@[b]@ by {
                assert(out@[a] == old_out[a]);
                if b < old_out.len() {
                    assert(out@[b] == old_out[b]);
                }
            }
        }
        i = i + 1;
    }
    assert(out@[0]@ == creator@);
    out
}

/// Whether `serde_json` reads a text as a JSON value.
pub uninterp spec fn valid_json(text: Seq<char>) -> bool;

/// Calls `serde_json::from_str::<serde_json::Value>`; the contract claims
/// only that the answer is `valid_json` of the text.
#[verifier::external_body]
fn is_json(text: &str) -> (b: bool)
    ensures
        b == valid_json(text@),
{
    serde_json::from_str::<serde_json::Value>(text).is_ok()
}

/// The default power levels of a new room.
#[derive(Debug)]
pub struct DefaultPowerLevels {
    pub ban: u64,
    pub events_default: u64,
    pub invite: u64,
    pub kick: u64,
    pub redact: u64,
    pub state_default: u64,
    pub users_default: u64,
    pub notifications_room: u64,
    /// The users at level 100.
    pub users: Vec<String>,
}

/// The power levels event of a new room.
#[derive(Debug)]
pub enum PowerLevelsContent {
    /// The content the request gave, as its JSON text.
    Override(String),
    /// The default levels.
    Default(DefaultPowerLevels),
}

/// The power levels of a new room: the request's override where it gives
/// one, which must be JSON (`BadJson`); otherwise 50 to ban, invite, kick,
/// redact, send state and notify the room, 0 for other events and for
/// users by default, and 100 for the creator and every invited user.
pub fn power_levels_content(override_content: Option<&str>, creator: &str, invites: &Vec<String>) -> (r:
    Result<PowerLevelsContent, Error>)
    ensures
        match override_content {
            Some(t) => if valid_json(t@) {
                r matches Ok(PowerLevelsContent::Override(c)) && c@ == t@
            } else {
                r matches Err(e) && e.kind == ErrorKind::BadJson && e.message@
                    == "Invalid power_level_content_override."@
            },
            None => r matches Ok(PowerLevelsContent::Default(d)) && {
                &&& d.ban == 50 && d.invite == 50 && d.kick == 50 && d.redact == 50
                &&& d.state_default == 50 && d.notifications_room == 50
                &&& d.events_default == 0 && d.users_default == 0
                &&& power_users_ok(creator@, invites@, d.users@)
            },
        },
{
    match override_content {
        Some(t) => {
            if is_json(t) {
                Ok(PowerLevelsContent::Override(t.to_string()))
            } else {
                Err(Error::new(ErrorKind::BadJson, "Invalid power_level_content_override."))
            }
        },
        None => Ok(
            PowerLevelsContent::Default(
                DefaultPowerLevels {
                    ban: 50,
                    events_default: 0,
                    invite: 50,
                    kick: 50,
                    redact: 50,
                    state_default: 50,
                    users_default: 0,
                    notifications_room: 50,
                    users: power_users(creator, invites),
                },
            ),
        ),
    }
}

/// The content of a room's create event: its creator, whether it
/// federates, its version and the room it replaces (that room's id and its
/// tombstone event's id).
#[derive(Debug)]
pub struct CreateContent {
    pub creator: String,
    pub federate: bool,
    pub room_version: RoomVersion,
    pub predecessor: Option<(String, String)>,
}

/// The create event of a new room: made by the sender, with the request's
/// `federate` and predecessor, at version 6.
pub fn new_room_create_content(sender: &str, federate: bool, predecessor: Option<(String, String)>) -> (c:
    CreateContent)
    ensures
        c.creator@ == sender@,
        c.federate == federate,
        c.room_version == RoomVersion::V6,
        c.predecessor == predecessor,
{
    CreateContent {
        creator: sender.to_string(),
        federate,
        room_version: RoomVersion::V6,
        predecessor,
    }
}

/// An initial state event is kept, unless it enables encryption while the
/// server has encryption disabled.
pub fn keep_initial_state(is_encryption_event: bool, encryption_disabled: bool) -> (b: bool)
    ensures
        b == !(is_encryption_event && encryption_disabled),
{
    !(is_encryption_event && encryption_disabled)
}

/// One of the events a new room starts with, in the order they are sent.
#[derive(Debug, Clone, Copy, PartialEq, Eq, Structural)]
pub enum InitialEvent {
    Create,
    CreatorJoin,
    PowerLevels,
    JoinRules,
    HistoryVisibility,
    GuestAccess,
    /// The initial state event the request gives at this position.
    InitialState(usize),
    Name,
    Topic,
    /// The invite of the invited user at this position.
    Invite(usize),
}

/// The initial state events that are kept, by position: all but those that
/// enable encryption while the server has it disabled.
pub open spec fn kept_initial_state(is_encryption: Seq<bool>, encryption_disabled: bool) -> Seq<
    InitialEvent,
>
    decreases is_encryption.len(),
{
    if is_encryption.len() == 0 {
        Seq::empty()
    } else {
        let prev = kept_initial_state(is_encryption.drop_last(), encryption_disabled);
        if is_encryption.last() && encryption_disabled {
            prev
        } else {
            prev.push(InitialEvent::InitialState((is_encryption.len() - 1) as usize))
        }
    }
}

/// The events of a new room, in order: the create event, the creator's
/// join, the power levels, the join rules, the history visibility, the
/// guest access, the kept initial state events, the name and the topic
/// where the request gives them, and an invite for each invited user.
pub open spec fn initial_events_spec(
    is_encryption: Seq<bool>,
    encryption_disabled: bool,
    has_name: bool,
    has_topic: bool,
    invites: nat,
) -> Seq<InitialEvent> {
    seq![
        InitialEvent::Create,
        InitialEvent::CreatorJoin,
        InitialEvent::PowerLevels,
        InitialEvent::JoinRules,
        InitialEvent::HistoryVisibility,
        InitialEvent::GuestAccess,
    ] + kept_initial_state(is_encryption, encryption_disabled) + (if has_name {
        seq![InitialEvent::Name]
    } else {
        Seq::empty()
    }) + (if has_topic {
        seq![InitialEvent::Topic]
    } else {
        Seq::empty()
    }) + Seq::new(invites, |i: int| InitialEvent::Invite(i as usize))
}

/// Lists the events a new room starts with, given for each initial state
/// event of the request whether it enables encryption.
pub fn initial_events(
    is_encryption: &Vec<bool>,
    encryption_disabled: bool,
    has_name: bool,
    has_topic: bool,
    invites: usize,
) -> (out: Vec<InitialEvent>)
    ensures
        out@ == initial_events_spec(
            is_encryption@,
            encryption_disabled,
            has_name,
            has_topic,
            invites as nat,
        ),
{
    let mut out: Vec<InitialEvent> = vec![
        InitialEvent::Create,
        InitialEvent::CreatorJoin,
        InitialEvent::PowerLevels,
        InitialEvent::JoinRules,
        InitialEvent::HistoryVisibility,
        InitialEvent::GuestAccess,
    ];
    let ghost head = out@;
    let mut i: usize = 0;
    while i < is_encryption.len()
        invariant
            i <= is_encryption@.len(),
            out@ == head + kept_initial_state(is_encryption@.take(i as int), encryption_disabled),
        decreases is_encryption.len() - i,
    {
        assert(is_encryption@.take(i + 1).drop_last() =~= is_encryption@.take(i as int));
        assert(is_encryption@.take(i + 1).last() == is_encryption@[i as int]);
        if keep_initial_state(is_encryption[i], encryption_disabled) {
            out.push(InitialEvent::InitialState(i));
        }
        i = i + 1;
    }
    assert(is_encryption@.take(is_encryption@.len() as int) =~= is_encryption@);
    let ghost mid = out@;
    if has_name {
        out.push(InitialEvent::Name);
    }
    if has_topic {
        out.push(InitialEvent::Topic);
    }
    let ghost tail_start = out@;
    let mut k: usize = 0;
    while k < invites
        invariant
            k <= invites,
            out@ == tail_start + Seq::new(k as nat, |j: int| InitialEvent::Invite(j as usize)),
        decreases invites - k,
    {
        out.push(InitialEvent::Invite(k));
        assert(out@ =~= tail_start + Seq::new((k + 1) as nat, |j: int| InitialEvent::Invite(j as usize)));
        k = k + 1;
    }
    assert(head =~= seq![
        InitialEvent::Create,
        InitialEvent::CreatorJoin,
        InitialEvent::PowerLevels,
        InitialEvent::JoinRules,
        InitialEvent::HistoryVisibility,
        InitialEvent::GuestAccess,
    ]);
    assert(out@ =~= initial_events_spec(
        is_encryption@,
        encryption_disabled,
        has_name,
        has_topic,
        invites as nat,
    ));
    out
}

// ---------------------------------------------------------------------------
// Upgrades
// ---------------------------------------------------------------------------

/// The versions a room can be upgraded to.
pub open spec fn upgrade_target_spec(v: RoomVersion) -> bool {
    v == RoomVersion::V5 || v == RoomVersion::V6
}

/// An upgrade to a version this server cannot create is refused
/// (`UnsupportedRoomVersion`).
pub fn check_upgrade_version(v: RoomVersion) -> (r: Result<(), Error>)
    ensures
        r is Ok <==> upgrade_target_spec(v),
        r matches Err(e) ==> e.kind == ErrorKind::UnsupportedRoomVersion && e.message@
            == "This server does not support that room version."@,
{
    match v {
        RoomVersion::V5 | RoomVersion::V6 => Ok(()),
        _ => Err(
            Error::new(
                ErrorKind::UnsupportedRoomVersion,
                "This server does not support that room version.",
            ),
        ),
    }
}

/// The content of a tombstone event.
#[derive(Debug)]
pub struct TombstoneContent {
    pub body: String,
    pub replacement_room: String,
}

/// The tombstone an upgrade sends to the old room: it says the room has been
/// replaced and names the new room.
pub fn tombstone_content(replacement_room: &str) -> (t: TombstoneContent)
    ensures
        t.body@ == "This room has been replaced"@,
        t.replacement_room@ == replacement_room@,
{
    TombstoneContent {
        body: String::from_str("This room has been replaced"),
        replacement_room: replacement_room.to_string(),
    }
}

/// The create event of the room an upgrade makes: made by the sender,
/// federating as the old room did, at the new version, and replacing the old
/// room through its tombstone event.
pub fn upgraded_create_content(
    sender: &str,
    old_federate: bool,
    new_version: RoomVersion,
    old_room: &str,
    tombstone_event_id: &str,
) -> (c: CreateContent)
    ensures
        c.creator@ == sender@,
        c.federate == old_federate,
        c.room_version == new_version,
        c.predecessor matches Some((r, t)) && r@ == old_room@ && t@ == tombstone_event_id@,
{
    CreateContent {
        creator: sender.to_string(),
        federate: old_federate,
        room_version: new_version,
        predecessor: Some((old_room.to_string(), tombstone_event_id.to_string())),
    }
}

/// The state an upgrade carries over to the new room.
#[derive(Debug, Clone, Copy, PartialEq, Eq, Structural)]
pub enum TransferableState {
    ServerAcl,
    Encryption,
    Name,
    Avatar,
    Topic,
    GuestAccess,
    HistoryVisibility,
    JoinRules,
    PowerLevels,
}

/// The transferable state, in the order it is copied.
pub open spec fn transferable_spec() -> Seq<TransferableState> {
    seq![
        TransferableState::ServerAcl,
        TransferableState::Encryption,
        TransferableState::Name,
        TransferableState::Avatar,
        TransferableState::Topic,
        TransferableState::GuestAccess,
        TransferableState::HistoryVisibility,
        TransferableState::JoinRules,
        TransferableState::PowerLevels,
    ]
}

/// The transferable state, in the order it is copied.
pub fn transferable() -> (v: Vec<TransferableState>)
    ensures
        v@ == transferable_spec(),
{
    let v = vec![
        TransferableState::ServerAcl,
        TransferableState::Encryption,
        TransferableState::Name,
        TransferableState::Avatar,
        TransferableState::Topic,
        TransferableState::GuestAccess,
        TransferableState::HistoryVisibility,
        TransferableState::JoinRules,
        TransferableState::PowerLevels,
    ];
    assert(v@ =~= transferable_spec());
    v
}

/// The largest integer a power level (a JSON-safe integer) can hold.
pub open spec fn max_power_level() -> int {
    9007199254740991
}

/// The level that locks the old room: sending events and inviting need the
/// greater of 50 and one above the default user level.
pub open spec fn lock_level_spec(users_default: i64) -> i64 {
    if 50 >= users_default + 1 {
        50
    } else {
        (users_default + 1) as i64
    }
}

/// The level that locks the old room.
pub fn lock_level(users_default: i64) -> (l: i64)
    requires
        -max_power_level() <= users_default < max_power_level(),
    ensures
        l == lock_level_spec(users_default),
        l > users_default,
        l >= 50,
{
    let next = users_default + 1;
    if 50 >= next {
        50
    } else {
        next
    }
}

/// The room versions this server offers, and the one it uses by default.
pub fn room_version_capabilities() -> (r: (RoomVersion, Vec<RoomVersion>))
    ensures
        r.0 == RoomVersion::V6,
        r.1@ == seq![RoomVersion::V5, RoomVersion::V6],
{
    let v = vec![RoomVersion::V5, RoomVersion::V6];
    assert(v@ =~= seq![RoomVersion::V5, RoomVersion::V6]);
    (RoomVersion::V6, v)
}

} // verus!
