//! Accounts: which user id a registration gets, when it is refused, when
//! user-interactive authentication is asked for, which credentials a new
//! device receives, and which devices a password change logs out.
use vstd::prelude::*;
use vstd::string::*;
use crate::error::{Error, ErrorKind};
use crate::room::{GuestAccess, HistoryVisibility, JoinRule};
use crate::room_version::RoomVersion;
use crate::text::{lowercase, opt_view, str_eq, to_lowercase};

verus! {

// ---------------------------------------------------------------------------
// Random strings
// ---------------------------------------------------------------------------

/// An ASCII letter or digit.
pub open spec fn is_alphanumeric(c: char) -> bool {
    ('0' <= c && c <= '9') || ('a' <= c && c <= 'z') || ('A' <= c && c <= 'Z')
}

/// A string of `len` ASCII letters and digits.
pub open spec fn random_shape(s: Seq<char>, len: nat) -> bool {
    &&& s.len() == len
    &&& forall|i: int| 0 <= i < s.len() ==> #[trigger] is_alphanumeric(s[i])
}

/// `len` characters drawn from the thread-local generator of `rand` through
/// its `Alphanumeric` distribution, which yields ASCII letters and digits.
/// Nothing is said of which ones: they are random.
#[verifier::external_body]
pub(crate) fn random_string(len: usize) -> (s: String)
    ensures
        random_shape(s@, len as nat),
{
    rand::Rng::sample_iter(rand::thread_rng(), &rand::distributions::Alphanumeric).take(len).map(
        char::from,
    ).collect()
}

// ---------------------------------------------------------------------------
// User ids
// ---------------------------------------------------------------------------

/// The parts of a parsed user id: the whole id, its localpart and its server
/// name.
pub struct UserIdParts {
    pub full: String,
    pub localpart: String,
    pub server: String,
}

impl View for UserIdParts {
    type V = (Seq<char>, Seq<char>, Seq<char>);

    open spec fn view(&self) -> (Seq<char>, Seq<char>, Seq<char>) {
        (self.full@, self.localpart@, self.server@)
    }
}

/// What `ruma`'s `UserId::parse_with_server_name` makes of an id (a full
/// user id, or a localpart completed with the server name) and a server
/// name: the id's whole text, localpart and server name, or `None` where
/// either is not valid.
pub uninterp spec fn parsed_user_id(id: Seq<char>, server: Seq<char>) -> Option<
    (Seq<char>, Seq<char>, Seq<char>),
>;

/// Calls `ruma`'s `UserId::parse_with_server_name`, after reading the server
/// name with `<&ServerName>::try_from`, and hands back the parsed id's text,
/// localpart and server name. The contract claims only that the result is
/// `parsed_user_id` of the arguments: the same input gives the same parts.
#[verifier::external_body]
pub(crate) fn parse_user_id(id: &str, server: &str) -> (r: Option<UserIdParts>)
    ensures
        parsed_user_id(id@, server@) == match r {
            Some(p) => Some(p@),
            None => None,
        },
{
    let server = <&ruma::ServerName>::try_from(server).ok()?;
    let u = ruma::UserId::parse_with_server_name(id, server).ok()?;
    Some(
        UserIdParts {
            full: u.as_str().to_owned(),
            localpart: u.localpart().to_owned(),
            server: u.server_name().as_str().to_owned(),
        },
    )
}

/// A character of a fully conforming user id localpart.
pub open spec fn is_localpart_char(c: char) -> bool {
    ('0' <= c && c <= '9') || ('a' <= c && c <= 'z') || c == '-' || c == '.' || c == '=' || c
        == '_' || c == '/' || c == '+'
}

/// A fully conforming localpart: not empty, and made of digits, lower-case
/// letters and `-._=/+`. Any other valid localpart is historical.
pub open spec fn conforming_localpart(l: Seq<char>) -> bool {
    l.len() > 0 && forall|i: int| 0 <= i < l.len() ==> #[trigger] is_localpart_char(l[i])
}

/// Whether a user id's localpart is a historical one (`UserId::is_historical`).
pub fn is_historical(localpart: &str) -> (b: bool)
    ensures
        b == !conforming_localpart(localpart@),
{
    let n = localpart.unicode_len();
    if n == 0 {
        return true;
    }
    let mut i: usize = 0;
    while i < n
        invariant
            n == localpart@.len(),
            i <= n,
            forall|j: int| 0 <= j < i ==> #[trigger] is_localpart_char(localpart@[j]),
        decreases n - i,
    {
        let c = localpart.get_char(i);
        if !(('0' <= c && c <= '9') || ('a' <= c && c <= 'z') || c == '-' || c == '.' || c == '='
            || c == '_' || c == '/' || c == '+') {
            assert(!is_localpart_char(localpart@[i as int]));
            return true;
        }
        i = i + 1;
    }
    false
}

/// The id of a local user: the parsed id, where it parses, is not historical
/// and belongs to this server.
pub open spec fn local_user_id_spec(id: Seq<char>, server: Seq<char>) -> Option<Seq<char>> {
    match parsed_user_id(id, server) {
        Some((full, local, srv)) => if conforming_localpart(local) && srv == server {
            Some(full)
        } else {
            None
        },
        None => None,
    }
}

/// Reads a user id of this server; `InvalidUsername` where it is not one.
pub fn local_user_id(id: &str, server: &str) -> (r: Result<String, Error>)
    ensures
        match local_user_id_spec(id@, server@) {
            Some(full) => r matches Ok(s) && s@ == full,
            None => r matches Err(e) && e.kind == ErrorKind::InvalidUsername && e.message@
                == "Username is invalid."@,
        },
{
    match parse_user_id(id, server) {
        Some(parts) => {
            if !is_historical(parts.localpart.as_str()) && str_eq(parts.server.as_str(), server) {
                Ok(parts.full)
            } else {
                Err(Error::new(ErrorKind::InvalidUsername, "Username is invalid."))
            }
        },
        None => Err(Error::new(ErrorKind::InvalidUsername, "Username is invalid.")),
    }
}

/// Whether a username is free: `UserInUse` when the user exists, else
/// `Exclusive` when an appservice claims the name in its namespace.
pub fn username_available(exists: bool, appservice_claimed: bool) -> (r: Result<bool, Error>)
    ensures
        exists ==> (r matches Err(e) && e.kind == ErrorKind::UserInUse && e.message@
            == "Desired user ID is already taken."@),
        !exists && appservice_claimed ==> (r matches Err(e) && e.kind == ErrorKind::Exclusive
            && e.message@ == "Username is reserved by an appservice."@),
        !exists && !appservice_claimed ==> r == Ok::<bool, Error>(true),
{
    if exists {
        Err(Error::new(ErrorKind::UserInUse, "Desired user ID is already taken."))
    } else if appservice_claimed {
        Err(Error::new(ErrorKind::Exclusive, "Username is reserved by an appservice."))
    } else {
        Ok(true)
    }
}

// ---------------------------------------------------------------------------
// Registration
// ---------------------------------------------------------------------------

/// The length of the random name of a guest.
pub open spec fn guest_name_length() -> nat {
    10
}

/// The user a registration is for, and whether the client sent no username
/// (it then only asks which authentication flows exist).
pub struct RegisterUser {
    pub user_id: String,
    pub missing_username: bool,
}

/// The user id a registration asks for, given the random name used for
/// guests and for requests without a username: refused (`Forbidden`) when
/// registration is off; otherwise the chosen name, in lower case, must be a
/// local user id (`InvalidUsername`). An error comes with its message.
pub open spec fn register_user_spec(
    allow: bool,
    is_guest: bool,
    username: Option<Seq<char>>,
    random_name: Seq<char>,
    server: Seq<char>,
) -> Result<(Seq<char>, bool), (ErrorKind, Seq<char>)> {
    if !allow {
        Err((ErrorKind::Forbidden, "Registration has been disabled."@))
    } else {
        let missing = !is_guest && username is None;
        let name = if is_guest || username is None {
            random_name
        } else {
            username.unwrap()
        };
        match local_user_id_spec(lowercase(name), server) {
            Some(id) => Ok((id, missing)),
            None => Err((ErrorKind::InvalidUsername, "Username is invalid."@)),
        }
    }
}

/// The outcome as a plain value.
pub open spec fn register_user_view(r: Result<RegisterUser, Error>) -> Result<
    (Seq<char>, bool),
    (ErrorKind, Seq<char>),
> {
    match r {
        Ok(u) => Ok((u.user_id@, u.missing_username)),
        Err(e) => Err((e.kind, e.message@)),
    }
}

/// The user id a registration asks for, with the random name given.
pub fn register_user(
    allow: bool,
    is_guest: bool,
    username: Option<&str>,
    random_name: &str,
    server: &str,
) -> (r: Result<RegisterUser, Error>)
    ensures
        register_user_view(r) == register_user_spec(
            allow,
            is_guest,
            opt_view(username),
            random_name@,
            server@,
        ),
{
    if !allow {
        return Err(Error::new(ErrorKind::Forbidden, "Registration has been disabled."));
    }
    let missing = !is_guest && username.is_none();
    let name = if is_guest {
        random_name
    } else {
        match username {
            Some(u) => u,
            None => random_name,
        }
    };
    let lower = to_lowercase(name);
    match local_user_id(lower.as_str(), server) {
        Ok(id) => Ok(RegisterUser { user_id: id, missing_username: missing }),
        Err(e) => Err(e),
    }
}

/// The user id a registration asks for; guests, and requests without a
/// username, get a random name of ten letters and digits.
pub fn register_begin(allow: bool, is_guest: bool, username: Option<&str>, server: &str) -> (r:
    Result<RegisterUser, Error>)
    ensures
        exists|name: Seq<char>|
            random_shape(name, guest_name_length()) && register_user_view(r)
                == #[trigger] register_user_spec(
                allow,
                is_guest,
                opt_view(username),
                name,
                server@,
            ),
{
    let random_name = random_string(10);
    let r = register_user(allow, is_guest, username, random_name.as_str(), server);
    assert(random_shape(random_name@, guest_name_length()));
    r
}

/// The outcome of user-interactive authentication, as far as a request
/// carries it.
#[derive(Debug, Clone, Copy, PartialEq, Eq, Structural)]
pub enum AuthOutcome {
    /// The request carries no authentication.
    Missing,
    /// It carries one that did not complete the flow.
    Incomplete,
    /// It completed the flow.
    Completed,
}

/// What a request that needs user-interactive authentication does next.
#[derive(Debug)]
pub enum AuthStep {
    /// Refused.
    Refused(Error),
    /// Start a session and answer with the flows to complete.
    StartSession,
    /// Answer with the state of the flows.
    Continue,
    /// Go on with the request.
    Proceed,
}

/// The step as a plain value.
pub open spec fn auth_step_view(s: AuthStep) -> Result<int, (ErrorKind, Seq<char>)> {
    match s {
        AuthStep::Refused(e) => Err((e.kind, e.message@)),
        AuthStep::StartSession => Ok(0),
        AuthStep::Continue => Ok(1),
        AuthStep::Proceed => Ok(2),
    }
}

/// A request without authentication starts a session; one whose
/// authentication did not complete gets the state of the flows; a completed
/// one proceeds.
pub open spec fn auth_step_spec(auth: AuthOutcome) -> Result<int, (ErrorKind, Seq<char>)> {
    match auth {
        AuthOutcome::Missing => Ok(0),
        AuthOutcome::Incomplete => Ok(1),
        AuthOutcome::Completed => Ok(2),
    }
}

/// The authentication step of a request (changing the password,
/// deactivating the account).
pub fn auth_step(auth: AuthOutcome) -> (s: AuthStep)
    ensures
        auth_step_view(s) == auth_step_spec(auth),
{
    match auth {
        AuthOutcome::Missing => AuthStep::StartSession,
        AuthOutcome::Incomplete => AuthStep::Continue,
        AuthOutcome::Completed => AuthStep::Proceed,
    }
}

/// After the user id is known: a user that exists is refused (`UserInUse`)
/// unless no username was sent; a request not from an appservice must pass
/// authentication; a request without a username is then refused
/// (`MissingParam`); otherwise the account is created. An error comes with
/// its message.
pub open spec fn register_step_spec(
    missing_username: bool,
    exists: bool,
    from_appservice: bool,
    auth: AuthOutcome,
) -> Result<int, (ErrorKind, Seq<char>)> {
    if !missing_username && exists {
        Err((ErrorKind::UserInUse, "Desired user ID is already taken."@))
    } else if !from_appservice && auth != AuthOutcome::Completed {
        auth_step_spec(auth)
    } else if missing_username {
        Err((ErrorKind::MissingParam, "Missing username field."@))
    } else {
        Ok(2)
    }
}

/// The step of a registration once its user id is known.
pub fn register_step(user: &RegisterUser, exists: bool, from_appservice: bool, auth: AuthOutcome) -> (s:
    AuthStep)
    ensures
        auth_step_view(s) == register_step_spec(
            user.missing_username,
            exists,
            from_appservice,
            auth,
        ),
{
    if !user.missing_username && exists {
        return AuthStep::Refused(
            Error::new(ErrorKind::UserInUse, "Desired user ID is already taken."),
        );
    }
    if !from_appservice {
        match auth {
            AuthOutcome::Missing => {
                return AuthStep::StartSession;
            },
            AuthOutcome::Incomplete => {
                return AuthStep::Continue;
            },
            AuthOutcome::Completed => {},
        }
    }
    if user.missing_username {
        return AuthStep::Refused(Error::new(ErrorKind::MissingParam, "Missing username field."));
    }
    AuthStep::Proceed
}

/// The password an account is created with: none (empty) for guests,
/// otherwise the one sent, empty when none was.
pub fn register_password(is_guest: bool, password: Option<String>) -> (p: String)
    ensures
        is_guest ==> p@ == Seq::<char>::empty(),
        !is_guest ==> p@ == match password {
            Some(x) => x@,
            None => Seq::<char>::empty(),
        },
{
    if is_guest {
        return String::new();
    }
    match password {
        Some(p) => p,
        None => String::new(),
    }
}

/// The length of a random device id.
pub open spec fn device_id_length() -> nat {
    10
}

/// The length of an access token.
pub open spec fn token_length() -> nat {
    256
}

/// The device a new account logs in with: none when a non-guest asked not to
/// be logged in; otherwise the device id sent (guests' ids are ignored),
/// given the random one used where there is none.
pub open spec fn register_device_spec(
    is_guest: bool,
    inhibit_login: bool,
    device_id: Option<Seq<char>>,
    random_device: Seq<char>,
) -> Option<Seq<char>> {
    if !is_guest && inhibit_login {
        None
    } else if !is_guest && device_id is Some {
        device_id
    } else {
        Some(random_device)
    }
}

/// The device id of a new account, with the random one given.
pub fn register_device(
    is_guest: bool,
    inhibit_login: bool,
    device_id: Option<String>,
    random_device: String,
) -> (d: Option<String>)
    ensures
        (match d {
            Some(x) => Some(x@),
            None => None,
        }) == register_device_spec(
            is_guest,
            inhibit_login,
            match device_id {
                Some(x) => Some(x@),
                None => None,
            },
            random_device@,
        ),
{
    if !is_guest && inhibit_login {
        return None;
    }
    if !is_guest {
        if let Some(x) = device_id {
            return Some(x);
        }
    }
    Some(random_device)
}

/// The device and access token of a new account: the device as
/// `register_device` picks it, with a random id of ten letters and digits
/// where one is needed, and a random token of 256.
pub fn new_login(is_guest: bool, inhibit_login: bool, device_id: Option<String>) -> (r: Option<
    (String, String),
>)
    ensures
        !is_guest && inhibit_login ==> r is None,
        !(!is_guest && inhibit_login) ==> (r matches Some((d, t)) && random_shape(
            t@,
            token_length(),
        ) && (if !is_guest && device_id is Some {
            d@ == device_id.unwrap()@
        } else {
            random_shape(d@, device_id_length())
        })),
{
    let random_device = random_string(10);
    match register_device(is_guest, inhibit_login, device_id, random_device) {
        None => None,
        Some(d) => {
            let token = random_string(256);
            Some((d, token))
        },
    }
}

/// The first account of the server gets the admin room.
pub fn creates_admin_room(user_count: u64) -> (b: bool)
    ensures
        b == (user_count == 1),
{
    user_count == 1
}

/// What the admin room is made of: the server's bot user, which creates it,
/// its alias, name and topic, its rules, and the users at level 100.
#[derive(Debug)]
pub struct AdminRoom {
    pub bot_user: String,
    pub alias: String,
    pub name: String,
    pub topic: String,
    pub room_version: RoomVersion,
    pub federate: bool,
    pub join_rule: JoinRule,
    pub guest_access: GuestAccess,
    pub history_visibility: HistoryVisibility,
    pub power_users: Vec<String>,
}

/// The admin room made for the first user: created by `@conduit:<server>`
/// at version 6 and federating, invite-only, closed to guests, sharing its
/// history with members, named "Admin Room" with the topic "Manage
/// <server>", aliased `#admins:<server>`, and with the bot and the first
/// user at level 100.
pub fn admin_room(server: &str, first_user: &str) -> (a: AdminRoom)
    ensures
        a.bot_user@ == "@conduit:"@ + server@,
        a.alias@ == "#admins:"@ + server@,
        a.name@ == "Admin Room"@,
        a.topic@ == "Manage "@ + server@,
        a.room_version == RoomVersion::V6,
        a.federate,
        a.join_rule == JoinRule::Invite,
        a.guest_access == GuestAccess::Forbidden,
        a.history_visibility == HistoryVisibility::Shared,
        a.power_users@.len() == 2,
        a.power_users@[0]@ == a.bot_user@,
        a.power_users@[1]@ == first_user@,
{
    let mut bot = String::from_str("@conduit:");
    bot.append(server);
    let mut alias = String::from_str("#admins:");
    alias.append(server);
    let mut topic = String::from_str("Manage ");
    topic.append(server);
    let mut power_users: Vec<String> = Vec::new();
    power_users.push(bot.clone());
    power_users.push(first_user.to_string());
    AdminRoom {
        bot_user: bot,
        alias,
        name: String::from_str("Admin Room"),
        topic,
        room_version: RoomVersion::V6,
        federate: true,
        join_rule: JoinRule::Invite,
        guest_access: GuestAccess::Forbidden,
        history_visibility: HistoryVisibility::Shared,
        power_users,
    }
}

/// The devices a password change logs out when it is asked to: all of the
/// user's but the one making the request, in order.
pub open spec fn other_devices_spec(all: Seq<String>, current: Seq<char>) -> Seq<String>
    decreases all.len(),
{
    if all.len() == 0 {
        Seq::empty()
    } else {
        let prev = other_devices_spec(all.drop_last(), current);
        if all.last()@ != current {
            prev.push(all.last())
        } else {
            prev
        }
    }
}

/// Picks the devices a password change logs out: none unless the request
/// sets `logout_devices`.
pub fn other_devices(all: Vec<String>, current: &str, logout_devices: bool) -> (out: Vec<String>)
    ensures
        logout_devices ==> out@ == other_devices_spec(all@, current@),
        !logout_devices ==> out@.len() == 0,
{
    if !logout_devices {
        return Vec::new();
    }
    let mut out: Vec<String> = Vec::new();
    let mut i: usize = 0;
    while i < all.len()
        invariant
            i <= all@.len(),
            out@ == other_devices_spec(all@.take(i as int), current@),
        decreases all.len() - i,
    {
        assert(all@.take(i + 1).drop_last() =~= all@.take(i as int));
        if !str_eq(all[i].as_str(), current) {
            out.push(all[i].clone());
        }
        i = i + 1;
    }
    assert(all@.take(all@.len() as int) =~= all@);
    out
}

} // verus!
