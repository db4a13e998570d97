//! Sending events from a client: repeated transaction ids, the aliases a
//! canonical alias event may name, and where to-device messages go.
use vstd::prelude::*;
use vstd::string::*;
use crate::error::{Error, ErrorKind};
use crate::text::str_eq;

verus! {

/// What a message send does with its transaction id.
#[derive(Debug, Clone, PartialEq, Eq)]
pub enum TxnOutcome {
    /// A new transaction: send the event.
    Send,
    /// The transaction was done before: answer with its event again.
    Repeat(String),
}

/// A transaction id used before by this device is answered with the event
/// it sent then; one used by an endpoint that stored no event (a to-device
/// send) is refused (`InvalidParam`). `stored` is `None` for a new id, and
/// `Some(None)` for one with no event stored.
pub fn message_txn(stored: Option<Option<String>>) -> (r: Result<TxnOutcome, Error>)
    ensures
        match stored {
            None => r == Ok::<TxnOutcome, Error>(TxnOutcome::Send),
            Some(None) => (r matches Err(e) && e.kind == ErrorKind::InvalidParam && e.message@ == "Tried to use txn id already used for an incompatible endpoint."@),
            Some(Some(id)) => r == Ok::<TxnOutcome, Error>(TxnOutcome::Repeat(id)),
        },
{
    match stored {
        None => Ok(TxnOutcome::Send),
        Some(None) => Err(
            Error::new(
                ErrorKind::InvalidParam,
                "Tried to use txn id already used for an incompatible endpoint.",
            ),
        ),
        Some(Some(id)) => Ok(TxnOutcome::Repeat(id)),
    }
}

/// An alias named by a canonical alias event: its server, and the room it
/// points to here (`None` where it points nowhere).
pub struct NamedAlias {
    pub server: String,
    pub room: Option<String>,
}

/// A canonical alias event may only name aliases of this server that
/// already point to the room (`Forbidden` otherwise).
pub open spec fn alias_allowed(a: NamedAlias, our_server: Seq<char>, room: Seq<char>) -> bool {
    a.server@ == our_server && (a.room matches Some(r) && r@ == room)
}

/// Checks the aliases of a canonical alias event (its alternative aliases,
/// then its main one).
pub fn canonical_alias_check(aliases: &Vec<NamedAlias>, our_server: &str, room: &str) -> (r: Result<
    (),
    Error,
>)
    ensures
        r is Ok <==> forall|i: int| 0 <= i < aliases@.len() ==> #[trigger] alias_allowed(aliases@[i], our_server@, room@),
        r matches Err(e) ==> e.kind == ErrorKind::Forbidden && e.message@ == "You are only allowed to send canonical_alias events when it's aliases already exists"@,
{
    let mut i: usize = 0;
    while i < aliases.len()
        invariant
            i <= aliases@.len(),
            forall|j: int| 0 <= j < i ==> #[trigger] alias_allowed(aliases@[j], our_server@, room@),
        decreases aliases.len() - i,
    {
        let a = &aliases[i];
        let ok = str_eq(a.server.as_str(), our_server) && match &a.room {
            Some(r) => str_eq(r.as_str(), room),
            None => false,
        };
        if !ok {
            assert(!alias_allowed(aliases@[i as int], our_server@, room@));
            return Err(
                Error::new(
                    ErrorKind::Forbidden,
                    "You are only allowed to send canonical_alias events when it's aliases already exists",
                ),
            );
        }
        i = i + 1;
    }
    Ok(())
}

/// Where a to-device message goes.
#[derive(Debug, Clone, Copy, PartialEq, Eq, Structural)]
pub enum ToDeviceTarget {
    /// To the user's server, as a direct-to-device EDU.
    Remote,
    /// To one device of a local user.
    Device,
    /// To every device of a local user.
    AllDevices,
}

/// A message for a user of another server goes to that server; one for a
/// local user goes to the named device, or to all of them.
pub fn to_device_target(user_server: &str, our_server: &str, all_devices: bool) -> (t:
    ToDeviceTarget)
    ensures
        user_server@ != our_server@ ==> t == ToDeviceTarget::Remote,
        user_server@ == our_server@ && all_devices ==> t == ToDeviceTarget::AllDevices,
        user_server@ == our_server@ && !all_devices ==> t == ToDeviceTarget::Device,
{
    if !str_eq(user_server, our_server) {
        ToDeviceTarget::Remote
    } else if all_devices {
        ToDeviceTarget::AllDevices
    } else {
        ToDeviceTarget::Device
    }
}

/// A client's typing notice: refused when the user is not in the room
/// (`Forbidden`); typing for `d` milliseconds runs out at `now_ms + d`
/// (`Some`), and not typing clears the notice (`None`).
pub fn client_typing(joined: bool, typing_ms: Option<u64>, now_ms: u64) -> (r: Result<
    Option<u64>,
    Error,
>)
    requires
        typing_ms matches Some(d) ==> d + now_ms <= u64::MAX,
    ensures
        !joined ==> (r matches Err(e) && e.kind == ErrorKind::Forbidden && e.message@ == "You are not in this room."@),
        joined ==> r == Ok::<Option<u64>, Error>(
            match typing_ms {
                Some(d) => Some((d + now_ms) as u64),
                None => None,
            },
        ),
{
    if !joined {
        return Err(Error::new(ErrorKind::Forbidden, "You are not in this room."));
    }
    match typing_ms {
        Some(d) => Ok(Some(d + now_ms)),
        None => Ok(None),
    }
}

} // verus!
