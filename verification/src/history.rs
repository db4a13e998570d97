//! Reading room history: the window of `/messages` and the events around
//! one event that `/context` returns, with the members whose state is sent
//! along.
use vstd::prelude::*;
use vstd::string::*;
use crate::error::{Error, ErrorKind};
use crate::text::{
    decimal_digits, format_u64, lemma_parse_format_u64, parse_u64, parse_u64_spec, seq_has, vec_has,
};

verus! {

/// Reading a room's history needs the user to be joined (`Forbidden`).
pub fn check_joined(joined: bool) -> (r: Result<(), Error>)
    ensures
        r is Ok <==> joined,
        r matches Err(e) ==> e.kind == ErrorKind::Forbidden && e.message@ == "You don't have permission to view this room."@,
{
    if joined {
        Ok(())
    } else {
        Err(Error::new(ErrorKind::Forbidden, "You don't have permission to view this room."))
    }
}

// ---------------------------------------------------------------------------
// /messages
// ---------------------------------------------------------------------------

/// The `from` token of `/messages` must be a number (`InvalidParam`).
pub fn messages_from(from: &str) -> (r: Result<u64, Error>)
    ensures
        match parse_u64_spec(from@) {
            Some(n) => r == Ok::<u64, Error>(n),
            None => (r matches Err(e) && e.kind == ErrorKind::InvalidParam && e.message@ == "Invalid `from` value."@),
        },
{
    match parse_u64(from) {
        Some(n) => Ok(n),
        None => Err(Error::new(ErrorKind::InvalidParam, "Invalid `from` value.")),
    }
}

/// The `to` token of `/messages`: where it is a number, the window stops at
/// the event with that count; otherwise it never stops early.
pub fn messages_to(to: Option<&str>) -> (r: Option<u64>)
    ensures
        match to {
            Some(t) => r == parse_u64_spec(t@),
            None => r is None,
        },
{
    match to {
        Some(t) => parse_u64(t),
        None => None,
    }
}

/// The page size of `/messages`: the limit asked for where it fits in 32
/// bits, otherwise ten.
pub fn messages_limit(limit: u64) -> (n: usize)
    ensures
        n == (if limit <= u32::MAX {
            limit as int
        } else {
            10
        }),
{
    if limit <= 4294967295 {
        limit as usize
    } else {
        10
    }
}

/// The window stops at position `i` of the events taken: its count is the
/// `to` token.
pub open spec fn stops_at(counts: Seq<Option<u64>>, to: Option<u64>, i: int) -> bool {
    to is Some && counts[i] == Some(to.unwrap())
}

/// Walking the events in order: the positions kept so far, and whether the
/// walk has reached the event whose count is `to`. Events that cannot be
/// read (no count) are skipped; nothing is kept from the stop on.
pub open spec fn walk(p: Seq<Option<u64>>, to: Option<u64>) -> (Seq<usize>, bool)
    decreases p.len(),
{
    if p.len() == 0 {
        (Seq::empty(), false)
    } else {
        let (prev, stopped) = walk(p.drop_last(), to);
        let i = p.len() - 1;
        if stopped || stops_at(p, to, i) {
            (prev, true)
        } else if p[i] is Some {
            (prev.push(i as usize), false)
        } else {
            (prev, false)
        }
    }
}

/// The events of a `/messages` page, walking from `from` in the asked
/// direction: of the first `limit` events (`counts` holds the count of each,
/// `None` for an event that cannot be read), those that can be read, up to
/// but without the one whose count is `to`.
pub open spec fn messages_window_spec(counts: Seq<Option<u64>>, limit: usize, to: Option<u64>) -> Seq<
    usize,
> {
    walk(
        if limit < counts.len() {
            counts.take(limit as int)
        } else {
            counts
        },
        to,
    ).0
}

/// Picks the events of a `/messages` page, as positions into `counts`.
pub fn messages_window(counts: &Vec<Option<u64>>, limit: usize, to: Option<u64>) -> (out: Vec<
    usize,
>)
    ensures
        out@ == messages_window_spec(counts@, limit, to),
{
    let n = if limit < counts.len() {
        limit
    } else {
        counts.len()
    };
    let ghost p = if limit < counts@.len() {
        counts@.take(limit as int)
    } else {
        counts@
    };
    assert(p.len() == n);
    let mut out: Vec<usize> = Vec::new();
    let mut stopped = false;
    let mut i: usize = 0;
    while i < n
        invariant
            i <= n,
            n == p.len(),
            n <= counts@.len(),
            forall|j: int| 0 <= j < n ==> p[j] == counts@[j],
            out@ == walk(p.take(i as int), to).0,
            stopped == walk(p.take(i as int), to).1,
        decreases n - i,
    {
        let ghost q = p.take(i + 1);
        assert(q.drop_last() =~= p.take(i as int));
        assert(q[i as int] == counts@[i as int]);
        let c = counts[i];
        let stop_here = match (c, to) {
            (Some(k), Some(t)) => k == t,
            _ => false,
        };
        assert(stop_here == stops_at(q, to, i as int));
        if stopped || stop_here {
            stopped = true;
        } else if c.is_some() {
            out.push(i);
        }
        i = i + 1;
    }
    assert(p.take(n as int) =~= p);
    out
}

/// The token at the far end of a page: the count of its last event.
pub fn end_token(last_count: Option<u64>) -> (t: Option<String>)
    ensures
        match last_count {
            Some(c) => (t matches Some(s) && s@ == decimal_digits(c as nat)),
            None => t is None,
        },
{
    match last_count {
        Some(c) => Some(format_u64(c)),
        None => None,
    }
}

/// The token at the end of a `/messages` page, sent back as the `from` of
/// the next request, is read as the count it was made from.
pub proof fn lemma_end_token_round_trip(count: u64)
    ensures
        parse_u64_spec(decimal_digits(count as nat)) == Some(count),
{
    lemma_parse_format_u64(count);
}

// ---------------------------------------------------------------------------
// /context
// ---------------------------------------------------------------------------

/// How many events `/context` returns on each side: half the limit, which
/// must fit in 32 bits (`InvalidParam`).
pub fn context_side_limit(limit: u64) -> (r: Result<usize, Error>)
    ensures
        limit <= u32::MAX ==> r == Ok::<usize, Error>((limit / 2) as usize),
        limit > u32::MAX ==> (r matches Err(e) && e.kind == ErrorKind::InvalidParam && e.message@ == "Limit value is invalid."@),
{
    if limit <= 4294967295 {
        Ok((limit / 2) as usize)
    } else {
        Err(Error::new(ErrorKind::InvalidParam, "Limit value is invalid."))
    }
}

/// The members whose state `/context` sends: the senders of the returned
/// events whose member event this device has not been sent before, each
/// once. Each sender comes with whether it was sent before.
pub open spec fn lazy_loaded_ok(senders: Seq<(String, bool)>, out: Seq<String>) -> bool {
    &&& forall|i: int, j: int| 0 <= i < j < out.len() ==> out[i]@ != out[j]@
    &&& forall|i: int| 0 <= i < out.len() ==> unsent_sender(senders, #[trigger] out[i]@)
    &&& forall|k: int|
        0 <= k < senders.len() && !(#[trigger] senders[k]).1 ==> seq_has(out, senders[k].0@)
}

/// One of the senders, not sent before.
pub open spec fn unsent_sender(senders: Seq<(String, bool)>, u: Seq<char>) -> bool {
    exists|k: int| 0 <= k < senders.len() && senders[k].0@ == u && !senders[k].1
}

/// Picks the members whose state `/context` sends.
pub fn lazy_loaded(senders: &Vec<(String, bool)>) -> (out: Vec<String>)
    ensures
        lazy_loaded_ok(senders@, out@),
{
    let mut out: Vec<String> = Vec::new();
    let mut i: usize = 0;
    while i < senders.len()
        invariant
            i <= senders@.len(),
            forall|a: int, b: int| 0 <= a < b < out@.len() ==> out@[a]@ != out@[b]@,
            forall|a: int| 0 <= a < out@.len() ==> unsent_sender(senders@, #[trigger] out@[a]@),
            forall|k: int|
                0 <= k < i && !(#[trigger] senders@[k]).1 ==> seq_has(out@, senders@[k].0@),
        decreases senders.len() - i,
    {
        let (u, sent) = &senders[i];
        let ghost old_out = out@;
        if !*sent && !vec_has(&out, u.as_str()) {
            out.push(u.clone());
            assert(out@[old_out.len() as int]@ == senders@[i as int].0@);
            assert forall|a: int| 0 <= a < out@.len() implies unsent_sender(
                senders@,
                #[trigger] out@[a]@,
            ) by {
                if a < old_out.len() {
                    assert(out@[a] == old_out[a]);
                } else {
                    assert(senders@[i as int].0@ == out@[a]@);
                }
            }
            assert forall|k: int|
                0 <= k < i + 1 && !(#[trigger] senders@[k]).1 implies seq_has(
                out@,
                senders@[k].0@,
            ) by {
                if k < i {
                    let w = choose|w: int| 0 <= w < old_out.len() && old_out[w]@ == senders@[k].0@;
                    assert(out@[w] == old_out[w]);
                } else {
                    assert(out@[old_out.len() as int]@ == senders@[k].0@);
                }
            }
            assert forall|a: int, b: int| 0 <= a < b < out@.len() implies out@[a]@
                != out@[b]@ by {
                assert(out@[a] == old_out[a]);
                if b < old_out.len() {
                    assert(out@[b] == old_out[b]);
                }
            }
        }
        i = i + 1;
    }
    assert(i == senders@.len());
    out
}

// ---------------------------------------------------------------------------
// Room state
// ---------------------------------------------------------------------------

/// A user may read a room's state when joined to it, or when its history
/// is world-readable (`Forbidden` otherwise).
pub fn state_read_access(joined: bool, world_readable: bool) -> (r: Result<(), Error>)
    ensures
        r is Ok <==> (joined || world_readable),
        r matches Err(e) ==> e.kind == ErrorKind::Forbidden && e.message@ == "You don't have permission to view the room state."@,
{
    if joined || world_readable {
        Ok(())
    } else {
        Err(Error::new(ErrorKind::Forbidden, "You don't have permission to view the room state."))
    }
}

/// A state event that does not exist is not found (`NotFound`).
pub fn state_event_found<E>(event: Option<E>) -> (r: Result<E, Error>)
    ensures
        match event {
            Some(x) => (r matches Ok(y) && y == x),
            None => (r matches Err(e) && e.kind == ErrorKind::NotFound && e.message@ == "State event not found."@),
        },
{
    match event {
        Some(x) => Ok(x),
        None => Err(Error::new(ErrorKind::NotFound, "State event not found.")),
    }
}

} // verus!
