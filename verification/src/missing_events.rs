//! The walk behind `get_missing_events`: starting from the latest events a
//! server knows, follow `prev_events` backwards through this room until the
//! earliest events it knows, collecting what it may see, up to a limit.
//!
//! The walk is a state machine: it names the next lookup it needs
//! ([`MissingEventsWalk::next_action`]) and takes its outcome back.
use vstd::prelude::*;
use vstd::string::*;
use crate::error::{Error, ErrorKind};
use crate::text::{seq_has, str_eq, vec_has};

verus! {

/// What the walk needs next.
#[derive(Debug, Clone, PartialEq, Eq)]
pub enum MissingEventsAction {
    /// Look the event up in the local timeline.
    Fetch(String),
    /// Ask whether the requesting server may see the event.
    CheckVisible(String),
    /// The walk is over; take the events.
    Done,
}

/// What a timeline lookup found.
pub enum FetchResult<E> {
    /// No such event here.
    Missing,
    /// The event, with the room id and `prev_events` read from it (`None`
    /// where the stored event lacks a valid field).
    Found { room_id: Option<String>, prev_events: Option<Vec<String>>, pdu: E },
}

/// The state of a walk.
pub struct MissingEventsWalk<E> {
    pub room_id: String,
    pub earliest: Vec<String>,
    pub limit: u64,
    pub queue: Vec<String>,
    pub next: usize,
    pub events: Vec<E>,
    /// The ids of the collected events, in the same order.
    pub event_ids: Vec<String>,
    /// The event under examination, waiting for the visibility answer, with
    /// its `prev_events` (`None` where the stored event lacks them).
    pub pending: Option<(Option<Vec<String>>, E)>,
}

impl<E> MissingEventsWalk<E> {
    /// The walk's invariant: the next position lies within the queue, at most
    /// `limit` events are collected, none of them one of the earliest events,
    /// and a pending event stands at the next position and is not one of the
    /// earliest events.
    pub open spec fn wf(&self) -> bool {
        &&& self.next <= self.queue@.len()
        &&& self.events@.len() <= self.limit
        &&& self.event_ids@.len() == self.events@.len()
        &&& forall|i: int|
            0 <= i < self.event_ids@.len() ==> !seq_has(self.earliest@, (#[trigger] self.event_ids@[i])@)
        &&& self.pending is Some ==> !seq_has(self.earliest@, self.queue@[self.next as int]@)
        &&& self.pending is Some ==> self.next < self.queue@.len() && self.events@.len()
            < self.limit
    }

    /// A walk from the latest events the requesting server has, stopping at
    /// the earliest events it has, collecting at most `limit` events.
    pub fn start(room_id: String, latest: Vec<String>, earliest: Vec<String>, limit: u64) -> (w: Self)
        ensures
            w.wf(),
            w.queue@ == latest@,
            w.next == 0,
            w.events@.len() == 0,
            w.event_ids@.len() == 0,
            w.pending is None,
            w.room_id == room_id,
            w.earliest == earliest,
            w.limit == limit,
    {
        MissingEventsWalk {
            room_id,
            earliest,
            limit,
            queue: latest,
            next: 0,
            events: Vec::new(),
            event_ids: Vec::new(),
            pending: None,
        }
    }

    /// What the walk needs next: the visibility of the pending event; else a
    /// lookup of the next queued event while fewer than `limit` events are
    /// collected; else nothing.
    pub fn next_action(&self) -> (a: MissingEventsAction)
        requires
            self.wf(),
        ensures
            self.pending is Some ==> (a matches MissingEventsAction::CheckVisible(id) && id@
                == self.queue@[self.next as int]@),
            self.pending is None && self.next < self.queue@.len() && self.events@.len()
                < self.limit ==> (a matches MissingEventsAction::Fetch(id) && id@
                == self.queue@[self.next as int]@),
            self.pending is None && !(self.next < self.queue@.len() && self.events@.len()
                < self.limit) ==> a == MissingEventsAction::Done,
    {
        if self.pending.is_some() {
            MissingEventsAction::CheckVisible(self.queue[self.next].clone())
        } else if self.next < self.queue.len() && (self.events.len() as u64) < self.limit {
            MissingEventsAction::Fetch(self.queue[self.next].clone())
        } else {
            MissingEventsAction::Done
        }
    }

    /// Takes the outcome of a lookup of the next queued event: a missing
    /// event is passed over; an event of another room, or one whose room id
    /// cannot be read, fails the request; one of the earliest events is
    /// passed over; any other waits for its visibility.
    pub fn on_fetched(&mut self, r: FetchResult<E>) -> (res: Result<(), Error>)
        requires
            old(self).wf(),
            old(self).pending is None,
            old(self).next < old(self).queue@.len(),
            old(self).events@.len() < old(self).limit,
        ensures
            final(self).wf(),
            final(self).queue == old(self).queue,
            final(self).events == old(self).events,
            final(self).event_ids == old(self).event_ids,
            final(self).room_id == old(self).room_id,
            final(self).earliest == old(self).earliest,
            final(self).limit == old(self).limit,
            match r {
                FetchResult::Missing => res is Ok && final(self).next == old(self).next + 1
                    && final(self).pending is None,
                FetchResult::Found { room_id, prev_events, pdu } => match room_id {
                    None => res matches Err(e) && e.kind == ErrorKind::BadDatabase && e.message@
                        == "Invalid event in database"@,
                    Some(rid) => if rid@ != old(self).room_id@ {
                        res matches Err(e) && e.kind == ErrorKind::InvalidParam && e.message@ == "Evil event detected"@
                    } else if seq_has(
                        old(self).earliest@,
                        old(self).queue@[old(self).next as int]@,
                    ) {
                        res is Ok && final(self).next == old(self).next + 1
                            && final(self).pending is None
                    } else {
                        res is Ok && final(self).next == old(self).next && final(self).pending
                            == Some((prev_events, pdu))
                    },
                },
            },
    {
        let qlen = self.queue.len();
        assert(self.next < qlen);
        match r {
            FetchResult::Missing => {
                self.next = self.next + 1;
                Ok(())
            },
            FetchResult::Found { room_id, prev_events, pdu } => {
                let rid = match room_id {
                    Some(rid) => rid,
                    None => {
                        return Err(Error::new(ErrorKind::BadDatabase, "Invalid event in database"));
                    },
                };
                if !str_eq(rid.as_str(), self.room_id.as_str()) {
                    return Err(Error::new(ErrorKind::InvalidParam, "Evil event detected"));
                }
                if vec_has(&self.earliest, self.queue[self.next].as_str()) {
                    self.next = self.next + 1;
                    return Ok(());
                }
                self.pending = Some((prev_events, pdu));
                Ok(())
            },
        }
    }

    /// Takes whether the requesting server may see the pending event: an
    /// event it may not see is passed over; a visible one is collected and
    /// its `prev_events` are queued, and fails the request where they cannot
    /// be read.
    pub fn on_visibility(&mut self, visible: bool) -> (res: Result<(), Error>)
        requires
            old(self).wf(),
            old(self).pending is Some,
        ensures
            final(self).wf(),
            final(self).room_id == old(self).room_id,
            final(self).earliest == old(self).earliest,
            final(self).limit == old(self).limit,
            match old(self).pending {
                Some((prev, pdu)) => if !visible {
                    &&& res is Ok
                    &&& final(self).pending is None
                    &&& final(self).next == old(self).next + 1
                    &&& final(self).queue@ == old(self).queue@
                    &&& final(self).events@ == old(self).events@
                    &&& final(self).event_ids@ == old(self).event_ids@
                } else {
                    match prev {
                        None => res matches Err(e) && e.kind == ErrorKind::BadDatabase && e.message@
                            == "Event in db has no prev_events field."@,
                        Some(p) => {
                            &&& res is Ok
                            &&& final(self).pending is None
                            &&& final(self).next == old(self).next + 1
                            &&& final(self).queue@ == old(self).queue@ + p@
                            &&& final(self).events@ == old(self).events@.push(pdu)
                            &&& final(self).event_ids@ == old(self).event_ids@.push(
                                old(self).queue@[old(self).next as int],
                            )
                        },
                    }
                },
                None => false,
            },
    {
        let qlen = self.queue.len();
        assert(self.next < qlen);
        let ghost ids0 = self.event_ids@;
        let ghost q0 = self.queue@;
        let p = self.pending.take();
        match p {
            Some((prev, pdu)) => {
                if visible {
                    match prev {
                        None => {
                            return Err(
                                Error::new(
                                    ErrorKind::BadDatabase,
                                    "Event in db has no prev_events field.",
                                ),
                            );
                        },
                        Some(prev) => {
                            let id = self.queue[self.next].clone();
                            let mut prev = prev;
                            self.queue.append(&mut prev);
                            self.events.push(pdu);
                            self.event_ids.push(id);
                            assert(q0[self.next as int] == self.queue@[self.next as int]);
                            assert forall|i: int| 0 <= i < self.event_ids@.len() implies !seq_has(
                                self.earliest@,
                                (#[trigger] self.event_ids@[i])@,
                            ) by {
                                if i < ids0.len() {
                                    assert(self.event_ids@[i] == ids0[i]);
                                }
                            }
                        },
                    }
                }
                self.next = self.next + 1;
                Ok(())
            },
            None => Ok(()),
        }
    }

    /// The events collected: at most `limit`, and none of them one of the
    /// earliest events.
    pub fn finish(self) -> (events: Vec<E>)
        requires
            self.wf(),
        ensures
            events@ == self.events@,
            events@.len() <= self.limit,
            events@.len() == self.event_ids@.len(),
            forall|i: int|
                0 <= i < self.event_ids@.len() ==> !seq_has(self.earliest@, (#[trigger] self.event_ids@[i])@),
    {
        self.events
    }
}

} // verus!
