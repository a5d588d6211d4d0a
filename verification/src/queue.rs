//! Admission: how many requests may be under way for one backend, and how
//! long a request may wait for its turn.
//!
//! A queue holds a ticket for each request that was let in and is not done
//! yet, oldest first. The oldest is the one whose turn it is. Time is a
//! count of milliseconds that the caller supplies.

use vstd::prelude::*;
use vstd::string::StringExecFns;
use crate::config::QueueConfig;
use crate::error::{Error, ErrorView};

verus! {

/// A request's place in a queue.
#[derive(Clone, Copy, Debug, PartialEq, Eq, Structural, Hash)]
pub struct AdmissionTicket {
    /// The number of the ticket; no two tickets of a queue have the same.
    pub id: u64,
    /// The time after which the request has waited too long.
    pub deadline: u64,
}

/// What a waiting request is told when it asks.
#[derive(Clone, Copy, Debug, PartialEq, Eq, Structural)]
pub enum Admission {
    /// It is the request's turn.
    Proceed,
    /// Earlier requests are still under way.
    Wait,
}

/// The admission queue of one backend.
#[derive(Debug)]
pub struct AdmissionQueue {
    capacity: usize,
    timeout: u64,
    outstanding: Vec<AdmissionTicket>,
    issued: u64,
}

/// A queue as a value of mathematics.
pub struct QueueView {
    /// How many tickets may be outstanding.
    pub capacity: usize,
    /// How many milliseconds a request may wait.
    pub timeout: u64,
    /// The outstanding tickets, oldest first.
    pub outstanding: Seq<AdmissionTicket>,
    /// How many tickets the queue has issued.
    pub issued: u64,
}

/// The time that lies `timeout` after `now`, or the end of time where
/// that is sooner.
pub open spec fn deadline_after(now: u64, timeout: u64) -> u64 {
    if now + timeout > u64::MAX {
        u64::MAX
    } else {
        (now + timeout) as u64
    }
}

impl QueueView {
    /// No more tickets are outstanding than the capacity allows, each has
    /// a number that was issued, and no two have the same.
    pub open spec fn wf(self) -> bool {
        &&& self.outstanding.len() <= self.capacity
        &&& forall|i: int|
            0 <= i < self.outstanding.len() ==> (#[trigger] self.outstanding[i]).id < self.issued
        &&& forall|i: int, j: int|
            0 <= i < j < self.outstanding.len() ==> (#[trigger] self.outstanding[i]).id != (
            #[trigger] self.outstanding[j]).id
    }

    /// Whether the queue lets no request in: it holds as many tickets as it
    /// may, or has run out of ticket numbers.
    pub open spec fn is_full(self) -> bool {
        self.outstanding.len() >= self.capacity || self.issued == u64::MAX
    }

    /// The ticket that a request gets that comes at the time `now`.
    pub open spec fn next_ticket(self, now: u64) -> AdmissionTicket {
        AdmissionTicket { id: self.issued, deadline: deadline_after(now, self.timeout) }
    }

    /// The queue after a request has come at the time `now`: as before
    /// where it is full, else with the new ticket behind the others.
    pub open spec fn enqueued(self, now: u64) -> QueueView {
        if self.is_full() {
            self
        } else {
            QueueView {
                outstanding: self.outstanding.push(self.next_ticket(now)),
                issued: (self.issued + 1) as u64,
                ..self
            }
        }
    }

    /// `i` is the place of the ticket with the number `id`.
    pub open spec fn is_place_of(self, id: u64, i: int) -> bool {
        0 <= i < self.outstanding.len() && self.outstanding[i].id == id
    }

    /// Whether the ticket with the number `id` is outstanding.
    pub open spec fn holds(self, id: u64) -> bool {
        exists|i: int| self.is_place_of(id, i)
    }

    /// The place of the ticket with the number `id`.
    pub open spec fn place_of(self, id: u64) -> int {
        choose|i: int| self.is_place_of(id, i)
    }

    /// Whether the ticket with the number `id` has waited too long at the
    /// time `now`: it is outstanding, it is not its turn, and its deadline
    /// has passed.
    pub open spec fn times_out(self, id: u64, now: u64) -> bool {
        self.holds(id) && self.place_of(id) > 0 && now > self.outstanding[self.place_of(id)].deadline
    }

    /// The queue without the ticket with the number `id`.
    pub open spec fn released(self, id: u64) -> QueueView {
        if self.holds(id) {
            QueueView { outstanding: self.outstanding.remove(self.place_of(id)), ..self }
        } else {
            self
        }
    }

    /// The queue after the ticket with the number `id` has asked at the
    /// time `now`: without the ticket where it has waited too long, else
    /// as before.
    pub open spec fn polled(self, id: u64, now: u64) -> QueueView {
        if self.times_out(id, now) {
            self.released(id)
        } else {
            self
        }
    }
}

/// In a well-formed queue a ticket has one place only.
pub proof fn lemma_place_unique(q: QueueView, id: u64, i: int)
    requires
        q.wf(),
        q.is_place_of(id, i),
    ensures
        q.holds(id),
        q.place_of(id) == i,
{
    let p = q.place_of(id);
    assert(q.is_place_of(id, p));
    if p < i {
        assert(q.outstanding[p].id != q.outstanding[i].id);
    } else if i < p {
        assert(q.outstanding[i].id != q.outstanding[p].id);
    }
}

/// Taking a ticket out leaves a well-formed queue well-formed, with one
/// ticket less.
pub proof fn lemma_released_wf(q: QueueView, id: u64)
    requires
        q.wf(),
        q.holds(id),
    ensures
        q.released(id).wf(),
        q.released(id).outstanding.len() == q.outstanding.len() - 1,
        !q.released(id).holds(id),
{
    let p = q.place_of(id);
    assert(q.is_place_of(id, p));
    let after = q.released(id);
    assert forall|i: int| 0 <= i < after.outstanding.len() implies (
    #[trigger] after.outstanding[i]).id < after.issued && after.outstanding[i].id != id by {
        if i < p {
            assert(after.outstanding[i] == q.outstanding[i]);
        } else {
            assert(after.outstanding[i] == q.outstanding[i + 1]);
        }
    }
    assert forall|i: int, j: int| 0 <= i < j < after.outstanding.len() implies (
    #[trigger] after.outstanding[i]).id != (#[trigger] after.outstanding[j]).id by {
        let a = if i < p {
            i
        } else {
            i + 1
        };
        let b = if j < p {
            j
        } else {
            j + 1
        };
        assert(after.outstanding[i] == q.outstanding[a]);
        assert(after.outstanding[j] == q.outstanding[b]);
    }
    if after.holds(id) {
        let i = after.place_of(id);
        assert(after.is_place_of(id, i));
    }
}

impl View for AdmissionQueue {
    type V = QueueView;

    closed spec fn view(&self) -> QueueView {
        QueueView {
            capacity: self.capacity,
            timeout: self.timeout,
            outstanding: self.outstanding@,
            issued: self.issued,
        }
    }
}

impl AdmissionQueue {
    /// An empty queue with the given limits.
    pub fn new(config: QueueConfig) -> (queue: AdmissionQueue)
        ensures
            queue@.wf(),
            queue@ == (QueueView {
                capacity: config.spec_capacity(),
                timeout: config.spec_timeout(),
                outstanding: Seq::empty(),
                issued: 0,
            }),
    {
        AdmissionQueue {
            capacity: config.capacity(),
            timeout: config.timeout(),
            outstanding: Vec::new(),
            issued: 0,
        }
    }

    /// How many tickets are outstanding.
    pub fn len(&self) -> (n: usize)
        ensures
            n == self@.outstanding.len(),
    {
        self.outstanding.len()
    }

    /// Lets a request in that comes at the time `now`. A queue that is
    /// full sheds the request with `Overloaded` and stays as it is. Else
    /// the request gets a ticket, whose deadline lies the queue's timeout
    /// after `now`, behind those that are outstanding.
    pub fn enqueue(&mut self, now: u64) -> (let_in: Result<AdmissionTicket, Error>)
        requires
            old(self)@.wf(),
        ensures
            final(self)@.wf(),
            final(self)@ == old(self)@.enqueued(now),
            match let_in {
                Ok(ticket) => !old(self)@.is_full() && ticket == old(self)@.next_ticket(now),
                Err(e) => old(self)@.is_full() && e@ == ErrorView::Overloaded,
            },
    {
        if self.outstanding.len() >= self.capacity || self.issued == u64::MAX {
            return Err(Error::Overloaded);
        }
        let deadline = now.saturating_add(self.timeout);
        let ticket = AdmissionTicket { id: self.issued, deadline };
        self.outstanding.push(ticket);
        self.issued = self.issued + 1;
        Ok(ticket)
    }

    /// The place of the ticket with the number `id`.
    fn position(&self, id: u64) -> (place: Option<usize>)
        requires
            self@.wf(),
        ensures
            match place {
                Some(i) => self@.holds(id) && self@.place_of(id) == i && i
                    < self@.outstanding.len(),
                None => !self@.holds(id),
            },
    {
        let mut i: usize = 0;
        while i < self.outstanding.len()
            invariant
                self@.wf(),
                i <= self.outstanding@.len(),
                forall|j: int| 0 <= j < i ==> self.outstanding@[j].id != id,
            decreases self.outstanding@.len() - i,
        {
            if self.outstanding[i].id == id {
                proof {
                    lemma_place_unique(self@, id, i as int);
                }
                return Some(i);
            }
            i += 1;
        }
        proof {
            if self@.holds(id) {
                let p = self@.place_of(id);
                assert(self@.is_place_of(id, p));
            }
        }
        None
    }

    /// Answers a waiting request at the time `now`. The oldest
    /// outstanding ticket may proceed. A later one whose deadline has
    /// passed fails with `FailFast` and leaves the queue; one whose
    /// deadline has not passed is to wait. A ticket that is not
    /// outstanding is answered with `Unexpected`.
    pub fn poll(&mut self, ticket: &AdmissionTicket, now: u64) -> (answer: Result<
        Admission,
        Error,
    >)
        requires
            old(self)@.wf(),
        ensures
            final(self)@.wf(),
            final(self)@ == old(self)@.polled(ticket.id, now),
            match answer {
                Ok(Admission::Proceed) => old(self)@.holds(ticket.id) && old(self)@.place_of(
                    ticket.id,
                ) == 0,
                Ok(Admission::Wait) => old(self)@.holds(ticket.id) && old(self)@.place_of(
                    ticket.id,
                ) > 0 && !old(self)@.times_out(ticket.id, now),
                Err(e) => if old(self)@.holds(ticket.id) {
                    old(self)@.times_out(ticket.id, now) && e@ == ErrorView::FailFast
                } else {
                    e@ == ErrorView::Unexpected("unknown admission ticket"@)
                },
            },
    {
        match self.position(ticket.id) {
            None => Err(Error::Unexpected(String::from_str("unknown admission ticket"))),
            Some(place) => {
                if place == 0 {
                    Ok(Admission::Proceed)
                } else if now > self.outstanding[place].deadline {
                    proof {
                        lemma_released_wf(self@, ticket.id);
                    }
                    let _ = self.outstanding.remove(place);
                    Err(Error::FailFast)
                } else {
                    Ok(Admission::Wait)
                }
            },
        }
    }

    /// Takes the ticket out of the queue, so that the next may proceed.
    /// Hands back whether the ticket was outstanding.
    pub fn release(&mut self, ticket: &AdmissionTicket) -> (was_held: bool)
        requires
            old(self)@.wf(),
        ensures
            final(self)@.wf(),
            final(self)@ == old(self)@.released(ticket.id),
            was_held == old(self)@.holds(ticket.id),
    {
        match self.position(ticket.id) {
            None => false,
            Some(place) => {
                proof {
                    lemma_released_wf(self@, ticket.id);
                }
                let _ = self.outstanding.remove(place);
                true
            },
        }
    }
}

/// The queue after requests have come at the times `nows`, one after the
/// other, and none has left.
pub open spec fn after_arrivals(q: QueueView, nows: Seq<u64>) -> QueueView
    decreases nows.len(),
{
    if nows.len() == 0 {
        q
    } else {
        after_arrivals(q, nows.drop_last()).enqueued(nows.last())
    }
}

/// Whether the request that comes as number `k` of `nows` is shed.
pub open spec fn is_shed(q: QueueView, nows: Seq<u64>, k: int) -> bool {
    after_arrivals(q, nows.take(k)).is_full()
}

/// Letting a request in or shedding it leaves a well-formed queue
/// well-formed.
pub proof fn lemma_enqueued_wf(q: QueueView, now: u64)
    requires
        q.wf(),
    ensures
        q.enqueued(now).wf(),
{
}

/// While an empty queue has room, every arrival is let in: after `n`
/// arrivals, `n` not above the capacity, it holds `n` tickets.
pub proof fn lemma_arrivals_fill(q: QueueView, nows: Seq<u64>)
    requires
        q.wf(),
        q.outstanding.len() == 0,
        nows.len() <= q.capacity,
        q.issued + nows.len() <= u64::MAX,
    ensures
        after_arrivals(q, nows).wf(),
        after_arrivals(q, nows).outstanding.len() == nows.len(),
        after_arrivals(q, nows).issued == q.issued + nows.len(),
        after_arrivals(q, nows).capacity == q.capacity,
    decreases nows.len(),
{
    if nows.len() > 0 {
        lemma_arrivals_fill(q, nows.drop_last());
        lemma_enqueued_wf(after_arrivals(q, nows.drop_last()), nows.last());
    }
}

/// Of one request more than the capacity, arriving at an empty queue with
/// none leaving, exactly one is shed: the last, which finds the queue
/// full. All before it are let in.
pub proof fn law_one_over_capacity_sheds_one(q: QueueView, nows: Seq<u64>)
    requires
        q.wf(),
        q.outstanding.len() == 0,
        nows.len() == q.capacity + 1,
        q.issued + nows.len() <= u64::MAX,
    ensures
        forall|k: int| 0 <= k < q.capacity ==> !is_shed(q, nows, k),
        is_shed(q, nows, q.capacity as int),
        after_arrivals(q, nows).outstanding.len() == q.capacity,
{
    assert forall|k: int| 0 <= k <= q.capacity implies after_arrivals(
        q,
        nows.take(k),
    ).outstanding.len() == k && after_arrivals(q, nows.take(k)).capacity == q.capacity
        && after_arrivals(q, nows.take(k)).issued == q.issued + k by {
        lemma_arrivals_fill(q, nows.take(k));
    }
    assert(nows.drop_last() =~= nows.take(q.capacity as int));
}

/// A request that has waited beyond its deadline while it was not its
/// turn fails with a timeout and gives up its place: the queue then holds
/// one ticket less, and so has room for another request.
pub proof fn law_timed_out_ticket_leaves(q: QueueView, id: u64, now: u64)
    requires
        q.wf(),
        q.times_out(id, now),
    ensures
        q.polled(id, now).wf(),
        q.polled(id, now).outstanding.len() == q.outstanding.len() - 1,
        !q.polled(id, now).holds(id),
        q.issued < u64::MAX ==> !q.polled(id, now).is_full(),
{
    lemma_released_wf(q, id);
}

} // verus!
