//! A fair ticket lock: two counters, "next ticket" and "now serving".
//!
//! A caller draws the next ticket and is admitted once "now serving" reaches
//! it; dropping the guard advances "now serving" by one. Only a drawn ticket
//! can be admitted, and only once. The wait between drawing and admission is a
//! loop of `try_admit` calls run by the caller.
//! The protected value is reachable only through the guard, as a shared
//! reference: it carries its own interior mutability where it needs any.

use vstd::prelude::*;
use std::sync::atomic::{AtomicU32, Ordering};

verus! {

/// The two counters as plain values: a model of the protocol. The lemmas
/// below prove ticket order and the +1 release on this model; `TicketLock`
/// itself keeps the counters in atomics, whose values no contract here can
/// speak of, and is not verified against the model.
pub struct TicketCounters {
    pub next_ticket: u32,
    pub now_serving: u32,
}

impl TicketCounters {
    /// A fresh lock: no ticket drawn, ticket 0 served first.
    pub open spec fn fresh() -> TicketCounters {
        TicketCounters { next_ticket: 0, now_serving: 0 }
    }

    /// Drawing a ticket: the caller gets `next_ticket`, which advances by one.
    pub open spec fn draw(self) -> (TicketCounters, u32) {
        (
            TicketCounters {
                next_ticket: ((self.next_ticket + 1) % 0x1_0000_0000) as u32,
                now_serving: self.now_serving,
            },
            self.next_ticket,
        )
    }

    /// Releasing: "now serving" advances by exactly one.
    pub open spec fn release(self) -> TicketCounters {
        TicketCounters {
            next_ticket: self.next_ticket,
            now_serving: ((self.now_serving + 1) % 0x1_0000_0000) as u32,
        }
    }

    /// Whether the holder of `ticket` is admitted.
    pub open spec fn admits(self, ticket: u32) -> bool {
        self.now_serving == ticket
    }
}

/// The counters after `n` draws from `c`.
pub open spec fn after_draws(c: TicketCounters, n: nat) -> TicketCounters
    decreases n,
{
    if n == 0 {
        c
    } else {
        after_draws(c, (n - 1) as nat).draw().0
    }
}

/// The counters after `k` releases from `c`.
pub open spec fn after_releases(c: TicketCounters, k: nat) -> TicketCounters
    decreases k,
{
    if k == 0 {
        c
    } else {
        after_releases(c, (k - 1) as nat).release()
    }
}

/// On the model, tickets go out in arrival order: from a fresh lock, the `i`-th draw
/// (counting from 0) gets ticket `i`, whatever else interleaves with the
/// draws, since releases leave the ticket counter alone.
pub proof fn lemma_draws_in_order(n: nat)
    requires
        n < 0x1_0000_0000,
    ensures
        after_draws(TicketCounters::fresh(), n).next_ticket == n,
        after_draws(TicketCounters::fresh(), n).now_serving == 0,
        forall|i: nat| i < n ==> (#[trigger] after_draws(TicketCounters::fresh(), i)).draw().1 == i,
    decreases n,
{
    if n > 0 {
        lemma_draws_in_order((n - 1) as nat);
    }
}

/// On the model, admission follows ticket order: after `k` releases of a lock whose `n`
/// tickets (`k < n`) were drawn from fresh, "now serving" is `k`, so the
/// `k`-th caller to draw, and only that caller, is admitted.
pub proof fn lemma_admitted_in_ticket_order(n: nat, k: nat)
    requires
        n < 0x1_0000_0000,
        k < n,
    ensures
        after_releases(after_draws(TicketCounters::fresh(), n), k).now_serving == k,
        after_releases(after_draws(TicketCounters::fresh(), n), k).next_ticket == n,
        forall|t: u32|
            t < n ==> (after_releases(after_draws(TicketCounters::fresh(), n), k).admits(t) <==> t
                == k),
    decreases k,
{
    lemma_draws_in_order(n);
    if k > 0 {
        lemma_admitted_in_ticket_order(n, (k - 1) as nat);
    }
}

/// On the model, each release advances "now serving" by exactly one (modulo 2^32) and
/// leaves the ticket counter alone.
pub proof fn lemma_release_advances_by_one(c: TicketCounters)
    ensures
        c.release().now_serving == (c.now_serving + 1) % 0x1_0000_0000,
        c.release().next_ticket == c.next_ticket,
{
}

/// Relies on `AtomicU32::fetch_add` (release ordering): it adds one, wrapping,
/// and neither panics nor touches anything but the counter.
#[verifier::external_body]
fn advance_with_release(counter: &AtomicU32)
    opens_invariants none
    no_unwind
{
    counter.fetch_add(1, Ordering::Release);
}

struct AtomicTicketLockState {
    next_ticket: AtomicU32,
    current_ticket: AtomicU32,
}

impl AtomicTicketLockState {
    fn new(next: u32, current: u32) -> AtomicTicketLockState {
        AtomicTicketLockState { next_ticket: AtomicU32::new(next), current_ticket: AtomicU32::new(current) }
    }

    fn load_current_ticket(&self, order: Ordering) -> u32 {
        self.current_ticket.load(order)
    }

    /// Takes the next ticket: the counter's old value.
    fn fetch_my_ticket(&self, order: Ordering) -> u32 {
        self.next_ticket.fetch_add(1, order)
    }

    /// Advances "now serving"; only the holder calls it.
    fn release_ticket(&self)
        opens_invariants none
        no_unwind
    {
        advance_with_release(&self.current_ticket);
    }
}

pub struct TicketLock<T> {
    state: AtomicTicketLockState,
    data: T,
}

impl<T> TicketLock<T> {
    pub closed spec fn spec_data(&self) -> T {
        self.data
    }

    /// A free lock around `data`.
    pub fn new(data: T) -> (r: TicketLock<T>)
        ensures
            r.spec_data() == data,
    {
        TicketLock { state: AtomicTicketLockState::new(0, 0), data }
    }

    /// Draws the caller's ticket (relaxed ordering). The ticket is bound to
    /// this lock and is neither `Copy` nor `Clone`, so each drawn number
    /// yields at most one guard.
    pub fn draw_ticket(&self) -> (r: Ticket<'_, T>)
        ensures
            r.spec_data() == self.spec_data(),
    {
        let number = self.state.fetch_my_ticket(Ordering::Relaxed);
        Ticket { lock: self, number }
    }

    /// Advances "now serving" with release ordering; called once, by the
    /// guard's drop.
    fn unlock_internal(&self)
        opens_invariants none
        no_unwind
    {
        self.state.release_ticket();
    }
}

/// A drawn ticket: its number and the lock it was drawn from.
pub struct Ticket<'a, T> {
    lock: &'a TicketLock<T>,
    number: u32,
}

impl<'a, T> Ticket<'a, T> {
    pub closed spec fn spec_number(&self) -> u32 {
        self.number
    }

    pub closed spec fn spec_data(&self) -> T {
        self.lock.data
    }

    /// The ticket's number.
    pub fn number(&self) -> (r: u32)
        ensures
            r == self.spec_number(),
    {
        self.number
    }

    /// Turns the ticket into a guard when "now serving" (read with acquire
    /// ordering) has reached it; otherwise hands the ticket back. The guard is
    /// the holder's access, and its drop the one release.
    pub fn try_admit(self) -> (r: Result<TicketLockGuard<'a, T>, Ticket<'a, T>>)
        ensures
            r is Ok ==> r->Ok_0.spec_ticket() == self.spec_number() && r->Ok_0.spec_data()
                == self.spec_data(),
            r is Err ==> r->Err_0.spec_number() == self.spec_number() && r->Err_0.spec_data()
                == self.spec_data(),
    {
        if self.lock.state.load_current_ticket(Ordering::Acquire) == self.number {
            Ok(TicketLockGuard { lock: self.lock, ticket: self.number })
        } else {
            Err(self)
        }
    }
}

/// Access to a held ticket lock; dropping it releases the lock once.
pub struct TicketLockGuard<'a, T> {
    lock: &'a TicketLock<T>,
    ticket: u32,
}

impl<'a, T> TicketLockGuard<'a, T> {
    pub closed spec fn spec_ticket(&self) -> u32 {
        self.ticket
    }

    pub closed spec fn spec_data(&self) -> T {
        self.lock.data
    }

    /// The ticket this guard was admitted on.
    pub fn ticket(&self) -> (r: u32)
        ensures
            r == self.spec_ticket(),
    {
        self.ticket
    }

    /// The protected value.
    pub fn get(&self) -> (r: &T)
        ensures
            *r == self.spec_data(),
    {
        &self.lock.data
    }
}

impl<'a, T> Drop for TicketLockGuard<'a, T> {
    fn drop(&mut self)
        opens_invariants none
        no_unwind
    {
        self.lock.unlock_internal();
    }
}

} // verus!
