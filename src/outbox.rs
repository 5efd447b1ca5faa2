use std::collections::VecDeque;
use vstd::prelude::*;
use crate::message::{Headers, Message, Route};

verus! {

/// A buffered envelope with the route it is to be published on.
#[derive(Clone, Debug)]
pub struct OutboxEntry {
    pub route: Route,
    pub message: Message,
}

/// The entry with its capture time replaced by `now`: replay rebases each
/// buffered envelope to the moment it is actually published.
pub open spec fn rebased(e: OutboxEntry, now: i64) -> OutboxEntry {
    OutboxEntry {
        route: e.route,
        message: Message { headers: Headers { timestamp: now }, payload: e.message.payload },
    }
}

/// The buffer after `e` is added as the newest entry; at capacity the oldest
/// entry makes room for it.
pub open spec fn pushed(q: Seq<OutboxEntry>, capacity: nat, e: OutboxEntry) -> Seq<OutboxEntry> {
    if q.len() < capacity {
        q.push(e)
    } else {
        q.drop_first().push(e)
    }
}

/// Bounded FIFO buffer of undelivered envelopes, oldest first, with a
/// drop-oldest policy when full.
pub struct Outbox {
    entries: VecDeque<OutboxEntry>,
    capacity: usize,
}

impl View for Outbox {
    type V = Seq<OutboxEntry>;

    closed spec fn view(&self) -> Seq<OutboxEntry> {
        self.entries@
    }
}

impl Outbox {
    pub closed spec fn capacity(&self) -> nat {
        self.capacity as nat
    }

    pub open spec fn wf(&self) -> bool {
        &&& self.capacity() > 0
        &&& self@.len() <= self.capacity()
    }

    pub fn new(capacity: usize) -> (r: Outbox)
        requires
            capacity > 0,
        ensures
            r.wf(),
            r@ == Seq::<OutboxEntry>::empty(),
            r.capacity() == capacity,
    {
        Outbox { entries: VecDeque::new(), capacity }
    }

    pub fn len(&self) -> (r: usize)
        ensures
            r == self@.len(),
    {
        self.entries.len()
    }

    /// Adds `e` as the newest entry and hands back the entry evicted to make
    /// room, if the buffer was full.
    pub fn push(&mut self, e: OutboxEntry) -> (evicted: Option<OutboxEntry>)
        requires
            old(self).wf(),
        ensures
            final(self).wf(),
            final(self).capacity() == old(self).capacity(),
            final(self)@ == pushed(old(self)@, old(self).capacity(), e),
            evicted == (if old(self)@.len() < old(self).capacity() {
                None
            } else {
                Some(old(self)@[0])
            }),
    {
        let mut evicted = None;
        if self.entries.len() >= self.capacity {
            evicted = self.entries.pop_front();
        }
        self.entries.push_back(e);
        evicted
    }

    /// The oldest entry, if any.
    pub fn oldest(&self) -> (r: Option<&OutboxEntry>)
        ensures
            match r {
                Some(e) => self@.len() > 0 && *e == self@[0],
                None => self@.len() == 0,
            },
    {
        if self.entries.len() == 0 {
            None
        } else {
            Some(&self.entries[0])
        }
    }

    /// Removes and returns the oldest entry.
    pub fn pop_oldest(&mut self) -> (r: Option<OutboxEntry>)
        requires
            old(self).wf(),
        ensures
            final(self).wf(),
            final(self).capacity() == old(self).capacity(),
            match r {
                Some(e) => old(self)@.len() > 0 && e == old(self)@[0] && final(self)@
                    == old(self)@.drop_first(),
                None => old(self)@.len() == 0 && final(self)@ == old(self)@,
            },
    {
        self.entries.pop_front()
    }

    /// Rebases the oldest entry's capture time to `now`.
    pub fn rebase_oldest(&mut self, now: i64)
        requires
            old(self).wf(),
        ensures
            final(self).wf(),
            final(self).capacity() == old(self).capacity(),
            final(self)@ == (if old(self)@.len() > 0 {
                old(self)@.update(0, rebased(old(self)@[0], now))
            } else {
                old(self)@
            }),
    {
        match self.entries.pop_front() {
            Some(mut e) => {
                e.message.headers.timestamp = now;
                self.entries.push_front(e);
                assert(self.entries@ =~= old(self)@.update(0, rebased(old(self)@[0], now)));
            },
            None => {},
        }
    }
}

} // verus!
