use vstd::prelude::*;
use crate::clock::local_now_seconds;
use crate::message::{payload_driver, Channel, Message, Route};
use crate::outbox::{pushed, rebased, Outbox, OutboxEntry};

verus! {

/// State of the uplink as the device sees it.
#[derive(Clone, Copy, Debug, PartialEq, Eq, Structural)]
pub enum LinkState {
    Disconnected,
    Connecting,
    Connected,
}

/// What the caller does after a connect attempt has finished.
#[derive(Clone, Copy, Debug, PartialEq, Eq, Structural)]
pub enum ConnectOutcome {
    /// The link is up: drain the outbox.
    Connected,
    /// The attempt failed: try again later.
    Retry,
    /// Too many consecutive attempts failed: restart the device.
    FatalRestart,
}

/// Abstract state of the link manager.
pub struct SolverView {
    pub link: LinkState,
    /// Buffered entries, oldest first.
    pub queue: Seq<OutboxEntry>,
    /// The newest durable submission, waiting for the buffer to drain.
    pub pending: Option<OutboxEntry>,
    pub capacity: nat,
    pub failed_attempts: nat,
    pub max_attempts: nat,
}

impl SolverView {
    pub open spec fn wf(self) -> bool {
        &&& self.capacity > 0
        &&& self.queue.len() <= self.capacity
        &&& self.max_attempts > 0
        &&& self.failed_attempts < self.max_attempts
        &&& (self.pending is Some ==> self.link == LinkState::Connected)
    }

    /// A durable submission: held back until the buffer is drained while the
    /// link is up, buffered (drop-oldest) otherwise.
    pub open spec fn submitted(self, e: OutboxEntry) -> SolverView {
        if self.link == LinkState::Connected {
            match self.pending {
                Some(p) => SolverView {
                    queue: pushed(self.queue, self.capacity, p),
                    pending: Some(e),
                    ..self
                },
                None => SolverView { pending: Some(e), ..self },
            }
        } else {
            SolverView { queue: pushed(self.queue, self.capacity, e), ..self }
        }
    }

    /// The entry to publish next: the oldest buffered one, then the pending one.
    pub open spec fn current(self) -> Option<OutboxEntry> {
        if self.link != LinkState::Connected {
            None
        } else if self.queue.len() > 0 {
            Some(self.queue[0])
        } else {
            self.pending
        }
    }

    /// Before a buffered entry is published its capture time is rebased to `now`.
    pub open spec fn prepared(self, now: i64) -> SolverView {
        if self.link == LinkState::Connected && self.queue.len() > 0 {
            SolverView { queue: self.queue.update(0, rebased(self.queue[0], now)), ..self }
        } else {
            self
        }
    }

    /// The current entry was published: it leaves the manager.
    pub open spec fn acknowledged(self) -> SolverView {
        if self.link != LinkState::Connected {
            self
        } else if self.queue.len() > 0 {
            SolverView { queue: self.queue.drop_first(), ..self }
        } else {
            SolverView { pending: None, ..self }
        }
    }

    /// A publish failed or the link dropped: draining stops and the pending
    /// submission goes into the buffer.
    pub open spec fn disconnected(self) -> SolverView {
        SolverView {
            link: LinkState::Disconnected,
            queue: match self.pending {
                Some(p) => pushed(self.queue, self.capacity, p),
                None => self.queue,
            },
            pending: None,
            ..self
        }
    }

    pub open spec fn connect_started(self) -> SolverView {
        if self.link == LinkState::Disconnected {
            SolverView { link: LinkState::Connecting, ..self }
        } else {
            self
        }
    }

    /// The result of a connect attempt. A failure counts towards the restart
    /// ceiling; a success clears the count.
    pub open spec fn connect_finished(self, ok: bool) -> SolverView {
        if ok {
            SolverView { link: LinkState::Connected, failed_attempts: 0, ..self }
        } else if self.failed_attempts + 1 >= self.max_attempts {
            SolverView { failed_attempts: 0, ..self.disconnected() }
        } else {
            SolverView { failed_attempts: self.failed_attempts + 1, ..self.disconnected() }
        }
    }

    pub open spec fn connect_outcome(self, ok: bool) -> ConnectOutcome {
        if ok {
            ConnectOutcome::Connected
        } else if self.failed_attempts + 1 >= self.max_attempts {
            ConnectOutcome::FatalRestart
        } else {
            ConnectOutcome::Retry
        }
    }
}

/// Device outbox and link manager: owns the bounded buffer, the link state and
/// the replay policy. The caller performs the uplink I/O and reports back.
pub struct Solver {
    link: LinkState,
    outbox: Outbox,
    pending: Option<OutboxEntry>,
    failed_attempts: u32,
    max_attempts: u32,
}

impl View for Solver {
    type V = SolverView;

    closed spec fn view(&self) -> SolverView {
        SolverView {
            link: self.link,
            queue: self.outbox@,
            pending: self.pending,
            capacity: self.outbox.capacity(),
            failed_attempts: self.failed_attempts as nat,
            max_attempts: self.max_attempts as nat,
        }
    }
}

impl Solver {
    pub closed spec fn wf(&self) -> bool {
        &&& self.outbox.wf()
        &&& self@.wf()
    }

    /// A manager with an empty buffer of `capacity` entries, link down, that
    /// asks for a restart after `max_attempts` consecutive failed connects.
    pub fn new(capacity: usize, max_attempts: u32) -> (r: Solver)
        requires
            capacity > 0,
            max_attempts > 0,
        ensures
            r.wf(),
            r@ == (SolverView {
                link: LinkState::Disconnected,
                queue: Seq::empty(),
                pending: None,
                capacity: capacity as nat,
                failed_attempts: 0,
                max_attempts: max_attempts as nat,
            }),
    {
        Solver {
            link: LinkState::Disconnected,
            outbox: Outbox::new(capacity),
            pending: None,
            failed_attempts: 0,
            max_attempts,
        }
    }

    pub fn link_state(&self) -> (r: LinkState)
        ensures
            r == self@.link,
    {
        self.link
    }

    pub fn buffered(&self) -> (r: usize)
        requires
            self.wf(),
        ensures
            r == self@.queue.len(),
            r <= self@.capacity,
    {
        self.outbox.len()
    }

    fn buffer_pending(&mut self)
        requires
            old(self).wf() || (old(self).outbox.wf() && old(self).pending is Some),
        ensures
            final(self).outbox.wf(),
            final(self).pending is None,
            final(self).link == old(self).link,
            final(self).failed_attempts == old(self).failed_attempts,
            final(self).max_attempts == old(self).max_attempts,
            final(self).outbox.capacity() == old(self).outbox.capacity(),
            final(self).outbox@ == match old(self).pending {
                Some(p) => pushed(old(self).outbox@, old(self).outbox.capacity(), p),
                None => old(self).outbox@,
            },
    {
        match self.pending.take() {
            Some(p) => {
                let _ = self.outbox.push(p);
            },
            None => {},
        }
    }

    /// Hands an envelope to the durable sink. It never blocks and never fails:
    /// with the link up it waits for the buffer to drain (the result is `true`:
    /// drain now), otherwise it is buffered.
    pub fn send_to_database(&mut self, message: Message) -> (drain: bool)
        requires
            old(self).wf(),
        ensures
            final(self).wf(),
            final(self)@ == old(self)@.submitted(
                OutboxEntry {
                    route: Route { channel: Channel::Durable, driver: payload_driver(message.payload) },
                    message,
                },
            ),
            drain == (old(self)@.link == LinkState::Connected),
    {
        let route = Route { channel: Channel::Durable, driver: message.payload.driver() };
        let e = OutboxEntry { route, message };
        if self.link == LinkState::Connected {
            self.buffer_pending();
            self.pending = Some(e);
            true
        } else {
            let _ = self.outbox.push(e);
            false
        }
    }

    /// The live route of an envelope when it can be published now; live
    /// envelopes are never buffered.
    pub fn send_to_socket(&self, message: &Message) -> (r: Option<Route>)
        ensures
            r == (if self@.link == LinkState::Connected {
                Some(Route { channel: Channel::Live, driver: payload_driver(message.payload) })
            } else {
                None
            }),
    {
        if self.link == LinkState::Connected {
            Some(Route { channel: Channel::Live, driver: message.payload.driver() })
        } else {
            None
        }
    }

    /// Readies the next entry to publish, rebasing a buffered one to `now`.
    /// `false` when there is nothing to publish or the link is not up.
    pub fn next_to_publish(&mut self, now: i64) -> (ready: bool)
        requires
            old(self).wf(),
        ensures
            final(self).wf(),
            final(self)@ == old(self)@.prepared(now),
            ready == old(self)@.current() is Some,
    {
        if self.link != LinkState::Connected {
            return false;
        }
        if self.outbox.len() > 0 {
            self.outbox.rebase_oldest(now);
            true
        } else {
            self.pending.is_some()
        }
    }

    /// `next_to_publish` at the device clock's current time.
    pub fn next_to_publish_now(&mut self) -> (ready: bool)
        requires
            old(self).wf(),
        ensures
            final(self).wf(),
            exists|now: i64| final(self)@ == old(self)@.prepared(now),
            ready == old(self)@.current() is Some,
    {
        let now = local_now_seconds();
        self.next_to_publish(now)
    }

    /// The entry to publish now.
    pub fn current(&self) -> (r: Option<&OutboxEntry>)
        requires
            self.wf(),
        ensures
            match r {
                Some(e) => self@.current() == Some(*e),
                None => self@.current() is None,
            },
    {
        if self.link != LinkState::Connected {
            return None;
        }
        match self.outbox.oldest() {
            Some(e) => Some(e),
            None => match &self.pending {
                Some(p) => Some(p),
                None => None,
            },
        }
    }

    /// The current entry was published.
    pub fn published(&mut self)
        requires
            old(self).wf(),
        ensures
            final(self).wf(),
            final(self)@ == old(self)@.acknowledged(),
    {
        if self.link != LinkState::Connected {
            return;
        }
        if self.outbox.len() > 0 {
            let _ = self.outbox.pop_oldest();
        } else {
            self.pending = None;
        }
    }

    /// A publish failed, or the transport reported the link lost.
    pub fn disconnected(&mut self)
        requires
            old(self).wf(),
        ensures
            final(self).wf(),
            final(self)@ == old(self)@.disconnected(),
    {
        self.buffer_pending();
        self.link = LinkState::Disconnected;
    }

    /// Starts a reconnect attempt; `true` when the caller should try to connect.
    pub fn start_connect(&mut self) -> (attempt: bool)
        requires
            old(self).wf(),
        ensures
            final(self).wf(),
            final(self)@ == old(self)@.connect_started(),
            attempt == (old(self)@.link == LinkState::Disconnected),
    {
        if self.link == LinkState::Disconnected {
            self.link = LinkState::Connecting;
            true
        } else {
            false
        }
    }

    /// Records the result of a connect attempt.
    pub fn connect_finished(&mut self, ok: bool) -> (r: ConnectOutcome)
        requires
            old(self).wf(),
        ensures
            final(self).wf(),
            final(self)@ == old(self)@.connect_finished(ok),
            r == old(self)@.connect_outcome(ok),
    {
        if ok {
            self.link = LinkState::Connected;
            self.failed_attempts = 0;
            ConnectOutcome::Connected
        } else {
            self.disconnected();
            if self.failed_attempts + 1 >= self.max_attempts {
                self.failed_attempts = 0;
                ConnectOutcome::FatalRestart
            } else {
                self.failed_attempts = self.failed_attempts + 1;
                ConnectOutcome::Retry
            }
        }
    }
}

/// The state after a run of durable submissions, in order.
pub open spec fn submit_all(v: SolverView, es: Seq<OutboxEntry>) -> SolverView
    decreases es.len(),
{
    if es.len() == 0 {
        v
    } else {
        submit_all(v, es.drop_last()).submitted(es.last())
    }
}

/// What `n` rounds of `next_to_publish`, `current` and `published` send, each
/// publish succeeding, and the state they leave.
pub open spec fn drain(v: SolverView, now: i64, n: nat) -> (Seq<OutboxEntry>, SolverView)
    decreases n,
{
    if n == 0 {
        (Seq::empty(), v)
    } else {
        let p = v.prepared(now);
        match p.current() {
            Some(e) => {
                let (rest, w) = drain(p.acknowledged(), now, (n - 1) as nat);
                (seq![e] + rest, w)
            },
            None => (Seq::empty(), p),
        }
    }
}

pub open spec fn rebased_all(q: Seq<OutboxEntry>, now: i64) -> Seq<OutboxEntry> {
    q.map_values(|x: OutboxEntry| rebased(x, now))
}

pub open spec fn option_seq(o: Option<OutboxEntry>) -> Seq<OutboxEntry> {
    match o {
        Some(e) => seq![e],
        None => Seq::empty(),
    }
}

proof fn lemma_submit_all_down(v: SolverView, es: Seq<OutboxEntry>)
    requires
        v.wf(),
        v.link != LinkState::Connected,
        v.queue.len() == 0,
    ensures
        submit_all(v, es) == (SolverView {
            queue: if es.len() <= v.capacity {
                es
            } else {
                es.subrange(es.len() - v.capacity, es.len() as int)
            },
            ..v
        }),
    decreases es.len(),
{
    if es.len() > 0 {
        let init = es.drop_last();
        lemma_submit_all_down(v, init);
        let q = submit_all(v, init).queue;
        if init.len() < v.capacity {
            assert(pushed(q, v.capacity, es.last()) =~= es);
        } else if init.len() == v.capacity {
            assert(pushed(q, v.capacity, es.last()) =~= es.subrange(
                es.len() - v.capacity,
                es.len() as int,
            ));
        } else {
            assert(pushed(q, v.capacity, es.last()) =~= es.subrange(
                es.len() - v.capacity,
                es.len() as int,
            ));
        }
    } else {
        assert(es =~= Seq::<OutboxEntry>::empty());
        assert(v.queue =~= es);
    }
}

proof fn lemma_drain(w: SolverView, now: i64)
    requires
        w.link == LinkState::Connected,
    ensures
        drain(w, now, w.queue.len() + 1).0 == rebased_all(w.queue, now) + option_seq(w.pending),
        drain(w, now, w.queue.len() + 1).1 == (SolverView {
            queue: Seq::empty(),
            pending: None,
            ..w
        }),
    decreases w.queue.len(),
{
    let n = w.queue.len() + 1;
    let p = w.prepared(now);
    if w.queue.len() > 0 {
        let a = p.acknowledged();
        assert(a.queue =~= w.queue.drop_first());
        lemma_drain(a, now);
        let (rest, _) = drain(a, now, a.queue.len() + 1);
        assert(seq![rebased(w.queue[0], now)] + rest =~= rebased_all(w.queue, now) + option_seq(
            w.pending,
        ));
        assert(a == SolverView { queue: w.queue.drop_first(), ..w });
    } else {
        assert(w.queue =~= Seq::<OutboxEntry>::empty());
        match w.pending {
            Some(e) => {
                assert(drain(p.acknowledged(), now, 0).0 =~= Seq::<OutboxEntry>::empty());
                assert(seq![e] + Seq::<OutboxEntry>::empty() =~= rebased_all(w.queue, now)
                    + option_seq(w.pending));
            },
            None => {
                assert(Seq::<OutboxEntry>::empty() =~= rebased_all(w.queue, now) + option_seq(
                    w.pending,
                ));
            },
        }
    }
}

/// Drop-oldest: of the envelopes submitted while the link is down, the buffer
/// keeps exactly the `capacity` most recent ones, oldest first, and once the
/// link is back up they are replayed in that order.
pub proof fn lemma_drop_oldest(v: SolverView, es: Seq<OutboxEntry>, now: i64)
    requires
        v.wf(),
        v.link != LinkState::Connected,
        v.queue.len() == 0,
        es.len() > v.capacity,
    ensures
        submit_all(v, es).queue == es.subrange(es.len() - v.capacity, es.len() as int),
        drain(submit_all(v, es).connect_finished(true), now, v.capacity + 1).0 == rebased_all(
            es.subrange(es.len() - v.capacity, es.len() as int),
            now,
        ),
{
    lemma_submit_all_down(v, es);
    let w = submit_all(v, es).connect_finished(true);
    lemma_drain(w, now);
    assert(rebased_all(w.queue, now) + option_seq(w.pending) =~= rebased_all(w.queue, now));
}

/// Replay order: envelopes submitted in order while the link is down are, once
/// it is back up, published in that same order (each rebased to the time of
/// publication), followed by the next submission; the buffer is then empty.
pub proof fn lemma_replay_order(v: SolverView, es: Seq<OutboxEntry>, e: OutboxEntry, now: i64)
    requires
        v.wf(),
        v.link != LinkState::Connected,
        v.queue.len() == 0,
        es.len() <= v.capacity,
    ensures
        ({
            let w = submit_all(v, es).connect_finished(true).submitted(e);
            &&& drain(w, now, es.len() + 1).0 == rebased_all(es, now).push(e)
            &&& drain(w, now, es.len() + 1).1.queue.len() == 0
            &&& drain(w, now, es.len() + 1).1.pending is None
        }),
{
    lemma_submit_all_down(v, es);
    let w = submit_all(v, es).connect_finished(true).submitted(e);
    assert(w.queue == es);
    lemma_drain(w, now);
    assert(rebased_all(es, now) + option_seq(w.pending) =~= rebased_all(es, now).push(e));
}

} // verus!
