use vstd::prelude::*;
use crate::message::{driver_text, parse_driver, Driver};

verus! {

/// Relies on uuid's `Uuid::new_v4` and `Uuid::as_u128`: a random version-4
/// identifier. Nothing is stated of the value.
#[verifier::external_body]
fn random_session_id() -> u128 {
    uuid::Uuid::new_v4().as_u128()
}

/// Abstract state of the fan-out hub.
pub struct HubView {
    /// Open sessions.
    pub sessions: Seq<u128>,
    /// (session, driver) subscriptions, in the order they were made.
    pub subscriptions: Seq<(u128, Driver)>,
}

/// The sessions subscribed to `d`, in subscription order.
pub open spec fn recipients_of(subs: Seq<(u128, Driver)>, d: Driver) -> Seq<u128>
    decreases subs.len(),
{
    if subs.len() == 0 {
        Seq::empty()
    } else {
        let rest = recipients_of(subs.drop_last(), d);
        if subs.last().1 == d {
            rest.push(subs.last().0)
        } else {
            rest
        }
    }
}

/// The subscriptions that do not belong to session `s`.
pub open spec fn without_session(subs: Seq<(u128, Driver)>, s: u128) -> Seq<(u128, Driver)>
    decreases subs.len(),
{
    if subs.len() == 0 {
        Seq::empty()
    } else {
        let rest = without_session(subs.drop_last(), s);
        if subs.last().0 == s {
            rest
        } else {
            rest.push(subs.last())
        }
    }
}

pub open spec fn without_id(ids: Seq<u128>, s: u128) -> Seq<u128>
    decreases ids.len(),
{
    if ids.len() == 0 {
        Seq::empty()
    } else {
        let rest = without_id(ids.drop_last(), s);
        if ids.last() == s {
            rest
        } else {
            rest.push(ids.last())
        }
    }
}

impl HubView {
    pub open spec fn wf(self) -> bool {
        &&& self.sessions.no_duplicates()
        &&& self.subscriptions.no_duplicates()
        &&& forall|i: int|
            0 <= i < self.subscriptions.len() ==> self.sessions.contains(
                #[trigger] self.subscriptions[i].0,
            )
    }

    /// A subscription by an open session; subscribing twice changes nothing.
    pub open spec fn subscribed(self, s: u128, d: Driver) -> HubView {
        if self.sessions.contains(s) && !self.subscriptions.contains((s, d)) {
            HubView { subscriptions: self.subscriptions.push((s, d)), ..self }
        } else {
            self
        }
    }

    pub open spec fn closed(self, s: u128) -> HubView {
        HubView {
            sessions: without_id(self.sessions, s),
            subscriptions: without_session(self.subscriptions, s),
        }
    }
}

/// Fan-out hub: one topic per driver, any number of sessions per topic. A
/// topic without subscribers drops what is published to it.
pub struct Hub {
    sessions: Vec<u128>,
    subscriptions: Vec<(u128, Driver)>,
}

impl View for Hub {
    type V = HubView;

    closed spec fn view(&self) -> HubView {
        HubView { sessions: self.sessions@, subscriptions: self.subscriptions@ }
    }
}

proof fn lemma_without_id(ids: Seq<u128>, s: u128)
    ensures
        forall|x: u128| #[trigger] without_id(ids, s).contains(x) <==> (ids.contains(x) && x != s),
        ids.no_duplicates() ==> without_id(ids, s).no_duplicates(),
    decreases ids.len(),
{
    if ids.len() > 0 {
        let init = ids.drop_last();
        lemma_without_id(init, s);
        assert forall|x: u128| #[trigger] ids.contains(x) <==> (init.contains(x) || x == ids.last()) by {
            if ids.contains(x) {
                let i = choose|i: int| 0 <= i < ids.len() && ids[i] == x;
                if i < ids.len() - 1 {
                    assert(init[i] == x);
                }
            }
            if init.contains(x) {
                let i = choose|i: int| 0 <= i < init.len() && init[i] == x;
                assert(ids[i] == x);
            }
            if x == ids.last() {
                assert(ids[ids.len() - 1] == x);
            }
        }
        let rest = without_id(init, s);
        assert forall|x: u128| #[trigger] rest.push(ids.last()).contains(x) <==> (rest.contains(x) || x == ids.last()) by {
            if rest.push(ids.last()).contains(x) {
                let i = choose|i: int| 0 <= i < rest.push(ids.last()).len() && rest.push(ids.last())[i] == x;
                if i < rest.len() {
                    assert(rest[i] == x);
                }
            }
            if rest.contains(x) {
                let i = choose|i: int| 0 <= i < rest.len() && rest[i] == x;
                assert(rest.push(ids.last())[i] == x);
            }
            if x == ids.last() {
                assert(rest.push(ids.last())[rest.len() as int] == x);
            }
        }
        if ids.no_duplicates() {
            assert(init.no_duplicates()) by {
                assert forall|i: int, j: int| 0 <= i < init.len() && 0 <= j < init.len() && i != j implies init[i] != init[j] by {
                    assert(init[i] == ids[i] && init[j] == ids[j]);
                }
            }
            assert(!init.contains(ids.last())) by {
                if init.contains(ids.last()) {
                    let i = choose|i: int| 0 <= i < init.len() && init[i] == ids.last();
                    assert(ids[i] == ids[ids.len() - 1]);
                }
            }
            assert(!rest.contains(ids.last()));
            let pushed = rest.push(ids.last());
            assert(pushed.no_duplicates()) by {
                assert forall|i: int, j: int| 0 <= i < pushed.len() && 0 <= j < pushed.len() && i != j implies pushed[i] != pushed[j] by {
                    if i == rest.len() {
                        assert(pushed[j] == rest[j]);
                    } else if j == rest.len() {
                        assert(pushed[i] == rest[i]);
                    } else {
                        assert(pushed[i] == rest[i] && pushed[j] == rest[j]);
                    }
                }
            }
        }
    }
}

proof fn lemma_without_session(subs: Seq<(u128, Driver)>, s: u128)
    ensures
        forall|p: (u128, Driver)| #[trigger] without_session(subs, s).contains(p) <==> (subs.contains(p) && p.0 != s),
        subs.no_duplicates() ==> without_session(subs, s).no_duplicates(),
    decreases subs.len(),
{
    if subs.len() > 0 {
        let init = subs.drop_last();
        lemma_without_session(init, s);
        assert forall|p: (u128, Driver)| #[trigger] subs.contains(p) <==> (init.contains(p) || p == subs.last()) by {
            if subs.contains(p) {
                let i = choose|i: int| 0 <= i < subs.len() && subs[i] == p;
                if i < subs.len() - 1 {
                    assert(init[i] == p);
                }
            }
            if init.contains(p) {
                let i = choose|i: int| 0 <= i < init.len() && init[i] == p;
                assert(subs[i] == p);
            }
            if p == subs.last() {
                assert(subs[subs.len() - 1] == p);
            }
        }
        let rest = without_session(init, s);
        assert forall|p: (u128, Driver)| #[trigger] rest.push(subs.last()).contains(p) <==> (rest.contains(p) || p == subs.last()) by {
            if rest.push(subs.last()).contains(p) {
                let i = choose|i: int| 0 <= i < rest.push(subs.last()).len() && rest.push(subs.last())[i] == p;
                if i < rest.len() {
                    assert(rest[i] == p);
                }
            }
            if rest.contains(p) {
                let i = choose|i: int| 0 <= i < rest.len() && rest[i] == p;
                assert(rest.push(subs.last())[i] == p);
            }
            if p == subs.last() {
                assert(rest.push(subs.last())[rest.len() as int] == p);
            }
        }
        if subs.no_duplicates() {
            assert(init.no_duplicates()) by {
                assert forall|i: int, j: int| 0 <= i < init.len() && 0 <= j < init.len() && i != j implies init[i] != init[j] by {
                    assert(init[i] == subs[i] && init[j] == subs[j]);
                }
            }
            assert(!init.contains(subs.last())) by {
                if init.contains(subs.last()) {
                    let i = choose|i: int| 0 <= i < init.len() && init[i] == subs.last();
                    assert(subs[i] == subs[subs.len() - 1]);
                }
            }
            assert(!rest.contains(subs.last()));
            let pushed = rest.push(subs.last());
            assert(pushed.no_duplicates()) by {
                assert forall|i: int, j: int| 0 <= i < pushed.len() && 0 <= j < pushed.len() && i != j implies pushed[i] != pushed[j] by {
                    if i == rest.len() {
                        assert(pushed[j] == rest[j]);
                    } else if j == rest.len() {
                        assert(pushed[i] == rest[i]);
                    } else {
                        assert(pushed[i] == rest[i] && pushed[j] == rest[j]);
                    }
                }
            }
        }
    }
}

/// Fan-out isolation: a session receives what is published to a driver's topic
/// if and only if it is subscribed to that driver; a session subscribed only to
/// other drivers never sees it.
pub proof fn lemma_fanout_isolation(subs: Seq<(u128, Driver)>, d: Driver, s: u128)
    ensures
        recipients_of(subs, d).contains(s) <==> subs.contains((s, d)),
    decreases subs.len(),
{
    if subs.len() > 0 {
        let init = subs.drop_last();
        lemma_fanout_isolation(init, d, s);
        let rest = recipients_of(init, d);
        if subs.contains((s, d)) {
            let i = choose|i: int| 0 <= i < subs.len() && subs[i] == (s, d);
            if i < subs.len() - 1 {
                assert(init[i] == (s, d));
            }
        }
        if init.contains((s, d)) {
            let i = choose|i: int| 0 <= i < init.len() && init[i] == (s, d);
            assert(subs[i] == (s, d));
        }
        if subs.last().1 == d {
            if rest.push(subs.last().0).contains(s) {
                let i = choose|i: int| 0 <= i < rest.push(subs.last().0).len() && rest.push(subs.last().0)[i] == s;
                if i < rest.len() {
                    assert(rest[i] == s);
                } else {
                    assert(subs[subs.len() - 1] == (s, d));
                }
            }
            if rest.contains(s) {
                let i = choose|i: int| 0 <= i < rest.len() && rest[i] == s;
                assert(rest.push(subs.last().0)[i] == s);
            }
            if subs.last() == (s, d) {
                assert(rest.push(subs.last().0)[rest.len() as int] == s);
            }
        }
    }
}

impl Hub {
    pub closed spec fn wf(&self) -> bool {
        self@.wf()
    }

    pub fn new() -> (r: Hub)
        ensures
            r.wf(),
            r@.sessions.len() == 0,
            r@.subscriptions.len() == 0,
    {
        Hub { sessions: Vec::new(), subscriptions: Vec::new() }
    }

    fn is_open(&self, s: u128) -> (r: bool)
        ensures
            r == self@.sessions.contains(s),
    {
        let mut i: usize = 0;
        while i < self.sessions.len()
            invariant
                i <= self.sessions@.len(),
                forall|j: int| 0 <= j < i ==> self.sessions@[j] != s,
            decreases self.sessions@.len() - i,
        {
            if self.sessions[i] == s {
                return true;
            }
            i = i + 1;
        }
        false
    }

    fn is_subscribed(&self, s: u128, d: Driver) -> (r: bool)
        ensures
            r == self@.subscriptions.contains((s, d)),
    {
        let mut i: usize = 0;
        while i < self.subscriptions.len()
            invariant
                i <= self.subscriptions@.len(),
                forall|j: int| 0 <= j < i ==> self.subscriptions@[j] != (s, d),
            decreases self.subscriptions@.len() - i,
        {
            let (t, e) = self.subscriptions[i];
            if t == s && e == d {
                assert(self.subscriptions@[i as int] == (s, d));
                return true;
            }
            i = i + 1;
        }
        false
    }

    /// Opens a session under `id`; `false`, with nothing changed, when a
    /// session of that identifier is already open.
    pub fn open(&mut self, id: u128) -> (opened: bool)
        requires
            old(self).wf(),
        ensures
            final(self).wf(),
            opened == !old(self)@.sessions.contains(id),
            opened ==> final(self)@.sessions == old(self)@.sessions.push(id)
                && final(self)@.subscriptions == old(self)@.subscriptions,
            !opened ==> final(self)@ == old(self)@,
    {
        if self.is_open(id) {
            return false;
        }
        let ghost before = self@;
        self.sessions.push(id);
        assert forall|i: int| 0 <= i < self@.subscriptions.len() implies self@.sessions.contains(
            #[trigger] self@.subscriptions[i].0,
        ) by {
            let x = self@.subscriptions[i].0;
            assert(before.sessions.contains(x));
            let j = choose|j: int| 0 <= j < before.sessions.len() && before.sessions[j] == x;
            assert(self@.sessions[j] == x);
        }
        assert(self@.sessions.no_duplicates()) by {
            assert forall|i: int, j: int| 0 <= i < self@.sessions.len() && 0 <= j < self@.sessions.len() && i != j implies self@.sessions[i] != self@.sessions[j] by {
                if i == before.sessions.len() {
                    assert(!before.sessions.contains(id));
                    assert(before.sessions[j] == self@.sessions[j]);
                } else if j == before.sessions.len() {
                    assert(before.sessions[i] == self@.sessions[i]);
                }
            }
        }
        true
    }

    /// Opens a session under a fresh random identifier. `None` in the unlikely
    /// case that the identifier drawn is already open; nothing changes then,
    /// and that cannot happen on a hub without sessions.
    pub fn connect(&mut self) -> (r: Option<u128>)
        requires
            old(self).wf(),
        ensures
            final(self).wf(),
            final(self)@.subscriptions == old(self)@.subscriptions,
            match r {
                Some(s) => !old(self)@.sessions.contains(s) && final(self)@.sessions == old(
                    self,
                )@.sessions.push(s),
                None => final(self)@ == old(self)@,
            },
            r is None ==> old(self)@.sessions.len() > 0,
    {
        let s = random_session_id();
        if self.open(s) {
            Some(s)
        } else {
            None
        }
    }

    /// Subscribes an open session to a driver's topic; `false` when the
    /// session is not open.
    pub fn subscribe(&mut self, session: u128, driver: Driver) -> (r: bool)
        requires
            old(self).wf(),
        ensures
            final(self).wf(),
            final(self)@ == old(self)@.subscribed(session, driver),
            r == old(self)@.sessions.contains(session),
    {
        if !self.is_open(session) {
            return false;
        }
        if self.is_subscribed(session, driver) {
            return true;
        }
        let ghost before = self@;
        self.subscriptions.push((session, driver));
        assert forall|i: int| 0 <= i < self@.subscriptions.len() implies self@.sessions.contains(
            #[trigger] self@.subscriptions[i].0,
        ) by {
            if i < before.subscriptions.len() {
                assert(self@.subscriptions[i] == before.subscriptions[i]);
            }
        }
        assert(self@.subscriptions.no_duplicates()) by {
            assert forall|i: int, j: int| 0 <= i < self@.subscriptions.len() && 0 <= j < self@.subscriptions.len() && i != j implies self@.subscriptions[i] != self@.subscriptions[j] by {
                if i == before.subscriptions.len() {
                    assert(before.subscriptions[j] == self@.subscriptions[j]);
                } else if j == before.subscriptions.len() {
                    assert(before.subscriptions[i] == self@.subscriptions[i]);
                }
            }
        }
        true
    }

    /// A subscription frame from a session: its body is a bare driver name.
    /// Returns the driver subscribed to; an unknown name changes nothing.
    pub fn subscribe_frame(&mut self, session: u128, frame: &str) -> (r: Option<Driver>)
        requires
            old(self).wf(),
        ensures
            final(self).wf(),
            match r {
                Some(d) => frame@ == driver_text(d) && old(self)@.sessions.contains(session)
                    && final(self)@ == old(self)@.subscribed(session, d),
                None => final(self)@ == old(self)@ && (forall|d: Driver| frame@ != driver_text(d)
                    || !old(self)@.sessions.contains(session)),
            },
    {
        match parse_driver(frame) {
            Some(d) => {
                if self.subscribe(session, d) {
                    Some(d)
                } else {
                    None
                }
            },
            None => None,
        }
    }

    /// Closes a session and drops its subscriptions.
    pub fn close(&mut self, session: u128)
        requires
            old(self).wf(),
        ensures
            final(self).wf(),
            final(self)@ == old(self)@.closed(session),
    {
        let ghost before = self@;
        let mut sessions: Vec<u128> = Vec::new();
        let mut i: usize = 0;
        while i < self.sessions.len()
            invariant
                self@ == before,
                i <= self.sessions@.len(),
                sessions@ == without_id(self.sessions@.subrange(0, i as int), session),
            decreases self.sessions@.len() - i,
        {
            assert(self.sessions@.subrange(0, i as int + 1).drop_last() =~= self.sessions@.subrange(0, i as int));
            let x = self.sessions[i];
            if x != session {
                sessions.push(x);
            }
            i = i + 1;
        }
        assert(self.sessions@.subrange(0, i as int) =~= self.sessions@);
        let mut subscriptions: Vec<(u128, Driver)> = Vec::new();
        let mut k: usize = 0;
        while k < self.subscriptions.len()
            invariant
                self@ == before,
                k <= self.subscriptions@.len(),
                subscriptions@ == without_session(self.subscriptions@.subrange(0, k as int), session),
            decreases self.subscriptions@.len() - k,
        {
            assert(self.subscriptions@.subrange(0, k as int + 1).drop_last() =~= self.subscriptions@.subrange(0, k as int));
            let p = self.subscriptions[k];
            if p.0 != session {
                subscriptions.push(p);
            }
            k = k + 1;
        }
        assert(self.subscriptions@.subrange(0, k as int) =~= self.subscriptions@);
        self.sessions = sessions;
        self.subscriptions = subscriptions;
        proof {
            lemma_without_id(before.sessions, session);
            lemma_without_session(before.subscriptions, session);
            assert forall|i: int| 0 <= i < self@.subscriptions.len() implies self@.sessions.contains(
                #[trigger] self@.subscriptions[i].0,
            ) by {
                let p = self@.subscriptions[i];
                assert(self@.subscriptions.contains(p));
                assert(before.subscriptions.contains(p));
                let j = choose|j: int| 0 <= j < before.subscriptions.len() && before.subscriptions[j] == p;
                assert(before.sessions.contains(before.subscriptions[j].0));
            }
        }
    }

    /// The sessions to which a message on `driver`'s topic goes, in
    /// subscription order.
    pub fn recipients(&self, driver: Driver) -> (r: Vec<u128>)
        ensures
            r@ == recipients_of(self@.subscriptions, driver),
    {
        let mut r: Vec<u128> = Vec::new();
        let mut i: usize = 0;
        while i < self.subscriptions.len()
            invariant
                i <= self.subscriptions@.len(),
                r@ == recipients_of(self.subscriptions@.subrange(0, i as int), driver),
            decreases self.subscriptions@.len() - i,
        {
            assert(self.subscriptions@.subrange(0, i as int + 1).drop_last() =~= self.subscriptions@.subrange(0, i as int));
            let (s, d) = self.subscriptions[i];
            if d == driver {
                r.push(s);
            }
            i = i + 1;
        }
        assert(self.subscriptions@.subrange(0, i as int) =~= self.subscriptions@);
        r
    }
}

} // verus!
