//! The dispatcher of one virtio queue.
//!
//! The queue has one owner. It pops what is available, runs a lone request on
//! an otherwise idle queue itself, fans everything else out to a worker pool,
//! and is the only place where a request is completed. On stop it pops nothing
//! more, waits for what is in flight, and only then gives the queue back, so
//! that no descriptor is lost.
//!
//! Popping, running, completing and polling are done by the caller: the
//! dispatcher says what to do next ([`Action`]) and is told what came of it
//! ([`Event`]).

use std::collections::VecDeque;
use vstd::multiset::Multiset;
use vstd::prelude::*;

verus! {

/// What the dispatcher waits to be told.
#[derive(Clone, Copy, Debug, PartialEq, Eq, Structural)]
pub enum Awaiting {
    /// What the queue had to offer.
    Next,
    /// That the size of the batch was recorded.
    Recorded,
    /// The end of the request that runs inline.
    Inline,
    /// That the inline request was completed on the queue.
    InlineCompleted,
    /// That a request went to the pool.
    Submitted,
    /// Whether the pool has finished a request.
    Done,
    /// That a request from the pool was completed on the queue.
    DoneCompleted,
    /// Whether a stop was asked for.
    Stop,
    /// Whether the guest kicked the queue.
    Kick,
    /// The next wake-up.
    Wake,
    /// Nothing: the queue was given back.
    Nothing,
}

/// What came of an action.
pub enum Event<W> {
    Popped(W),
    QueueEmpty,
    QueueError,
    Recorded,
    /// The inline request ran, with this many reply bytes.
    Ran(W, u32),
    Submitted,
    Completed,
    /// The pool finished a request, with this many reply bytes.
    Done(W, u32),
    NotDone,
    Stop,
    NoStop,
    Kick,
    NoKick,
    Woken,
}

/// What the caller is to do next.
pub enum Action<W> {
    /// Pop the next request.
    TryNext,
    /// Record that a batch of this size was popped.
    RecordPop(usize),
    /// Run this request here.
    RunInline(W),
    /// Hand this request to the pool.
    Submit(W),
    /// Complete this request on the queue, with this many reply bytes.
    Complete(W, u32),
    /// Look for a finished request.
    PollDone,
    /// Look for a stop request.
    PollStop,
    /// Look for a kick, and ask to be woken by the next one.
    PollKick,
    /// Sleep until woken.
    Suspend,
    /// Give the queue back.
    Return,
}

/// The state of a dispatcher.
#[verifier::ext_equal]
pub struct DispatchState<W> {
    /// Requests that were handed to the pool and have not been completed.
    pub inflight: nat,
    /// Requests that were popped and have not been dispatched.
    pub batch: Seq<W>,
    pub stopping: bool,
    pub failed: bool,
    /// Whether this poll pass has got anywhere.
    pub progressed: bool,
    pub awaiting: Awaiting,
}

impl<W> DispatchState<W> {
    /// A request of the pool that is being completed is still in flight.
    pub open spec fn wf(self) -> bool {
        self.awaiting == Awaiting::DoneCompleted ==> self.inflight > 0
    }
}

/// `e` is an answer to what is awaited.
pub open spec fn fits<W>(awaiting: Awaiting, e: Event<W>) -> bool {
    match awaiting {
        Awaiting::Next => e is Popped || e is QueueEmpty || e is QueueError,
        Awaiting::Recorded => e is Recorded,
        Awaiting::Inline => e is Ran,
        Awaiting::InlineCompleted => e is Completed,
        Awaiting::Submitted => e is Submitted,
        Awaiting::Done => e is Done || e is NotDone,
        Awaiting::DoneCompleted => e is Completed,
        Awaiting::Stop => e is Stop || e is NoStop,
        Awaiting::Kick => e is Kick || e is NoKick,
        Awaiting::Wake => e is Woken,
        Awaiting::Nothing => false,
    }
}

/// Submits the rest of the batch; then gives the queue back, if a stop was asked
/// for and nothing is in flight, or starts a poll pass.
pub open spec fn fan_out<W>(s: DispatchState<W>) -> (DispatchState<W>, Action<W>) {
    if s.batch.len() > 0 {
        (
            DispatchState {
                inflight: s.inflight + 1,
                batch: s.batch.drop_first(),
                awaiting: Awaiting::Submitted,
                ..s
            },
            Action::Submit(s.batch[0]),
        )
    } else if s.stopping && s.inflight == 0 {
        (DispatchState { awaiting: Awaiting::Nothing, ..s }, Action::Return)
    } else {
        (DispatchState { progressed: false, awaiting: Awaiting::Done, ..s }, Action::PollDone)
    }
}

/// A lone request on an otherwise idle queue runs inline; anything else is
/// fanned out.
pub open spec fn dispatch<W>(s: DispatchState<W>) -> (DispatchState<W>, Action<W>) {
    if s.inflight == 0 && s.batch.len() == 1 {
        (
            DispatchState { batch: Seq::empty(), awaiting: Awaiting::Inline, ..s },
            Action::RunInline(s.batch[0]),
        )
    } else {
        fan_out(s)
    }
}

/// The queue has been drained: a batch is recorded, then dispatched.
pub open spec fn drained<W>(s: DispatchState<W>) -> (DispatchState<W>, Action<W>) {
    if s.batch.len() > 0 {
        (
            DispatchState { awaiting: Awaiting::Recorded, ..s },
            Action::RecordPop(s.batch.len() as usize),
        )
    } else {
        dispatch(s)
    }
}

/// A new round: drain the queue, unless a stop was asked for or it has failed.
pub open spec fn round<W>(s: DispatchState<W>) -> (DispatchState<W>, Action<W>) {
    if !s.stopping && !s.failed {
        (DispatchState { awaiting: Awaiting::Next, ..s }, Action::TryNext)
    } else {
        dispatch(s)
    }
}

/// A poll pass ends: with progress a new round starts, without it the dispatcher
/// sleeps.
pub open spec fn settle<W>(s: DispatchState<W>) -> (DispatchState<W>, Action<W>) {
    if s.progressed {
        round(s)
    } else {
        (DispatchState { awaiting: Awaiting::Wake, ..s }, Action::Suspend)
    }
}

/// Completions and stop have been polled: the kick is polled too, unless nothing
/// new will be popped.
pub open spec fn polled<W>(s: DispatchState<W>) -> (DispatchState<W>, Action<W>) {
    if s.stopping || s.failed {
        settle(s)
    } else {
        (DispatchState { awaiting: Awaiting::Kick, ..s }, Action::PollKick)
    }
}

/// What the dispatcher does when told `e`.
pub open spec fn next<W>(s: DispatchState<W>, e: Event<W>) -> (DispatchState<W>, Action<W>) {
    match e {
        Event::Popped(w) => (DispatchState { batch: s.batch.push(w), ..s }, Action::TryNext),
        Event::QueueEmpty => drained(s),
        Event::QueueError => drained(DispatchState { failed: true, ..s }),
        Event::Recorded => dispatch(s),
        Event::Ran(w, bytes) => (
            DispatchState { awaiting: Awaiting::InlineCompleted, ..s },
            Action::Complete(w, bytes),
        ),
        Event::Submitted => fan_out(s),
        Event::Completed => if s.awaiting == Awaiting::InlineCompleted {
            round(s)
        } else {
            (
                DispatchState {
                    inflight: (s.inflight - 1) as nat,
                    progressed: true,
                    awaiting: Awaiting::Done,
                    ..s
                },
                Action::PollDone,
            )
        },
        Event::Done(w, bytes) => (
            DispatchState { awaiting: Awaiting::DoneCompleted, ..s },
            Action::Complete(w, bytes),
        ),
        Event::NotDone => if s.stopping {
            polled(s)
        } else {
            (DispatchState { awaiting: Awaiting::Stop, ..s }, Action::PollStop)
        },
        Event::Stop => polled(DispatchState { stopping: true, progressed: true, ..s }),
        Event::NoStop => polled(s),
        Event::Kick => round(s),
        Event::NoKick => settle(s),
        Event::Woken => (
            DispatchState { progressed: false, awaiting: Awaiting::Done, ..s },
            Action::PollDone,
        ),
    }
}

/// The state of a dispatcher that has not done anything yet.
pub open spec fn fresh<W>() -> DispatchState<W> {
    DispatchState {
        inflight: 0,
        batch: Seq::empty(),
        stopping: false,
        failed: false,
        progressed: false,
        awaiting: Awaiting::Next,
    }
}

/// The dispatcher of one queue, over requests of type `W`.
pub struct Dispatcher<W> {
    inflight: usize,
    batch: VecDeque<W>,
    stopping: bool,
    failed: bool,
    progressed: bool,
    awaiting: Awaiting,
}

impl<W> View for Dispatcher<W> {
    type V = DispatchState<W>;

    closed spec fn view(&self) -> DispatchState<W> {
        DispatchState {
            inflight: self.inflight as nat,
            batch: self.batch@,
            stopping: self.stopping,
            failed: self.failed,
            progressed: self.progressed,
            awaiting: self.awaiting,
        }
    }
}

impl<W> Dispatcher<W> {
    /// A dispatcher that has popped nothing, and its first action: to pop.
    pub fn new() -> (r: (Dispatcher<W>, Action<W>))
        ensures
            r.0@.wf(),
            r.0@ == fresh::<W>(),
            r.1 == Action::<W>::TryNext,
    {
        let d = Dispatcher {
            inflight: 0,
            batch: VecDeque::new(),
            stopping: false,
            failed: false,
            progressed: false,
            awaiting: Awaiting::Next,
        };
        assert(d@ =~= fresh::<W>());
        (d, Action::TryNext)
    }

    /// How many requests are with the pool.
    pub fn inflight(&self) -> (n: usize)
        ensures
            n == self@.inflight,
    {
        self.inflight
    }

    fn fan_out(&mut self) -> (a: Action<W>)
        requires
            old(self)@.inflight < usize::MAX,
        ensures
            (final(self)@, a) == fan_out(old(self)@),
    {
        match self.batch.pop_front() {
            Some(w) => {
                self.inflight = self.inflight + 1;
                self.awaiting = Awaiting::Submitted;
                assert(self@.batch =~= old(self)@.batch.drop_first());
                Action::Submit(w)
            },
            None => if self.stopping && self.inflight == 0 {
                self.awaiting = Awaiting::Nothing;
                Action::Return
            } else {
                self.progressed = false;
                self.awaiting = Awaiting::Done;
                Action::PollDone
            },
        }
    }

    fn dispatch(&mut self) -> (a: Action<W>)
        requires
            old(self)@.inflight < usize::MAX,
        ensures
            (final(self)@, a) == dispatch(old(self)@),
    {
        if self.inflight == 0 && self.batch.len() == 1 {
            match self.batch.pop_front() {
                Some(w) => {
                    self.awaiting = Awaiting::Inline;
                    assert(self@.batch =~= Seq::<W>::empty());
                    return Action::RunInline(w);
                },
                None => {},
            }
        }
        self.fan_out()
    }

    fn drained(&mut self) -> (a: Action<W>)
        requires
            old(self)@.inflight < usize::MAX,
        ensures
            (final(self)@, a) == drained(old(self)@),
    {
        let n: usize = self.batch.len();
        if n > 0 {
            self.awaiting = Awaiting::Recorded;
            Action::RecordPop(n)
        } else {
            self.dispatch()
        }
    }

    fn round(&mut self) -> (a: Action<W>)
        requires
            old(self)@.inflight < usize::MAX,
        ensures
            (final(self)@, a) == round(old(self)@),
    {
        if !self.stopping && !self.failed {
            self.awaiting = Awaiting::Next;
            Action::TryNext
        } else {
            self.dispatch()
        }
    }

    fn settle(&mut self) -> (a: Action<W>)
        requires
            old(self)@.inflight < usize::MAX,
        ensures
            (final(self)@, a) == settle(old(self)@),
    {
        if self.progressed {
            self.round()
        } else {
            self.awaiting = Awaiting::Wake;
            Action::Suspend
        }
    }

    fn polled(&mut self) -> (a: Action<W>)
        requires
            old(self)@.inflight < usize::MAX,
        ensures
            (final(self)@, a) == polled(old(self)@),
    {
        if self.stopping || self.failed {
            self.settle()
        } else {
            self.awaiting = Awaiting::Kick;
            Action::PollKick
        }
    }

    /// Takes what came of the last action, and says what to do next. The event
    /// has to answer that action, and the pool finishes only what is in flight.
    pub fn step(&mut self, e: Event<W>) -> (a: Action<W>)
        requires
            old(self)@.wf(),
            fits(old(self)@.awaiting, e),
            e is Done ==> old(self)@.inflight > 0,
            old(self)@.inflight < usize::MAX,
        ensures
            final(self)@.wf(),
            (final(self)@, a) == next(old(self)@, e),
    {
        match e {
            Event::Popped(w) => {
                self.batch.push_back(w);
                Action::TryNext
            },
            Event::QueueEmpty => self.drained(),
            Event::QueueError => {
                self.failed = true;
                self.drained()
            },
            Event::Recorded => self.dispatch(),
            Event::Ran(w, bytes) => {
                self.awaiting = Awaiting::InlineCompleted;
                Action::Complete(w, bytes)
            },
            Event::Submitted => self.fan_out(),
            Event::Completed => match self.awaiting {
                Awaiting::InlineCompleted => self.round(),
                _ => {
                    self.inflight = self.inflight - 1;
                    self.progressed = true;
                    self.awaiting = Awaiting::Done;
                    Action::PollDone
                },
            },
            Event::Done(w, bytes) => {
                self.awaiting = Awaiting::DoneCompleted;
                Action::Complete(w, bytes)
            },
            Event::NotDone => if self.stopping {
                self.polled()
            } else {
                self.awaiting = Awaiting::Stop;
                Action::PollStop
            },
            Event::Stop => {
                self.stopping = true;
                self.progressed = true;
                self.polled()
            },
            Event::NoStop => self.polled(),
            Event::Kick => self.round(),
            Event::NoKick => self.settle(),
            Event::Woken => {
                self.progressed = false;
                self.awaiting = Awaiting::Done;
                Action::PollDone
            },
        }
    }
}

// ---------------------------------------------------------------------------
// Runs
// ---------------------------------------------------------------------------

/// The requests of a run: popped from the queue, out with the caller or the pool,
/// and completed on the queue.
#[verifier::ext_equal]
pub struct Ledger<W> {
    pub popped: Multiset<W>,
    pub outside: Multiset<W>,
    pub completed: Multiset<W>,
}

impl<W> Ledger<W> {
    /// Nothing popped, nothing out, nothing completed.
    pub open spec fn empty() -> Ledger<W> {
        Ledger {
            popped: Multiset::empty(),
            outside: Multiset::empty(),
            completed: Multiset::empty(),
        }
    }

    /// The ledger after the caller has told `e`.
    pub open spec fn told(self, e: Event<W>) -> Ledger<W> {
        match e {
            Event::Popped(w) => Ledger { popped: self.popped.insert(w), ..self },
            Event::Ran(w, _) => Ledger { outside: self.outside.remove(w), ..self },
            Event::Done(w, _) => Ledger { outside: self.outside.remove(w), ..self },
            _ => self,
        }
    }

    /// The ledger after the dispatcher has asked for `a`.
    pub open spec fn asked(self, a: Action<W>) -> Ledger<W> {
        match a {
            Action::RunInline(w) => Ledger { outside: self.outside.insert(w), ..self },
            Action::Submit(w) => Ledger { outside: self.outside.insert(w), ..self },
            Action::Complete(w, _) => Ledger { completed: self.completed.insert(w), ..self },
            _ => self,
        }
    }
}

/// Where a dispatcher stands after these events: its state, what it has asked for
/// last, and the ledger of the run.
pub open spec fn run<W>(events: Seq<Event<W>>) -> (DispatchState<W>, Action<W>, Ledger<W>)
    decreases events.len(),
{
    if events.len() == 0 {
        (fresh(), Action::TryNext, Ledger::empty())
    } else {
        let before = run(events.drop_last());
        let e = events.last();
        let (s, a) = next(before.0, e);
        (s, a, before.2.told(e).asked(a))
    }
}

/// Every event answers the action before it, and a request that is reported as
/// run or finished is one that was handed out.
pub open spec fn legal<W>(events: Seq<Event<W>>) -> bool
    decreases events.len(),
{
    events.len() > 0 ==> {
        let before = run(events.drop_last());
        let e = events.last();
        &&& legal(events.drop_last())
        &&& fits(before.0.awaiting, e)
        &&& e matches Event::Ran(w, _) ==> before.2.outside.contains(w)
        &&& e matches Event::Done(w, _) ==> before.2.outside.contains(w)
    }
}

/// What every point of a legal run keeps.
pub open spec fn balanced<W>(s: DispatchState<W>, l: Ledger<W>) -> bool {
    &&& l.popped =~= l.completed.add(l.outside).add(s.batch.to_multiset())
    &&& l.outside.len() == match s.awaiting {
        Awaiting::Inline => 1int,
        Awaiting::DoneCompleted => s.inflight - 1,
        _ => s.inflight as int,
    }
    &&& match s.awaiting {
        Awaiting::Next => !s.stopping && !s.failed,
        Awaiting::Recorded => !s.stopping,
        Awaiting::Submitted => !s.stopping,
        Awaiting::Inline => s.inflight == 0 && s.batch.len() == 0,
        Awaiting::InlineCompleted => s.inflight == 0 && s.batch.len() == 0,
        Awaiting::Nothing => s.stopping && s.inflight == 0 && s.batch.len() == 0,
        _ => s.batch.len() == 0,
    }
}

proof fn lemma_batch<W>(s: Seq<W>)
    ensures
        s.to_multiset().len() == s.len(),
        s.len() == 0 ==> s.to_multiset() == Multiset::<W>::empty(),
        s.len() > 0 ==> s.drop_first().to_multiset() == s.to_multiset().remove(s[0])
            && s.to_multiset().count(s[0]) > 0,
        forall|w: W| #[trigger] s.push(w).to_multiset() == s.to_multiset().insert(w),
{
    broadcast use vstd::multiset::group_multiset_axioms;

    s.to_multiset_ensures();
    if s.len() > 0 {
        assert(s.drop_first() =~= s.remove(0));
        assert(s.contains(s[0]));
    } else {
        assert(s.to_multiset() =~= Multiset::<W>::empty()) by {
            assert forall|w: W| s.to_multiset().count(w) == 0 by {
                assert(!s.contains(w));
            }
        }
    }
}

proof fn lemma_fan_out_balanced<W>(s: DispatchState<W>, l: Ledger<W>)
    requires
        l.popped =~= l.completed.add(l.outside).add(s.batch.to_multiset()),
        l.outside.len() == s.inflight,
        s.stopping ==> s.batch.len() == 0,
    ensures
        balanced(fan_out(s).0, l.asked(fan_out(s).1)),
{
    broadcast use vstd::multiset::group_multiset_axioms;

    lemma_batch(s.batch);
    let t = fan_out(s).0;
    let m = l.asked(fan_out(s).1);
    lemma_batch(t.batch);
    assert(m.popped =~= m.completed.add(m.outside).add(t.batch.to_multiset()));
}

proof fn lemma_dispatch_balanced<W>(s: DispatchState<W>, l: Ledger<W>)
    requires
        l.popped =~= l.completed.add(l.outside).add(s.batch.to_multiset()),
        l.outside.len() == s.inflight,
        s.stopping ==> s.batch.len() == 0,
    ensures
        balanced(dispatch(s).0, l.asked(dispatch(s).1)),
{
    broadcast use vstd::multiset::group_multiset_axioms;

    if s.inflight == 0 && s.batch.len() == 1 {
        lemma_batch(s.batch);
        let t = dispatch(s).0;
        let m = l.asked(dispatch(s).1);
        assert(s.batch.drop_first() =~= t.batch);
        lemma_batch(t.batch);
        assert(m.popped =~= m.completed.add(m.outside).add(t.batch.to_multiset()));
    } else {
        lemma_fan_out_balanced(s, l);
    }
}

proof fn lemma_step_balanced<W>(s: DispatchState<W>, l: Ledger<W>, e: Event<W>)
    requires
        balanced(s, l),
        fits(s.awaiting, e),
        e matches Event::Ran(w, _) ==> l.outside.contains(w),
        e matches Event::Done(w, _) ==> l.outside.contains(w),
    ensures
        balanced(next(s, e).0, l.told(e).asked(next(s, e).1)),
{
    broadcast use vstd::multiset::group_multiset_axioms;

    lemma_batch(s.batch);
    let t = next(s, e).0;
    let m = l.told(e);
    let n = m.asked(next(s, e).1);
    match e {
        Event::Popped(w) => {
            lemma_batch(t.batch);
            assert(n.popped =~= n.completed.add(n.outside).add(t.batch.to_multiset()));
        },
        Event::QueueEmpty => {
            if s.batch.len() == 0 {
                lemma_dispatch_balanced(s, m);
            }
        },
        Event::QueueError => {
            if s.batch.len() == 0 {
                lemma_dispatch_balanced(DispatchState { failed: true, ..s }, m);
            }
        },
        Event::Recorded => lemma_dispatch_balanced(s, m),
        Event::Ran(w, b) => {
            assert(n.popped =~= n.completed.add(n.outside).add(t.batch.to_multiset()));
        },
        Event::Submitted => lemma_fan_out_balanced(s, m),
        Event::Completed => {
            if s.awaiting == Awaiting::InlineCompleted && (s.stopping || s.failed) {
                lemma_dispatch_balanced(s, m);
            }
        },
        Event::Done(w, b) => {
            assert(n.popped =~= n.completed.add(n.outside).add(t.batch.to_multiset()));
        },
        Event::NotDone => lemma_round_balanced(s, m),
        Event::Stop => lemma_round_balanced(
            DispatchState { stopping: true, progressed: true, ..s },
            m,
        ),
        Event::NoStop => lemma_round_balanced(s, m),
        Event::Kick => lemma_round_balanced(s, m),
        Event::NoKick => lemma_round_balanced(s, m),
        Event::Woken => {},
    }
}

proof fn lemma_round_balanced<W>(s: DispatchState<W>, l: Ledger<W>)
    requires
        l.popped =~= l.completed.add(l.outside).add(s.batch.to_multiset()),
        l.outside.len() == s.inflight,
        s.batch.len() == 0,
    ensures
        balanced(round(s).0, l.asked(round(s).1)),
{
    if s.stopping || s.failed {
        lemma_dispatch_balanced(s, l);
    }
}

proof fn lemma_run_balanced<W>(events: Seq<Event<W>>)
    requires
        legal(events),
    ensures
        balanced(run(events).0, run(events).2),
    decreases events.len(),
{
    broadcast use vstd::multiset::group_multiset_axioms;

    if events.len() == 0 {
        lemma_batch(fresh::<W>().batch);
    } else {
        lemma_run_balanced(events.drop_last());
        let before = run(events.drop_last());
        lemma_step_balanced(before.0, before.2, events.last());
    }
}

/// No descriptor is lost or made up: at every point of a run, what was popped is
/// what was completed, what is out, and what waits in the batch, each counted as
/// often as it was popped.
pub proof fn law_no_request_is_lost<W>(events: Seq<Event<W>>)
    requires
        legal(events),
    ensures
        ({
            let (s, _, l) = run(events);
            l.popped == l.completed.add(l.outside).add(s.batch.to_multiset())
        }),
{
    lemma_run_balanced(events);
}

/// The queue is given back only after a stop was asked for, and only when it is
/// quiescent: every request that was popped has been completed.
pub proof fn law_queue_comes_back_quiescent<W>(events: Seq<Event<W>>)
    requires
        legal(events),
        run(events).1 is Return,
    ensures
        run(events).0.stopping,
        run(events).2.outside == Multiset::<W>::empty(),
        run(events).2.popped == run(events).2.completed,
    decreases events.len(),
{
    broadcast use vstd::multiset::group_multiset_axioms;

    lemma_run_balanced(events);
    let (s, a, l) = run(events);
    assert(events.len() > 0);
    assert(s.awaiting == Awaiting::Nothing);
    lemma_batch(s.batch);
    assert(l.outside =~= Multiset::<W>::empty()) by {
        vstd::multiset::lemma_multiset_empty_len(l.outside);
    }
    assert(l.popped =~= l.completed);
}

/// Nothing is popped once a stop was asked for or the queue has failed, and
/// neither is ever taken back.
pub proof fn law_nothing_is_popped_after_stop_or_failure<W>(
    events: Seq<Event<W>>,
    later: Seq<Event<W>>,
)
    requires
        legal(events + later),
        run(events).0.stopping || run(events).0.failed,
    ensures
        run(events).0.stopping ==> run(events + later).0.stopping,
        run(events).0.failed ==> run(events + later).0.failed,
        later.len() > 0 ==> !(run(events + later).1 is TryNext),
        run(events + later).2.popped == run(events).2.popped,
    decreases later.len(),
{
    if later.len() == 0 {
        assert(events + later =~= events);
    } else {
        let all = events + later;
        assert(all.drop_last() =~= events + later.drop_last());
        assert(all.last() == later.last());
        law_nothing_is_popped_after_stop_or_failure(events, later.drop_last());
        lemma_run_balanced(all.drop_last());
    }
}

/// A request runs inline only when it is alone: nothing is in flight, and it was
/// the whole batch.
pub proof fn law_inline_only_when_alone<W>(s: DispatchState<W>, e: Event<W>, w: W)
    requires
        fits(s.awaiting, e),
        next(s, e).1 == Action::RunInline(w),
    ensures
        s.inflight == 0,
        s.batch == seq![w],
{
    assert(s.batch =~= seq![w]);
}

/// A stopping dispatcher sleeps only while something is in flight, so that a
/// completion is still to wake it: with nothing in flight the queue is given back.
pub proof fn law_stopping_sleeps_only_for_work<W>(events: Seq<Event<W>>)
    requires
        legal(events),
        run(events).0.stopping,
        run(events).1 is Suspend,
    ensures
        run(events).0.inflight > 0,
{
    lemma_run_waits(events);
}

/// A poll pass of a stopping dispatcher that has got nowhere waits for something.
spec fn waits<W>(s: DispatchState<W>) -> bool {
    s.stopping && !s.progressed && (s.awaiting == Awaiting::Done || s.awaiting == Awaiting::Wake)
        ==> s.inflight > 0
}

proof fn lemma_run_waits<W>(events: Seq<Event<W>>)
    requires
        legal(events),
    ensures
        waits(run(events).0),
        run(events).1 is Suspend ==> run(events).0.awaiting == Awaiting::Wake
            && !run(events).0.progressed,
    decreases events.len(),
{
    if events.len() > 0 {
        lemma_run_waits(events.drop_last());
        lemma_run_balanced(events.drop_last());
    }
}

/// A stopping dispatcher with nothing in flight does not sleep: the round that
/// finds it so gives the queue back.
pub proof fn law_stop_returns_when_idle<W>(s: DispatchState<W>)
    requires
        s.stopping,
        s.inflight == 0,
        s.batch.len() == 0,
    ensures
        round(s).1 == Action::<W>::Return,
{
}

// ---------------------------------------------------------------------------
// What each step is for
// ---------------------------------------------------------------------------

/// A dispatcher starts by popping, with nothing popped and nothing in flight, neither
/// stopping nor failed.
pub proof fn law_dispatcher_starts_by_popping<W>(r: (Dispatcher<W>, Action<W>))
    requires
        call_ensures(Dispatcher::<W>::new, (), r),
    ensures
        r.1 is TryNext,
        r.0@.awaiting == Awaiting::Next,
        r.0@.inflight == 0,
        r.0@.batch.len() == 0,
        !r.0@.stopping && !r.0@.failed && !r.0@.progressed,
{
}

/// A kick is always served: whatever is in flight, the queue is popped next. Nothing
/// that is in flight or waits is touched by it.
pub proof fn law_kick_is_served<W>(d: &mut Dispatcher<W>, a: Action<W>)
    requires
        call_ensures(Dispatcher::<W>::step, (d, Event::<W>::Kick), a),
        !d@.stopping,
        !d@.failed,
    ensures
        a is TryNext,
        final(d)@.awaiting == Awaiting::Next,
        final(d)@.inflight == old(d)@.inflight,
        final(d)@.batch == old(d)@.batch,
{
}

/// In a run, whatever has happened before, a kick is followed by a pop at once: a
/// dispatcher looks for a kick only while it neither stops nor has failed.
pub proof fn law_kick_in_a_run_is_followed_by_a_pop<W>(events: Seq<Event<W>>)
    requires
        events.len() > 0,
        legal(events),
        events.last() is Kick,
    ensures
        run(events).1 is TryNext,
        !run(events).0.stopping && !run(events).0.failed,
{
    lemma_awaits_kick(events.drop_last());
}

proof fn lemma_awaits_kick<W>(events: Seq<Event<W>>)
    requires
        legal(events),
    ensures
        run(events).0.awaiting == Awaiting::Kick ==> !run(events).0.stopping && !run(
            events,
        ).0.failed,
    decreases events.len(),
{
    if events.len() > 0 {
        lemma_awaits_kick(events.drop_last());
    }
}

/// What is popped joins the batch at its end, and more is popped.
pub proof fn law_popped_request_joins_the_batch<W>(d: &mut Dispatcher<W>, w: W, a: Action<W>)
    requires
        call_ensures(Dispatcher::<W>::step, (d, Event::Popped(w)), a),
    ensures
        a is TryNext,
        final(d)@.batch == old(d)@.batch.push(w),
        final(d)@.inflight == old(d)@.inflight,
        final(d)@.awaiting == old(d)@.awaiting,
        final(d)@.stopping == old(d)@.stopping && final(d)@.failed == old(d)@.failed,
{
}

/// A queue that has nothing more to offer, or fails, ends the batch, which is recorded
/// with its size and kept whole. Only a failure fails the dispatcher.
pub proof fn law_batch_is_recorded_whole<W>(d: &mut Dispatcher<W>, e: Event<W>, a: Action<W>)
    requires
        call_ensures(Dispatcher::<W>::step, (d, e), a),
        e is QueueEmpty || e is QueueError,
    ensures
        final(d)@.failed == (old(d)@.failed || e is QueueError),
        final(d)@.stopping == old(d)@.stopping,
        old(d)@.batch.len() > 0 ==> {
            &&& a == Action::<W>::RecordPop(old(d)@.batch.len() as usize)
            &&& final(d)@.batch == old(d)@.batch
            &&& final(d)@.inflight == old(d)@.inflight
        },
        old(d)@.batch.len() == 0 && !(old(d)@.stopping && old(d)@.inflight == 0) ==> {
            &&& a is PollDone
            &&& !final(d)@.progressed
        },
{
}

/// A batch of one runs inline where nothing is in flight; any other batch goes to the
/// pool, request by request in the order in which they were popped, each counted as
/// in flight.
pub proof fn law_batch_goes_out_in_order<W>(d: &mut Dispatcher<W>, e: Event<W>, a: Action<W>)
    requires
        call_ensures(Dispatcher::<W>::step, (d, e), a),
        e is Recorded || e is Submitted,
        d@.batch.len() > 0,
    ensures
        ({
            let lone = e is Recorded && old(d)@.inflight == 0 && old(d)@.batch.len() == 1;
            &&& lone ==> a == Action::RunInline(old(d)@.batch[0]) && final(d)@.inflight == 0
            &&& !lone ==> a == Action::Submit(old(d)@.batch[0]) && final(d)@.inflight == old(
                d,
            )@.inflight + 1
            &&& final(d)@.batch == old(d)@.batch.subrange(1, old(d)@.batch.len() as int)
            &&& final(d)@.stopping == old(d)@.stopping && final(d)@.failed == old(d)@.failed
        }),
{
    assert(d@.batch.drop_first() =~= d@.batch.subrange(1, d@.batch.len() as int));
    assert(d@.batch.len() == 1 ==> d@.batch.subrange(1, 1) =~= Seq::<W>::empty());
}

/// A request that ran, here or in the pool, is completed at once, with the bytes of
/// its own reply. It stays in flight until that is done.
pub proof fn law_reply_is_completed_as_it_came<W>(
    d: &mut Dispatcher<W>,
    e: Event<W>,
    w: W,
    bytes: u32,
    a: Action<W>,
)
    requires
        call_ensures(Dispatcher::<W>::step, (d, e), a),
        e == Event::Ran(w, bytes) || e == Event::Done(w, bytes),
    ensures
        a == Action::Complete(w, bytes),
        final(d)@.inflight == old(d)@.inflight,
        final(d)@.batch == old(d)@.batch,
        e is Ran ==> final(d)@.awaiting == Awaiting::InlineCompleted,
        e is Done ==> final(d)@.awaiting == Awaiting::DoneCompleted,
{
}

/// A completion of the pool takes one request out of flight, counts as progress, and
/// has the next one looked for; one of an inline request has the queue popped again.
pub proof fn law_completion_goes_on<W>(d: &mut Dispatcher<W>, a: Action<W>)
    requires
        call_ensures(Dispatcher::<W>::step, (d, Event::<W>::Completed), a),
    ensures
        old(d)@.awaiting == Awaiting::DoneCompleted && old(d)@.inflight > 0 ==> {
            &&& a is PollDone
            &&& final(d)@.inflight == old(d)@.inflight - 1
            &&& final(d)@.progressed
        },
        old(d)@.awaiting == Awaiting::InlineCompleted && !old(d)@.stopping && !old(d)@.failed
            ==> a is TryNext && final(d)@.inflight == old(d)@.inflight,
{
}

/// A poll pass of a running dispatcher looks for finished requests, then for a stop,
/// then for a kick, and only then, having got nowhere, sleeps; having got somewhere it
/// pops the queue again. A wake-up starts a pass.
pub proof fn law_pass_looks_everywhere_before_it_sleeps<W>(
    d: &mut Dispatcher<W>,
    e: Event<W>,
    a: Action<W>,
)
    requires
        call_ensures(Dispatcher::<W>::step, (d, e), a),
        !d@.stopping,
    ensures
        e is NotDone ==> a is PollStop,
        e is NoStop && !old(d)@.failed ==> a is PollKick,
        e is NoKick && !old(d)@.failed ==> if old(d)@.progressed {
            a is TryNext
        } else {
            a is Suspend
        },
        e is Woken ==> a is PollDone && !final(d)@.progressed,
        a is Suspend && !old(d)@.failed ==> e is NoKick && !old(d)@.progressed,
        e is Submitted && old(d)@.batch.len() == 0 ==> a is PollDone && !final(d)@.progressed,
        (e is NotDone || e is NoStop || e is NoKick || e is Woken) && old(d)@.batch.len() == 0 ==> {
            &&& final(d)@.inflight == old(d)@.inflight
            &&& final(d)@.stopping == old(d)@.stopping
            &&& final(d)@.failed == old(d)@.failed
        },
{
}

/// A queue that has failed is not popped again, but what is in flight is still
/// completed, and a stop is still looked for.
pub proof fn law_failed_queue_is_still_served_and_stopped<W>(
    d: &mut Dispatcher<W>,
    e: Event<W>,
    a: Action<W>,
)
    requires
        call_ensures(Dispatcher::<W>::step, (d, e), a),
        d@.failed,
        !d@.stopping,
        d@.batch.len() == 0,
    ensures
        e is NotDone ==> a is PollStop,
        e is NoStop ==> if old(d)@.progressed {
            a is PollDone
        } else {
            a is Suspend
        },
        e is Woken ==> a is PollDone,
        !(e is Popped) ==> !(a is TryNext),
{
}

/// A stop is taken at once: with nothing in flight the queue is given back, and with
/// something in flight the dispatcher waits for it, and gives the queue back in the
/// pass in which the last of it was completed.
pub proof fn law_stop_waits_for_what_is_in_flight<W>(
    d: &mut Dispatcher<W>,
    e: Event<W>,
    a: Action<W>,
)
    requires
        call_ensures(Dispatcher::<W>::step, (d, e), a),
        e is Stop || (d@.stopping && e is NotDone),
        d@.batch.len() == 0,
    ensures
        final(d)@.stopping,
        final(d)@.inflight == old(d)@.inflight,
        ({
            let moved = e is Stop || old(d)@.progressed;
            &&& moved && old(d)@.inflight == 0 ==> a is Return
            &&& moved && old(d)@.inflight > 0 ==> a is PollDone && !final(d)@.progressed
            &&& !moved ==> a is Suspend
        }),
{
}

/// The number in flight is told as it is.
pub proof fn law_inflight_is_told<W>(d: Dispatcher<W>, n: usize)
    requires
        call_ensures(Dispatcher::<W>::inflight, (&d,), n),
    ensures
        n == d@.inflight,
{
}

/// What a step asks for is what is awaited then, and every answer to it can be told.
pub proof fn law_every_answer_can_be_told<W>(
    d: &mut Dispatcher<W>,
    e: Event<W>,
    a: Action<W>,
    w: W,
    bytes: u32,
)
    requires
        call_ensures(Dispatcher::<W>::step, (d, e), a),
        d@.awaiting == Awaiting::Next || !(e is Popped),
        d@.inflight > 0 || !(e is Completed) || d@.awaiting == Awaiting::InlineCompleted,
    ensures
        ({
            let now = final(d)@.awaiting;
            &&& a is TryNext ==> fits(now, Event::Popped(w)) && fits(now, Event::<W>::QueueEmpty)
                && fits(now, Event::<W>::QueueError)
            &&& a is RecordPop ==> fits(now, Event::<W>::Recorded)
            &&& a is RunInline ==> fits(now, Event::Ran(w, bytes))
            &&& a is Complete ==> fits(now, Event::<W>::Completed)
            &&& a is Submit ==> fits(now, Event::<W>::Submitted)
            &&& a is PollDone ==> fits(now, Event::Done(w, bytes)) && fits(
                now,
                Event::<W>::NotDone,
            )
            &&& a is PollStop ==> fits(now, Event::<W>::Stop) && fits(now, Event::<W>::NoStop)
            &&& a is PollKick ==> fits(now, Event::<W>::Kick) && fits(now, Event::<W>::NoKick)
            &&& a is Suspend ==> fits(now, Event::<W>::Woken)
            &&& a is Return <==> now == Awaiting::Nothing && final(d)@.stopping
        }),
{
}

/// What a pass has got done is not forgotten before the pass ends: looking for a
/// completion, a stop or a kick in vain keeps it, and so does a request of the pool that
/// comes back.
pub proof fn law_progress_is_kept_through_the_pass<W>(
    d: &mut Dispatcher<W>,
    e: Event<W>,
    a: Action<W>,
)
    requires
        call_ensures(Dispatcher::<W>::step, (d, e), a),
    ensures
        a is PollStop || a is PollKick || e is Done || e is Popped ==> final(d)@.progressed
            == old(d)@.progressed,
        e is Completed && old(d)@.awaiting == Awaiting::DoneCompleted ==> {
            &&& final(d)@.progressed
            &&& final(d)@.batch == old(d)@.batch
            &&& final(d)@.stopping == old(d)@.stopping
            &&& final(d)@.failed == old(d)@.failed
        },
        a is Suspend ==> !old(d)@.progressed,
        final(d)@.stopping == (old(d)@.stopping || e is Stop),
        final(d)@.failed && !old(d)@.failed ==> e is QueueError,
{
}

/// With nothing left to submit, and nothing to pop, a pass begins; or the queue is given
/// back, where a stop was asked for and nothing is in flight.
pub proof fn law_pass_begins_when_all_is_out<W>(d: &mut Dispatcher<W>, e: Event<W>, a: Action<W>)
    requires
        call_ensures(Dispatcher::<W>::step, (d, e), a),
        d@.batch.len() == 0,
        e is Submitted || (e is Completed && d@.awaiting == Awaiting::InlineCompleted && (
        d@.stopping || d@.failed)),
    ensures
        final(d)@.inflight == old(d)@.inflight && final(d)@.batch.len() == 0,
        old(d)@.stopping && old(d)@.inflight == 0 ==> a is Return,
        !(old(d)@.stopping && old(d)@.inflight == 0) ==> a is PollDone && !final(d)@.progressed,
{
}

} // verus!
