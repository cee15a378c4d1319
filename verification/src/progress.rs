//! Progress and completion signaling: one batch run tells the UI layer that
//! it went busy; once its candidate files are counted it emits one initial
//! progress tick (from which the UI derives the per-file step) plus one tick
//! per finished file; and it finally reports idle again — the Busy/Idle pair
//! exactly once per run, in that order. A run that aborts on a fatal
//! configuration error before its files are counted still ends Busy then
//! Idle, with no tick at all. The tracker here hands the orchestrator the
//! signals to send and records in its ghost history that no other emission
//! order is possible. The channels that carry the signals are bounded at
//! capacity one, and the producer blocks until the consumer drains: a send
//! is brief but never dropped.
use vstd::prelude::*;

verus! {

/// One message to the UI layer: the state channel carries Busy and Idle,
/// the progress channel carries the opaque ticks.
#[derive(Clone, Copy, PartialEq, Eq, Structural, Debug)]
pub enum Signal {
    /// State channel: the run started and the trigger is disabled.
    Busy,
    /// State channel: the run ended, with or without failures.
    Idle,
    /// Progress channel: the initial tick, or one finished file.
    Tick,
}

/// How often t occurs in s.
pub open spec fn count_signal(s: Seq<Signal>, t: Signal) -> int
    decreases s.len(),
{
    if s.len() == 0 {
        0
    } else {
        count_signal(s.drop_last(), t) + if s.last() == t {
            1int
        } else {
            0int
        }
    }
}

/// n progress ticks in a row.
pub open spec fn tick_run(n: int) -> Seq<Signal> {
    Seq::new(n as nat, |i: int| Signal::Tick)
}

proof fn lemma_count_concat(a: Seq<Signal>, b: Seq<Signal>, t: Signal)
    ensures
        count_signal(a + b, t) == count_signal(a, t) + count_signal(b, t),
    decreases b.len(),
{
    if b.len() == 0 {
        assert(a + b =~= a);
    } else {
        lemma_count_concat(a, b.drop_last(), t);
        assert((a + b).drop_last() =~= a + b.drop_last());
        assert((a + b).last() == b.last());
    }
}

proof fn lemma_count_tick_run(n: int, t: Signal)
    requires
        0 <= n,
    ensures
        count_signal(tick_run(n), t) == (if t == Signal::Tick {
            n
        } else {
            0int
        }),
    decreases n,
{
    if n > 0 {
        lemma_count_tick_run(n - 1, t);
        assert(tick_run(n).drop_last() =~= tick_run(n - 1));
    }
}

proof fn lemma_count_singleton(x: Signal, t: Signal)
    ensures
        count_signal(seq![x], t) == (if x == t {
            1int
        } else {
            0int
        }),
{
    reveal_with_fuel(count_signal, 2);
    assert(seq![x].drop_last() =~= Seq::<Signal>::empty());
}

/// Tracks one batch run's signaling. The orchestrator asks it for the exact
/// signals to push into the two bounded channels; the ghost history records
/// every signal handed out, so a finished run provably emitted the one
/// Busy/Idle pair and — once its files were counted — its total + 1 ticks,
/// and an aborted run the pair alone.
pub struct ProgressTracker {
    total: usize,
    done: usize,
    started: bool,
    counting: bool,
    finished: bool,
    history: Ghost<Seq<Signal>>,
}

impl ProgressTracker {
    /// Number of candidate files of the run being tracked; meaningful once
    /// the initial tick announced it.
    pub closed spec fn spec_total(self) -> int {
        self.total as int
    }

    /// Number of files reported finished so far.
    pub closed spec fn spec_done(self) -> int {
        self.done as int
    }

    pub closed spec fn spec_started(self) -> bool {
        self.started
    }

    /// True once the initial tick went out, carrying the candidate count.
    pub closed spec fn spec_counting(self) -> bool {
        self.counting
    }

    pub closed spec fn spec_finished(self) -> bool {
        self.finished
    }

    /// Every signal handed out so far, oldest first.
    pub closed spec fn spec_history(self) -> Seq<Signal> {
        self.history@
    }

    /// The tracker's invariant: the history is fully determined by the
    /// phase — nothing before the start; Busy alone for a run aborted
    /// before its files were counted; the initial tick plus one tick per
    /// finished file after the count; and one final Idle after the end.
    pub closed spec fn wf(self) -> bool {
        &&& self.done <= self.total
        &&& (!self.started ==> !self.counting && !self.finished && self.done == 0
            && self.history@ == Seq::<Signal>::empty())
        &&& (!self.counting ==> self.done == 0)
        &&& (self.started ==> self.history@ == seq![Signal::Busy] + (if self.counting {
            seq![Signal::Tick] + tick_run(self.done as int)
        } else {
            Seq::<Signal>::empty()
        }) + (if self.finished {
            seq![Signal::Idle]
        } else {
            Seq::<Signal>::empty()
        }))
    }

    /// A fresh tracker, before the run and its candidate count exist.
    pub fn new() -> (t: Self)
        ensures
            t.wf(),
            !t.spec_started(),
            !t.spec_counting(),
            !t.spec_finished(),
            t.spec_history() == Seq::<Signal>::empty(),
    {
        ProgressTracker {
            total: 0,
            done: 0,
            started: false,
            counting: false,
            finished: false,
            history: Ghost(Seq::empty()),
        }
    }

    /// Start of the run: the state channel goes busy. Nothing is promised
    /// about the candidate files yet, so no tick accompanies it — a run
    /// that fails before enumerating its folder ends with the Busy/Idle
    /// pair only.
    pub fn start(&mut self) -> (sig: Signal)
        requires
            old(self).wf(),
            !old(self).spec_started(),
        ensures
            final(self).wf(),
            sig == Signal::Busy,
            final(self).spec_started(),
            !final(self).spec_counting(),
            !final(self).spec_finished(),
            final(self).spec_done() == 0,
            final(self).spec_history() == old(self).spec_history() + seq![Signal::Busy],
    {
        self.started = true;
        proof {
            self.history@ = self.history@ + seq![Signal::Busy];
        }
        proof {
            assert(self.history@ =~= seq![Signal::Busy] + Seq::<Signal>::empty()
                + Seq::<Signal>::empty());
        }
        Signal::Busy
    }

    /// The initial tick, handed out once the candidate files are counted:
    /// the UI derives the per-file step size from the total it announces.
    pub fn initial_tick(&mut self, total: usize) -> (sig: Signal)
        requires
            old(self).wf(),
            old(self).spec_started(),
            !old(self).spec_counting(),
            !old(self).spec_finished(),
        ensures
            final(self).wf(),
            sig == Signal::Tick,
            final(self).spec_started(),
            final(self).spec_counting(),
            !final(self).spec_finished(),
            final(self).spec_total() == total,
            final(self).spec_done() == 0,
            final(self).spec_history() == old(self).spec_history() + seq![Signal::Tick],
    {
        self.total = total;
        self.counting = true;
        proof {
            self.history@ = self.history@ + seq![Signal::Tick];
        }
        proof {
            assert(tick_run(0) =~= Seq::<Signal>::empty());
            assert(self.history@ =~= seq![Signal::Busy] + (seq![Signal::Tick] + tick_run(0))
                + Seq::<Signal>::empty());
        }
        Signal::Tick
    }

    /// One more file finished: one progress tick.
    pub fn file_done(&mut self) -> (sig: Signal)
        requires
            old(self).wf(),
            old(self).spec_started(),
            old(self).spec_counting(),
            !old(self).spec_finished(),
            old(self).spec_done() < old(self).spec_total(),
        ensures
            final(self).wf(),
            sig == Signal::Tick,
            final(self).spec_started(),
            final(self).spec_counting(),
            !final(self).spec_finished(),
            final(self).spec_done() == old(self).spec_done() + 1,
            final(self).spec_total() == old(self).spec_total(),
            final(self).spec_history() == old(self).spec_history() + seq![Signal::Tick],
    {
        self.done = self.done + 1;
        proof {
            self.history@ = self.history@ + seq![Signal::Tick];
        }
        proof {
            assert(tick_run(self.done as int) =~= tick_run(self.done as int - 1).push(
                Signal::Tick));
            assert(self.history@ =~= seq![Signal::Busy] + (seq![Signal::Tick] + tick_run(
                self.done as int)) + Seq::<Signal>::empty());
        }
        Signal::Tick
    }

    /// End of the run — after the last file, or right away on a fatal
    /// configuration error: the state channel returns to idle either way,
    /// so the UI never hangs in the busy view.
    pub fn finish(&mut self) -> (sig: Signal)
        requires
            old(self).wf(),
            old(self).spec_started(),
            !old(self).spec_finished(),
        ensures
            final(self).wf(),
            sig == Signal::Idle,
            final(self).spec_finished(),
            final(self).spec_counting() == old(self).spec_counting(),
            final(self).spec_done() == old(self).spec_done(),
            final(self).spec_total() == old(self).spec_total(),
            final(self).spec_history() == old(self).spec_history() + seq![Signal::Idle],
    {
        self.finished = true;
        proof {
            self.history@ = self.history@ + seq![Signal::Idle];
        }
        Signal::Idle
    }
}

/// Progress monotonicity and the completion pair: a finished run emitted
/// exactly one Busy and then exactly one Idle — the first and the last
/// signal. A run whose candidate count was announced emitted exactly
/// done + 1 progress ticks (the initial one plus one per finished file;
/// over a full run of total files, total + 1); a run aborted before the
/// count emitted no tick at all.
pub proof fn lemma_progress_signals(t: ProgressTracker)
    requires
        t.wf(),
        t.spec_started(),
        t.spec_finished(),
    ensures
        count_signal(t.spec_history(), Signal::Tick) == (if t.spec_counting() {
            t.spec_done() + 1
        } else {
            0int
        }),
        count_signal(t.spec_history(), Signal::Busy) == 1,
        count_signal(t.spec_history(), Signal::Idle) == 1,
        t.spec_history().len() == (if t.spec_counting() {
            t.spec_done() + 3
        } else {
            2int
        }),
        t.spec_history()[0] == Signal::Busy,
        t.spec_history().last() == Signal::Idle,
{
    let d = t.spec_done();
    let middle: Seq<Signal> = if t.spec_counting() {
        seq![Signal::Tick] + tick_run(d)
    } else {
        Seq::<Signal>::empty()
    };
    let hist = t.spec_history();
    assert(hist == seq![Signal::Busy] + middle + seq![Signal::Idle]);
    lemma_count_all(seq![Signal::Busy] + middle, seq![Signal::Idle]);
    lemma_count_all(seq![Signal::Busy], middle);
    if t.spec_counting() {
        lemma_count_all(seq![Signal::Tick], tick_run(d));
        lemma_count_tick_run(d, Signal::Tick);
        lemma_count_tick_run(d, Signal::Busy);
        lemma_count_tick_run(d, Signal::Idle);
        lemma_count_singleton(Signal::Tick, Signal::Tick);
        lemma_count_singleton(Signal::Tick, Signal::Busy);
        lemma_count_singleton(Signal::Tick, Signal::Idle);
    }
    lemma_count_singleton(Signal::Busy, Signal::Tick);
    lemma_count_singleton(Signal::Busy, Signal::Busy);
    lemma_count_singleton(Signal::Busy, Signal::Idle);
    lemma_count_singleton(Signal::Idle, Signal::Tick);
    lemma_count_singleton(Signal::Idle, Signal::Busy);
    lemma_count_singleton(Signal::Idle, Signal::Idle);
    assert(count_signal(Seq::<Signal>::empty(), Signal::Tick) == 0);
    assert(count_signal(Seq::<Signal>::empty(), Signal::Busy) == 0);
    assert(count_signal(Seq::<Signal>::empty(), Signal::Idle) == 0);
    assert(hist[0] == Signal::Busy);
    assert(hist.last() == Signal::Idle);
}

proof fn lemma_count_all(a: Seq<Signal>, b: Seq<Signal>)
    ensures
        count_signal(a + b, Signal::Tick) == count_signal(a, Signal::Tick) + count_signal(
            b, Signal::Tick),
        count_signal(a + b, Signal::Busy) == count_signal(a, Signal::Busy) + count_signal(
            b, Signal::Busy),
        count_signal(a + b, Signal::Idle) == count_signal(a, Signal::Idle) + count_signal(
            b, Signal::Idle),
{
    lemma_count_concat(a, b, Signal::Tick);
    lemma_count_concat(a, b, Signal::Busy);
    lemma_count_concat(a, b, Signal::Idle);
}

} // verus!
