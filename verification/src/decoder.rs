//! The crank position decoder.
//!
//! Every edge of the crank sensor carries a timestamp.  The decoder compares
//! the interval since the previous edge with the interval it expects, the
//! last regular one, and tells a regular tooth from the reference gap and
//! from an implausible interval.  From that it keeps the tooth index and the
//! synchronization phase.
//!
//! The decoder is described by a model, [`SyncModel`], and a transition
//! function on it, [`step`].  The executable decoder carries the same state
//! in machine integers and follows the model edge by edge.

use crate::config::Engine;
use vstd::prelude::*;

verus! {

/// Number of recent regular intervals that are kept for smoothing.
pub const WINDOW: usize = 4;

/// How far the decoder trusts its tooth index.
#[derive(Clone, Copy, Debug, PartialEq, Eq, Structural)]
pub enum SyncPhase {
    /// Nothing is known about the position of the wheel.
    Unsynchronized,
    /// A gap has been seen; a full turn of teeth must follow to confirm it.
    Synchronizing,
    /// The tooth index is trustworthy.
    Synchronized,
}

/// What an interval is, held against the expected one.
#[derive(Clone, Copy, Debug, PartialEq, Eq, Structural)]
pub enum IntervalClass {
    /// About as long as the expected interval.
    Normal,
    /// About twice as long: the reference gap.
    Gap,
    /// Neither of the two.
    Irregular,
}

/// What an edge meant for the synchronization.
#[derive(Clone, Copy, Debug, PartialEq, Eq, Structural)]
pub enum EdgeEvent {
    /// An edge without consequence for the phase.
    Tooth,
    /// The decoder has just become synchronized.
    SyncAcquired,
    /// The reference gap went by while synchronized: one per revolution.
    SyncReference,
    /// The decoder was synchronized and is no longer.
    SyncLost,
}

/// The state of the decoder as mathematics sees it.
pub struct SyncModel {
    pub phase: SyncPhase,
    /// Timestamp of the last edge, if there was one.
    pub last_timestamp: Option<int>,
    /// The interval that the next one is held against, if there is one.
    pub reference: Option<int>,
    /// Regular teeth counted since the last gap.
    pub tooth_index: int,
    /// The most recent regular intervals, newest first.
    pub window: Seq<int>,
}

/// An interval within the tolerance of the expected one.
pub open spec fn is_normal(reference: int, interval: int, tolerance: int) -> bool {
    (100 - tolerance) * reference <= 100 * interval <= (100 + tolerance) * reference
}

/// An interval within the tolerance of twice the expected one.
pub open spec fn is_gap(reference: int, interval: int, tolerance: int) -> bool {
    (100 - tolerance) * (2 * reference) <= 100 * interval <= (100 + tolerance) * (2 * reference)
}

/// The class of an interval held against the expected one.
pub open spec fn classify(reference: int, interval: int, tolerance: int) -> IntervalClass {
    if is_normal(reference, interval, tolerance) {
        IntervalClass::Normal
    } else if is_gap(reference, interval, tolerance) {
        IntervalClass::Gap
    } else {
        IntervalClass::Irregular
    }
}

/// The window after a further regular interval: the new one in front, the
/// oldest dropped once the window is full.
pub open spec fn push_window(window: Seq<int>, interval: int) -> Seq<int> {
    let grown = seq![interval] + window;
    if grown.len() > WINDOW {
        grown.take(WINDOW as int)
    } else {
        grown
    }
}

/// The state before the first edge.
pub open spec fn initial() -> SyncModel {
    SyncModel {
        phase: SyncPhase::Unsynchronized,
        last_timestamp: None,
        reference: None,
        tooth_index: 0,
        window: Seq::empty(),
    }
}

/// The state after an implausible edge at `timestamp`: everything but the
/// timestamp is forgotten.
pub open spec fn lost(timestamp: int) -> SyncModel {
    SyncModel {
        phase: SyncPhase::Unsynchronized,
        last_timestamp: Some(timestamp),
        reference: None,
        tooth_index: 0,
        window: Seq::empty(),
    }
}

/// The state after a regular interval.  The interval becomes the expected
/// one.  A decoder that counts teeth advances by one; when that makes more
/// teeth than the wheel has, the gap was missed and the index is dropped.
pub open spec fn normal_step(e: Engine, s: SyncModel, timestamp: int, interval: int) -> SyncModel {
    let keeps = !(s.phase is Unsynchronized) && s.tooth_index + 1 < e.present_teeth();
    SyncModel {
        phase: if keeps {
            s.phase
        } else {
            SyncPhase::Unsynchronized
        },
        last_timestamp: Some(timestamp),
        reference: Some(interval),
        tooth_index: if keeps {
            s.tooth_index + 1
        } else {
            0
        },
        window: push_window(s.window, interval),
    }
}

/// The state after the reference gap.  The tooth index starts again from
/// zero.  A decoder that has counted a full turn of teeth since the gap
/// before becomes synchronized, and one that is synchronized stays so.
pub open spec fn gap_step(e: Engine, s: SyncModel, timestamp: int) -> SyncModel {
    SyncModel {
        phase: match s.phase {
            SyncPhase::Unsynchronized => SyncPhase::Synchronizing,
            SyncPhase::Synchronizing => if s.tooth_index + 1 == e.present_teeth() {
                SyncPhase::Synchronized
            } else {
                SyncPhase::Synchronizing
            },
            SyncPhase::Synchronized => SyncPhase::Synchronized,
        },
        last_timestamp: Some(timestamp),
        reference: s.reference,
        tooth_index: 0,
        window: s.window,
    }
}

/// The state after an edge at `timestamp`.
///
/// The first edge only leaves its timestamp.  The first interval becomes
/// the expected one.  Every later interval is classified: a regular one and
/// the gap move the decoder on, anything else, and time that did not
/// advance, drops the synchronization.
pub open spec fn step(e: Engine, s: SyncModel, timestamp: int) -> SyncModel {
    match s.last_timestamp {
        None => SyncModel { last_timestamp: Some(timestamp), ..s },
        Some(last) => if timestamp <= last {
            lost(timestamp)
        } else {
            let interval = timestamp - last;
            match s.reference {
                None => SyncModel {
                    phase: SyncPhase::Unsynchronized,
                    last_timestamp: Some(timestamp),
                    reference: Some(interval),
                    tooth_index: 0,
                    window: seq![interval],
                },
                Some(r) => match classify(r, interval, e.ckp_tolerance as int) {
                    IntervalClass::Normal => normal_step(e, s, timestamp, interval),
                    IntervalClass::Gap => gap_step(e, s, timestamp),
                    IntervalClass::Irregular => lost(timestamp),
                },
            }
        },
    }
}

/// What an edge meant, told from the phase before it and the state after.
pub open spec fn event_of(before: SyncPhase, after: SyncModel) -> EdgeEvent {
    if before is Synchronized {
        if !(after.phase is Synchronized) {
            EdgeEvent::SyncLost
        } else if after.tooth_index == 0 {
            EdgeEvent::SyncReference
        } else {
            EdgeEvent::Tooth
        }
    } else if after.phase is Synchronized {
        EdgeEvent::SyncAcquired
    } else {
        EdgeEvent::Tooth
    }
}

/// The sum of the intervals in a window.
pub open spec fn window_total(window: Seq<int>) -> int
    decreases window.len(),
{
    if window.len() == 0 {
        0
    } else {
        window_total(window.drop_last()) + window.last()
    }
}

/// The mean of the intervals in a window, rounded down.
pub open spec fn mean_interval(window: Seq<int>) -> int
    recommends
        window.len() > 0,
{
    window_total(window) / (window.len() as int)
}

/// The sum of a window of intervals between `low` and `high` lies between
/// as many times `low` and as many times `high`.
pub proof fn lemma_window_total_bounds(window: Seq<int>, low: int, high: int)
    requires
        forall|i: int| 0 <= i < window.len() ==> low <= #[trigger] window[i] <= high,
    ensures
        window.len() * low <= window_total(window) <= window.len() * high,
    decreases window.len(),
{
    if window.len() > 0 {
        let front = window.drop_last();
        assert forall|i: int| 0 <= i < front.len() implies low <= #[trigger] front[i] <= high by {
            assert(front[i] == window[i]);
        }
        lemma_window_total_bounds(front, low, high);
        assert(window.len() * low == front.len() * low + low) by (nonlinear_arith)
            requires
                window.len() == front.len() + 1,
        ;
        assert(window.len() * high == front.len() * high + high) by (nonlinear_arith)
            requires
                window.len() == front.len() + 1,
        ;
    } else {
        assert(window.len() * low == 0 && window.len() * high == 0) by (nonlinear_arith)
            requires
                window.len() == 0,
        ;
    }
}

/// The mean of a window of equal intervals is that interval.
pub proof fn lemma_mean_of_equal_intervals(window: Seq<int>, interval: int)
    requires
        window.len() > 0,
        forall|i: int| 0 <= i < window.len() ==> #[trigger] window[i] == interval,
    ensures
        mean_interval(window) == interval,
{
    lemma_window_total_bounds(window, interval, interval);
    let n = window.len() as int;
    assert(window_total(window) == interval * n) by (nonlinear_arith)
        requires
            n * interval <= window_total(window) <= n * interval,
    ;
    if interval >= 0 {
        vstd::arithmetic::div_mod::lemma_div_by_multiple(interval, n);
    } else {
        vstd::arithmetic::div_mod::lemma_fundamental_div_mod_converse(
            interval * n,
            n,
            interval,
            0,
        );
    }
}

impl SyncModel {
    /// What holds of every state that the decoder can reach on a wheel.
    pub open spec fn wf(self, e: Engine) -> bool {
        &&& e.wf()
        &&& 0 <= self.tooth_index < e.present_teeth()
        &&& (self.phase is Unsynchronized ==> self.tooth_index == 0)
        &&& (!(self.phase is Unsynchronized) ==> self.reference is Some)
        &&& (self.reference is Some ==> self.last_timestamp is Some)
        &&& (self.reference matches Some(r) ==> r > 0)
        &&& (self.reference is Some ==> self.window.len() >= 1)
        &&& self.window.len() <= WINDOW
        &&& forall|i: int| 0 <= i < self.window.len() ==> #[trigger] self.window[i] > 0
    }
}

/// Every edge leaves the decoder in a state that is well formed.
pub proof fn lemma_step_keeps_wf(e: Engine, s: SyncModel, timestamp: int)
    requires
        s.wf(e),
    ensures
        step(e, s, timestamp).wf(e),
{
    let n = step(e, s, timestamp);
    if let Some(last) = s.last_timestamp {
        if timestamp > last {
            let interval = timestamp - last;
            let grown = seq![interval] + s.window;
            assert forall|i: int| 0 <= i < grown.len() implies #[trigger] grown[i] > 0 by {
                if i > 0 {
                    assert(grown[i] == s.window[i - 1]);
                }
            }
            assert forall|i: int| 0 <= i < n.window.len() implies #[trigger] n.window[i] > 0 by {
                if s.reference is Some && n.window != s.window {
                    assert(n.window[i] == grown[i]);
                }
            }
        }
    }
}

/// Classifies an interval against the expected one.
pub fn classify_interval(reference: u64, interval: u64, tolerance: u8) -> (class: IntervalClass)
    ensures
        class == classify(reference as int, interval as int, tolerance as int),
{
    let scaled: u128 = 100 * (interval as u128);
    let single: u128 = reference as u128;
    let double: u128 = 2 * (reference as u128);
    let above: u128 = 100 + (tolerance as u128);
    assert(above * single <= 355 * 0xffff_ffff_ffff_ffff) by (nonlinear_arith)
        requires
            above <= 355,
            single <= 0xffff_ffff_ffff_ffff,
    ;
    assert(above * double <= 355 * (2 * 0xffff_ffff_ffff_ffff)) by (nonlinear_arith)
        requires
            above <= 355,
            double <= 2 * 0xffff_ffff_ffff_ffff,
    ;
    let normal_high: u128 = above * single;
    let gap_high: u128 = above * double;
    if tolerance > 100 {
        // the lower bounds are below zero and hold of every interval
        assert((100 - tolerance) * single <= 0 && (100 - tolerance) * double <= 0)
            by (nonlinear_arith)
            requires
                tolerance > 100,
                single >= 0,
                double >= 0,
        ;
        if scaled <= normal_high {
            IntervalClass::Normal
        } else if scaled <= gap_high {
            IntervalClass::Gap
        } else {
            IntervalClass::Irregular
        }
    } else {
        let below: u128 = 100 - (tolerance as u128);
        assert(below * single <= 100 * 0xffff_ffff_ffff_ffff) by (nonlinear_arith)
            requires
                below <= 100,
                single <= 0xffff_ffff_ffff_ffff,
        ;
        assert(below * double <= 100 * (2 * 0xffff_ffff_ffff_ffff)) by (nonlinear_arith)
            requires
                below <= 100,
                double <= 2 * 0xffff_ffff_ffff_ffff,
        ;
        let normal_low: u128 = below * single;
        let gap_low: u128 = below * double;
        if normal_low <= scaled && scaled <= normal_high {
            IntervalClass::Normal
        } else if gap_low <= scaled && scaled <= gap_high {
            IntervalClass::Gap
        } else {
            IntervalClass::Irregular
        }
    }
}

/// The decoder of one trigger wheel.
#[derive(Clone, Copy)]
pub struct CrankDecoder {
    engine: Engine,
    phase: SyncPhase,
    last_timestamp: Option<u64>,
    reference: Option<u64>,
    tooth_index: u32,
    window: [u64; 4],
    window_len: usize,
}

impl CrankDecoder {
    /// The wheel that is decoded.
    pub closed spec fn engine(&self) -> Engine {
        self.engine
    }

    /// The state of the decoder.
    pub closed spec fn view(&self) -> SyncModel {
        SyncModel {
            phase: self.phase,
            last_timestamp: match self.last_timestamp {
                Some(t) => Some(t as int),
                None => None,
            },
            reference: match self.reference {
                Some(r) => Some(r as int),
                None => None,
            },
            tooth_index: self.tooth_index as int,
            window: Seq::new(self.window_len as nat, |i: int| self.window@[i] as int),
        }
    }

    #[verifier::type_invariant]
    spec fn well_formed(&self) -> bool {
        &&& self.window_len <= WINDOW
        &&& self@.wf(self.engine)
    }

    /// A decoder for a wheel, before the first edge; `None` where the wheel
    /// cannot be decoded.
    pub fn new(engine: Engine) -> (decoder: Option<CrankDecoder>)
        ensures
            decoder is Some <==> engine.wf(),
            decoder matches Some(d) ==> d.engine() == engine && d@ == initial(),
    {
        if !engine.is_valid() {
            return None;
        }
        let decoder = CrankDecoder {
            engine,
            phase: SyncPhase::Unsynchronized,
            last_timestamp: None,
            reference: None,
            tooth_index: 0,
            window: [0, 0, 0, 0],
            window_len: 0,
        };
        assert(decoder@.window =~= Seq::<int>::empty());
        Some(decoder)
    }

    /// The wheel that is decoded.
    pub fn wheel(&self) -> (engine: Engine)
        ensures
            engine == self.engine(),
            engine.wf(),
    {
        proof {
            use_type_invariant(self);
        }
        self.engine
    }

    /// Forgets everything: the decoder is as before the first edge.
    pub fn reset(&mut self)
        ensures
            final(self).engine() == old(self).engine(),
            final(self)@ == initial(),
    {
        proof {
            use_type_invariant(&*self);
        }
        let fresh = CrankDecoder {
            engine: self.engine,
            phase: SyncPhase::Unsynchronized,
            last_timestamp: None,
            reference: None,
            tooth_index: 0,
            window: [0, 0, 0, 0],
            window_len: 0,
        };
        assert(fresh@.window =~= Seq::<int>::empty());
        *self = fresh;
    }

    /// The synchronization phase.
    pub fn phase(&self) -> (phase: SyncPhase)
        ensures
            phase == self@.phase,
    {
        self.phase
    }

    /// Tells whether the tooth index is trustworthy.
    pub fn is_synchronized(&self) -> (synchronized: bool)
        ensures
            synchronized == (self@.phase is Synchronized),
    {
        match self.phase {
            SyncPhase::Synchronized => true,
            _ => false,
        }
    }

    /// Regular teeth counted since the last gap; `None` unless synchronized.
    pub fn tooth_index(&self) -> (index: Option<u32>)
        ensures
            index is Some <==> self@.phase is Synchronized,
            index matches Some(i) ==> i == self@.tooth_index && i < self.engine().present_teeth(),
            self@.wf(self.engine()),
    {
        proof {
            use_type_invariant(self);
        }
        match self.phase {
            SyncPhase::Synchronized => Some(self.tooth_index),
            _ => None,
        }
    }

    /// The mean of the recent regular intervals, in microseconds, rounded
    /// down; `None` while there is none.
    pub fn smoothed_interval(&self) -> (mean: Option<u64>)
        ensures
            mean is Some <==> self@.window.len() > 0,
            mean matches Some(m) ==> m == mean_interval(self@.window) && m > 0,
            self@.wf(self.engine()),
    {
        proof {
            use_type_invariant(self);
        }
        if self.window_len == 0 {
            return None;
        }
        let ghost held = self@.window;
        let mut total: u128 = 0;
        let mut i: usize = 0;
        assert(held.take(0) =~= Seq::<int>::empty());
        while i < self.window_len
            invariant
                i <= self.window_len <= WINDOW,
                held == self@.window,
                held.len() == self.window_len,
                forall|k: int| 0 <= k < held.len() ==> held[k] == self.window@[k] as int,
                total == window_total(held.take(i as int)),
                total <= i * 0xffff_ffff_ffff_ffff,
            decreases self.window_len - i,
        {
            assert(held.take(i + 1).drop_last() =~= held.take(i as int));
            assert(held.take(i + 1).last() == held[i as int]);
            total = total + self.window[i] as u128;
            i += 1;
        }
        assert(held.take(i as int) =~= held);
        let count: u128 = self.window_len as u128;
        let mean: u128 = total / count;
        proof {
            lemma_window_total_bounds(held, 1, 0xffff_ffff_ffff_ffff);
            let n = held.len() as int;
            let t = window_total(held);
            assert(n * 1 == n) by (nonlinear_arith);
            vstd::arithmetic::div_mod::lemma_div_is_ordered(n, t, n);
            vstd::arithmetic::div_mod::lemma_div_is_ordered(t, n * 0xffff_ffff_ffff_ffff, n);
            vstd::arithmetic::div_mod::lemma_div_by_multiple(1, n);
            vstd::arithmetic::div_mod::lemma_div_by_multiple(0xffff_ffff_ffff_ffff, n);
            assert(1 * n == n && 0xffff_ffff_ffff_ffff * n == n * 0xffff_ffff_ffff_ffff)
                by (nonlinear_arith);
        }
        Some(mean as u64)
    }

    /// Takes the edge at `timestamp`, in microseconds, and tells what it
    /// meant.
    pub fn on_edge(&mut self, timestamp: u64) -> (event: EdgeEvent)
        ensures
            final(self).engine() == old(self).engine(),
            final(self)@ == step(old(self).engine(), old(self)@, timestamp as int),
            event == event_of(old(self)@.phase, final(self)@),
            old(self)@.wf(old(self).engine()),
            final(self)@.wf(final(self).engine()),
    {
        proof {
            use_type_invariant(&*self);
            lemma_step_keeps_wf(self.engine, self@, timestamp as int);
        }
        let ghost before = self@;
        let engine = self.engine;
        let was = self.phase;
        let mut phase = SyncPhase::Unsynchronized;
        let mut reference: Option<u64> = None;
        let mut tooth_index: u32 = 0;
        let mut window: [u64; 4] = [0, 0, 0, 0];
        let mut window_len: usize = 0;
        match self.last_timestamp {
            None => {
                phase = self.phase;
                reference = self.reference;
                tooth_index = self.tooth_index;
                window = self.window;
                window_len = self.window_len;
            },
            Some(last) => {
                if timestamp > last {
                    let interval: u64 = timestamp - last;
                    match self.reference {
                        None => {
                            reference = Some(interval);
                            window = [interval, 0, 0, 0];
                            window_len = 1;
                        },
                        Some(expected) => {
                            match classify_interval(expected, interval, engine.ckp_tolerance) {
                                IntervalClass::Normal => {
                                    let present: u32 = engine.ckp_tooth_count
                                        - engine.ckp_missing_tooth;
                                    let counting = match self.phase {
                                        SyncPhase::Unsynchronized => false,
                                        _ => true,
                                    };
                                    if counting && self.tooth_index + 1 < present {
                                        phase = self.phase;
                                        tooth_index = self.tooth_index + 1;
                                    }
                                    reference = Some(interval);
                                    window =
                                    [interval, self.window[0], self.window[1], self.window[2]];
                                    window_len =
                                    if self.window_len < WINDOW {
                                        self.window_len + 1
                                    } else {
                                        WINDOW
                                    };
                                },
                                IntervalClass::Gap => {
                                    let present: u32 = engine.ckp_tooth_count
                                        - engine.ckp_missing_tooth;
                                    phase =
                                    match self.phase {
                                        SyncPhase::Unsynchronized => SyncPhase::Synchronizing,
                                        SyncPhase::Synchronizing => if self.tooth_index + 1
                                            == present {
                                            SyncPhase::Synchronized
                                        } else {
                                            SyncPhase::Synchronizing
                                        },
                                        SyncPhase::Synchronized => SyncPhase::Synchronized,
                                    };
                                    reference = self.reference;
                                    window = self.window;
                                    window_len = self.window_len;
                                },
                                IntervalClass::Irregular => {},
                            }
                        },
                    }
                }
            },
        }
        proof {
            let want = step(engine, before, timestamp as int);
            let held = Seq::new(window_len as nat, |i: int| window@[i] as int);
            assert(held =~= want.window);
            assert forall|i: int| 0 <= i < window_len implies #[trigger] window@[i] > 0 by {
                assert(held[i] == want.window[i]);
            }
        }
        let next = CrankDecoder {
            engine,
            phase,
            last_timestamp: Some(timestamp),
            reference,
            tooth_index,
            window,
            window_len,
        };
        proof {
            let want = step(engine, before, timestamp as int);
            assert(next@.window =~= want.window);
            assert(next@ == want);
        }
        *self = next;
        match was {
            SyncPhase::Synchronized => match phase {
                SyncPhase::Synchronized => if tooth_index == 0 {
                    EdgeEvent::SyncReference
                } else {
                    EdgeEvent::Tooth
                },
                _ => EdgeEvent::SyncLost,
            },
            _ => match phase {
                SyncPhase::Synchronized => EdgeEvent::SyncAcquired,
                _ => EdgeEvent::Tooth,
            },
        }
    }
}

} // verus!
