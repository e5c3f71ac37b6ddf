//! Laws of the crank decoder, stated over its model.
//!
//! The laws speak of streams of intervals rather than of timestamps: an
//! interval is fed to a decoder as the edge that comes that much later than
//! its last one.

use crate::config::Engine;
use crate::decoder::classify;
use crate::decoder::event_of;
use crate::decoder::initial;
use crate::decoder::is_gap;
use crate::decoder::is_normal;
use crate::decoder::lemma_step_keeps_wf;
use crate::decoder::step;
use crate::decoder::EdgeEvent;
use crate::decoder::IntervalClass;
use crate::decoder::SyncModel;
use crate::decoder::SyncPhase;
use vstd::prelude::*;

verus! {

/// The state after the edge that follows the last one by `interval`.
pub open spec fn feed(e: Engine, s: SyncModel, interval: int) -> SyncModel
    recommends
        s.last_timestamp is Some,
{
    match s.last_timestamp {
        Some(last) => step(e, s, last + interval),
        None => s,
    }
}

/// The state after a run of intervals, fed one after the other.
pub open spec fn feed_all(e: Engine, s: SyncModel, intervals: Seq<int>) -> SyncModel
    decreases intervals.len(),
{
    if intervals.len() == 0 {
        s
    } else {
        feed(e, feed_all(e, s, intervals.drop_last()), intervals.last())
    }
}

/// A run of `count` intervals of the same length.
pub open spec fn uniform(count: nat, interval: int) -> Seq<int> {
    Seq::new(count, |i: int| interval)
}

/// The class of interval that the wheel calls for next: the gap after the
/// last tooth of a turn, a regular interval otherwise.
pub open spec fn expected_class(e: Engine, s: SyncModel) -> IntervalClass {
    if s.tooth_index + 1 == e.present_teeth() {
        IntervalClass::Gap
    } else {
        IntervalClass::Normal
    }
}

/// The interval is of the class that the wheel calls for at this state.
pub open spec fn follows_geometry(e: Engine, s: SyncModel, interval: int) -> bool {
    s.reference matches Some(r) && classify(r, interval, e.ckp_tolerance as int) == expected_class(
        e,
        s,
    )
}

/// Every interval of the run is of the class that the wheel calls for at
/// the state in which it arrives.
pub open spec fn all_follow_geometry(e: Engine, s: SyncModel, intervals: Seq<int>) -> bool
    decreases intervals.len(),
{
    intervals.len() == 0 || (all_follow_geometry(e, s, intervals.drop_last()) && follows_geometry(
        e,
        feed_all(e, s, intervals.drop_last()),
        intervals.last(),
    ))
}

/// An interval that is regular or the gap, held against a positive
/// expectation on a valid wheel, is positive.
pub proof fn lemma_classified_interval_is_positive(e: Engine, r: int, interval: int)
    requires
        e.wf(),
        r > 0,
        !(classify(r, interval, e.ckp_tolerance as int) is Irregular),
    ensures
        interval > 0,
{
    let tol = e.ckp_tolerance as int;
    assert(tol <= 33);
    if is_normal(r, interval, tol) {
        assert((100 - tol) * r > 0) by (nonlinear_arith)
            requires
                0 <= tol <= 33,
                r > 0,
        ;
    } else {
        assert(is_gap(r, interval, tol));
        assert((100 - tol) * (2 * r) > 0) by (nonlinear_arith)
            requires
                0 <= tol <= 33,
                r > 0,
        ;
    }
}

/// An interval is regular when held against itself.
pub proof fn lemma_same_interval_is_normal(e: Engine, d: int)
    requires
        d > 0,
    ensures
        classify(d, d, e.ckp_tolerance as int) is Normal,
{
    let tol = e.ckp_tolerance as int;
    assert((100 - tol) * d <= 100 * d <= (100 + tol) * d) by (nonlinear_arith)
        requires
            tol >= 0,
            d > 0,
    ;
}

/// Robustness.  An interval that is neither regular nor the gap drops the
/// synchronization at once, whatever the phase was: the very next state is
/// unsynchronized and the tooth index is gone.  A decoder that was
/// synchronized reports the loss.
pub proof fn lemma_irregular_interval_drops_sync(e: Engine, s: SyncModel, interval: int)
    requires
        s.wf(e),
        s.reference matches Some(r) && classify(r, interval, e.ckp_tolerance as int) is Irregular,
    ensures
        feed(e, s, interval).phase is Unsynchronized,
        feed(e, s, interval).tooth_index == 0,
        feed(e, s, interval).reference is None,
        s.phase is Synchronized ==> event_of(s.phase, feed(e, s, interval)) is SyncLost,
{
}

/// One interval of the class that the wheel calls for keeps a synchronized
/// decoder synchronized.  The tooth index moves on by one at a regular
/// interval and goes back to zero at the gap, and only the gap reports the
/// reference.
pub proof fn lemma_expected_interval_keeps_sync(e: Engine, s: SyncModel, interval: int)
    requires
        s.wf(e),
        s.phase is Synchronized,
        follows_geometry(e, s, interval),
    ensures
        feed(e, s, interval).wf(e),
        feed(e, s, interval).phase is Synchronized,
        expected_class(e, s) is Gap ==> feed(e, s, interval).tooth_index == 0 && event_of(
            s.phase,
            feed(e, s, interval),
        ) is SyncReference,
        expected_class(e, s) is Normal ==> feed(e, s, interval).tooth_index == s.tooth_index + 1
            && event_of(s.phase, feed(e, s, interval)) is Tooth,
{
    let r = s.reference->0;
    let last = s.last_timestamp->0;
    lemma_classified_interval_is_positive(e, r, interval);
    lemma_step_keeps_wf(e, s, last + interval);
}

/// A run that follows the geometry does so in each of its beginnings.
pub proof fn lemma_follow_geometry_prefix(e: Engine, s: SyncModel, intervals: Seq<int>, k: int)
    requires
        all_follow_geometry(e, s, intervals),
        0 <= k <= intervals.len(),
    ensures
        all_follow_geometry(e, s, intervals.take(k)),
    decreases intervals.len(),
{
    if k == intervals.len() {
        assert(intervals.take(k) =~= intervals);
    } else {
        lemma_follow_geometry_prefix(e, s, intervals.drop_last(), k);
        assert(intervals.drop_last().take(k) =~= intervals.take(k));
    }
}

/// A synchronized decoder is still synchronized after a run of intervals
/// that follows the geometry of the wheel.
pub proof fn lemma_following_run_ends_synchronized(e: Engine, s: SyncModel, intervals: Seq<int>)
    requires
        s.wf(e),
        s.phase is Synchronized,
        all_follow_geometry(e, s, intervals),
    ensures
        feed_all(e, s, intervals).wf(e),
        feed_all(e, s, intervals).phase is Synchronized,
    decreases intervals.len(),
{
    if intervals.len() > 0 {
        lemma_following_run_ends_synchronized(e, s, intervals.drop_last());
        lemma_expected_interval_keeps_sync(
            e,
            feed_all(e, s, intervals.drop_last()),
            intervals.last(),
        );
    }
}

/// Idempotence.  Once synchronized, a run of intervals that follows the
/// geometry of the wheel never takes the decoder out of the synchronized
/// phase: it is synchronized after every edge of the run.  No edge of the
/// run reports that synchronization was lost or acquired anew; an edge
/// reports the reference exactly when it ends the gap.
pub proof fn lemma_consistent_intervals_never_resynchronize(
    e: Engine,
    s: SyncModel,
    intervals: Seq<int>,
)
    requires
        s.wf(e),
        s.phase is Synchronized,
        all_follow_geometry(e, s, intervals),
    ensures
        forall|k: int|
            0 <= k <= intervals.len() ==> (#[trigger] feed_all(
                e,
                s,
                intervals.take(k),
            )).phase is Synchronized,
        forall|k: int|
            0 <= k < intervals.len() ==> {
                let before = #[trigger] feed_all(e, s, intervals.take(k));
                let after = feed(e, before, intervals[k]);
                event_of(before.phase, after) == (if expected_class(e, before) is Gap {
                    EdgeEvent::SyncReference
                } else {
                    EdgeEvent::Tooth
                })
            },
{
    assert forall|k: int| 0 <= k <= intervals.len() implies (#[trigger] feed_all(
        e,
        s,
        intervals.take(k),
    )).phase is Synchronized by {
        lemma_follow_geometry_prefix(e, s, intervals, k);
        lemma_following_run_ends_synchronized(e, s, intervals.take(k));
    }
    assert forall|k: int| 0 <= k < intervals.len() implies {
        let before = #[trigger] feed_all(e, s, intervals.take(k));
        let after = feed(e, before, intervals[k]);
        event_of(before.phase, after) == (if expected_class(e, before) is Gap {
            EdgeEvent::SyncReference
        } else {
            EdgeEvent::Tooth
        })
    } by {
        let before = feed_all(e, s, intervals.take(k));
        lemma_follow_geometry_prefix(e, s, intervals, k);
        lemma_following_run_ends_synchronized(e, s, intervals.take(k));
        lemma_follow_geometry_prefix(e, s, intervals, k + 1);
        assert(intervals.take(k + 1).drop_last() =~= intervals.take(k));
        assert(intervals.take(k + 1).last() == intervals[k]);
        lemma_expected_interval_keeps_sync(e, before, intervals[k]);
    }
}

/// After the first edge and a run of equal intervals the decoder expects
/// that interval and is not synchronized.
pub proof fn lemma_uniform_lead_in(e: Engine, t0: int, d: int, count: nat)
    requires
        e.wf(),
        d > 0,
    ensures
        ({
            let s = feed_all(e, step(e, initial(), t0), uniform(count, d));
            &&& s.wf(e)
            &&& s.phase is Unsynchronized
            &&& s.last_timestamp is Some
            &&& (count >= 1 ==> s.reference == Some(d))
        }),
    decreases count,
{
    let first = step(e, initial(), t0);
    assert(initial().wf(e));
    lemma_step_keeps_wf(e, initial(), t0);
    if count > 0 {
        let front = uniform((count - 1) as nat, d);
        assert(uniform(count, d).drop_last() =~= front);
        assert(uniform(count, d).last() == d);
        lemma_uniform_lead_in(e, t0, d, (count - 1) as nat);
        let before = feed_all(e, first, front);
        lemma_step_keeps_wf(e, before, before.last_timestamp->0 + d);
        lemma_same_interval_is_normal(e, d);
    }
}

/// A decoder that counts teeth, fed equal intervals from the gap on, keeps
/// its phase and counts one tooth per interval for as long as the wheel has
/// teeth.
pub proof fn lemma_uniform_turn_counts_teeth(e: Engine, s: SyncModel, d: int, count: nat)
    requires
        s.wf(e),
        !(s.phase is Unsynchronized),
        s.tooth_index == 0,
        s.reference == Some(d),
        count < e.present_teeth(),
    ensures
        ({
            let n = feed_all(e, s, uniform(count, d));
            &&& n.wf(e)
            &&& n.phase == s.phase
            &&& n.tooth_index == count
            &&& n.reference == Some(d)
        }),
    decreases count,
{
    if count > 0 {
        let front = uniform((count - 1) as nat, d);
        assert(uniform(count, d).drop_last() =~= front);
        assert(uniform(count, d).last() == d);
        lemma_uniform_turn_counts_teeth(e, s, d, (count - 1) as nat);
        let before = feed_all(e, s, front);
        lemma_step_keeps_wf(e, before, before.last_timestamp->0 + d);
        lemma_same_interval_is_normal(e, d);
    }
}

/// The missed gap.  A decoder that counts teeth, fed from the gap on as
/// many equal intervals as the wheel has teeth, has seen one regular
/// interval where the gap was due, and is unsynchronized.
pub proof fn lemma_missed_gap_drops_sync(e: Engine, s: SyncModel, d: int)
    requires
        s.wf(e),
        !(s.phase is Unsynchronized),
        s.tooth_index == 0,
        s.reference == Some(d),
        d > 0,
    ensures
        feed_all(e, s, uniform(e.present_teeth() as nat, d)).phase is Unsynchronized,
        feed_all(e, s, uniform(e.present_teeth() as nat, d)).tooth_index == 0,
{
    let present = e.present_teeth() as nat;
    let front = uniform((present - 1) as nat, d);
    assert(uniform(present, d).drop_last() =~= front);
    assert(uniform(present, d).last() == d);
    lemma_uniform_turn_counts_teeth(e, s, d, (present - 1) as nat);
    lemma_same_interval_is_normal(e, d);
}

/// Acquisition.  From power-up, a stream of equal intervals `d` with one
/// gap `g` per turn of the wheel synchronizes the decoder exactly once:
/// it stays unsynchronized through the lead-in, takes the first gap as a
/// candidate with the tooth index at zero, counts the teeth of one full
/// turn without being synchronized, and becomes synchronized at the gap
/// that closes the turn, with the tooth index back at zero.
pub proof fn lemma_uniform_stream_synchronizes(e: Engine, t0: int, d: int, g: int, lead: nat)
    requires
        e.wf(),
        d > 0,
        lead >= 1,
        classify(d, g, e.ckp_tolerance as int) is Gap,
    ensures
        ({
            let first = step(e, initial(), t0);
            let led = feed_all(e, first, uniform(lead, d));
            let marked = feed(e, led, g);
            let turned = feed_all(e, marked, uniform((e.present_teeth() - 1) as nat, d));
            let locked = feed(e, turned, g);
            &&& forall|k: nat|
                k <= lead ==> (#[trigger] feed_all(e, first, uniform(k, d))).phase is Unsynchronized
            &&& marked.phase is Synchronizing
            &&& marked.tooth_index == 0
            &&& forall|k: nat|
                k < e.present_teeth() ==> {
                    let counted = #[trigger] feed_all(e, marked, uniform(k, d));
                    counted.phase is Synchronizing && counted.tooth_index == k
                }
            &&& locked.phase is Synchronized
            &&& locked.tooth_index == 0
            &&& event_of(turned.phase, locked) is SyncAcquired
        }),
{
    let first = step(e, initial(), t0);
    let led = feed_all(e, first, uniform(lead, d));
    assert forall|k: nat| k <= lead implies (#[trigger] feed_all(
        e,
        first,
        uniform(k, d),
    )).phase is Unsynchronized by {
        lemma_uniform_lead_in(e, t0, d, k);
    }
    lemma_uniform_lead_in(e, t0, d, lead);
    lemma_classified_interval_is_positive(e, d, g);
    let marked = feed(e, led, g);
    lemma_step_keeps_wf(e, led, led.last_timestamp->0 + g);
    assert(marked.phase is Synchronizing);
    assert(marked.reference == Some(d));
    assert forall|k: nat| k < e.present_teeth() implies {
        let counted = #[trigger] feed_all(e, marked, uniform(k, d));
        counted.phase is Synchronizing && counted.tooth_index == k
    } by {
        lemma_uniform_turn_counts_teeth(e, marked, d, k);
    }
    lemma_uniform_turn_counts_teeth(e, marked, d, (e.present_teeth() - 1) as nat);
}

/// Once per turn.  A synchronized decoder at the gap, fed the equal
/// intervals of one turn and then the gap, stays synchronized throughout
/// and counts the teeth; the edges of the turn report nothing, and the gap
/// reports the reference and puts the tooth index back to zero.
pub proof fn lemma_turn_reports_reference_once(e: Engine, s: SyncModel, d: int, g: int)
    requires
        s.wf(e),
        s.phase is Synchronized,
        s.tooth_index == 0,
        s.reference == Some(d),
        d > 0,
        classify(d, g, e.ckp_tolerance as int) is Gap,
    ensures
        ({
            let turned = feed_all(e, s, uniform((e.present_teeth() - 1) as nat, d));
            let closed = feed(e, turned, g);
            &&& forall|k: nat|
                k < e.present_teeth() ==> {
                    let counted = #[trigger] feed_all(e, s, uniform(k, d));
                    counted.phase is Synchronized && counted.tooth_index == k
                }
            &&& forall|k: nat|
                k + 1 < e.present_teeth() ==> {
                    let counted = #[trigger] feed_all(e, s, uniform(k, d));
                    event_of(counted.phase, feed(e, counted, d)) is Tooth
                }
            &&& closed.phase is Synchronized
            &&& closed.tooth_index == 0
            &&& closed.reference == Some(d)
            &&& event_of(turned.phase, closed) is SyncReference
        }),
{
    assert forall|k: nat| k < e.present_teeth() implies {
        let counted = #[trigger] feed_all(e, s, uniform(k, d));
        counted.phase is Synchronized && counted.tooth_index == k
    } by {
        lemma_uniform_turn_counts_teeth(e, s, d, k);
    }
    assert forall|k: nat| k + 1 < e.present_teeth() implies {
        let counted = #[trigger] feed_all(e, s, uniform(k, d));
        event_of(counted.phase, feed(e, counted, d)) is Tooth
    } by {
        lemma_uniform_turn_counts_teeth(e, s, d, k);
        lemma_same_interval_is_normal(e, d);
    }
    lemma_uniform_turn_counts_teeth(e, s, d, (e.present_teeth() - 1) as nat);
    lemma_classified_interval_is_positive(e, d, g);
}

} // verus!
