//! The debounce filter of one key over a whole stream of raw samples, and what
//! holds of every such stream.
use vstd::prelude::*;

use crate::kbd::{ColumnState, ColumnUpdate, KeyState, DEBOUNCE_TICKS, N_ROWS};

verus! {

/// The filter state after feeding `samples` in order, starting from `s`.
pub open spec fn run(s: KeyState, samples: Seq<bool>) -> KeyState
    decreases samples.len(),
{
    if samples.len() == 0 {
        s
    } else {
        run(s, samples.drop_last()).step(samples.last())
    }
}

/// The levels reported while feeding `samples` in order, starting from `s`:
/// `true` for each press, `false` for each release.
pub open spec fn reported(s: KeyState, samples: Seq<bool>) -> Seq<bool>
    decreases samples.len(),
{
    if samples.len() == 0 {
        seq![]
    } else {
        reported(s, samples.drop_last()) + if run(s, samples.drop_last()).reports(samples.last()) {
            seq![samples.last()]
        } else {
            seq![]
        }
    }
}

/// `samples` changes level on every cycle.
pub open spec fn toggles(samples: Seq<bool>) -> bool {
    forall|i: int| 0 <= i < samples.len() - 1 ==> #[trigger] samples[i] != samples[i + 1]
}

/// `n` samples, all at level `v`.
pub open spec fn held(v: bool, n: nat) -> Seq<bool> {
    Seq::new(n, |i: int| v)
}

proof fn lemma_toggle_state(s: KeyState, samples: Seq<bool>)
    requires
        s.ticks < DEBOUNCE_TICKS,
        toggles(samples),
    ensures
        reported(s, samples) == Seq::<bool>::empty(),
        samples.len() >= 1 ==> run(s, samples).staging == samples.last(),
        samples.len() >= 1 ==> run(s, samples).ticks <= DEBOUNCE_TICKS,
        samples.len() >= 2 ==> run(s, samples).ticks == 0,
    decreases samples.len(),
{
    if samples.len() > 0 {
        let p = samples.drop_last();
        assert forall|i: int| 0 <= i < p.len() - 1 implies #[trigger] p[i] != p[i + 1] by {
            assert(samples[i] != samples[i + 1]);
        }
        lemma_toggle_state(s, p);
        if p.len() >= 1 {
            assert(samples[p.len() - 1] != samples[p.len() as int]);
        }
        assert(reported(s, samples) =~= Seq::<bool>::empty());
    }
}

/// Bounce rejection: a raw signal that changes level on every cycle is never
/// reported, from any state that has not already confirmed a level.
pub proof fn lemma_bounce_rejected(s: KeyState, samples: Seq<bool>)
    requires
        s.ticks < DEBOUNCE_TICKS,
        toggles(samples),
    ensures
        reported(s, samples).len() == 0,
{
    lemma_toggle_state(s, samples);
}

/// The length of the run of equal samples that ends `samples[0..n]`.
pub open spec fn trailing_run(samples: Seq<bool>, n: int) -> int
    decreases n,
{
    if n <= 0 {
        0
    } else if n >= 2 && samples[n - 1] == samples[n - 2] {
        trailing_run(samples, n - 1) + 1
    } else {
        1
    }
}

proof fn lemma_short_run_state(s: KeyState, samples: Seq<bool>)
    requires
        s.ticks == 0 || samples.len() == 0 || s.staging != samples[0],
        forall|n: int| 0 <= n <= samples.len() ==> #[trigger] trailing_run(samples, n) < DEBOUNCE_TICKS,
    ensures
        reported(s, samples) == Seq::<bool>::empty(),
        run(s, samples).stable == s.stable,
        samples.len() >= 1 ==> run(s, samples).staging == samples.last(),
        samples.len() >= 1 ==> run(s, samples).ticks <= trailing_run(samples, samples.len() as int),
        samples.len() == 0 ==> run(s, samples) == s,
    decreases samples.len(),
{
    if samples.len() > 0 {
        let p = samples.drop_last();
        let n = samples.len() as int;
        assert forall|m: int| 0 <= m <= n - 1 implies trailing_run(p, m) == trailing_run(samples, m) by {
            lemma_trailing_run_prefix(samples, p, m);
        }
        assert forall|m: int| 0 <= m <= p.len() implies #[trigger] trailing_run(p, m) < DEBOUNCE_TICKS by {
            assert(trailing_run(samples, m) < DEBOUNCE_TICKS);
        }
        if p.len() == 0 {
        } else {
            assert(p[0] == samples[0]);
        }
        lemma_short_run_state(s, p);
        assert(trailing_run(samples, n) < DEBOUNCE_TICKS);
        assert(trailing_run(samples, n - 1) < DEBOUNCE_TICKS);
        assert(reported(s, samples) =~= Seq::<bool>::empty());
    }
}

proof fn lemma_trailing_run_prefix(samples: Seq<bool>, p: Seq<bool>, m: int)
    requires
        p.len() <= samples.len(),
        0 <= m <= p.len(),
        forall|i: int| 0 <= i < p.len() ==> p[i] == samples[i],
    ensures
        trailing_run(p, m) == trailing_run(samples, m),
    decreases m,
{
    if m > 0 {
        lemma_trailing_run_prefix(samples, p, m - 1);
    }
}

/// Bounce rejection, in general: a raw signal in which no level is held for
/// `DEBOUNCE_TICKS` consecutive samples is never reported and leaves the
/// reported level unchanged, starting at boot (or from any state with no
/// agreement counted, or whose first sample already disagrees with the level
/// being confirmed).
pub proof fn lemma_short_runs_rejected(s: KeyState, samples: Seq<bool>)
    requires
        s.ticks == 0 || (samples.len() > 0 && s.staging != samples[0]),
        forall|n: int| 0 <= n <= samples.len() ==> #[trigger] trailing_run(samples, n) < DEBOUNCE_TICKS,
    ensures
        reported(s, samples).len() == 0,
        run(s, samples).stable == s.stable,
{
    lemma_short_run_state(s, samples);
}

proof fn lemma_hold_state(s: KeyState, v: bool, n: nat)
    requires
        s.stable == !v,
        s.staging == !v,
    ensures
        reported(s, held(v, n)) == if n >= DEBOUNCE_TICKS + 2 {
            seq![v]
        } else {
            Seq::<bool>::empty()
        },
        n >= 1 ==> run(s, held(v, n)).staging == v,
        n >= 1 ==> run(s, held(v, n)).ticks == if n - 1 < DEBOUNCE_TICKS {
            (n - 1) as int
        } else {
            DEBOUNCE_TICKS as int
        },
        n >= 1 ==> run(s, held(v, n)).stable == (if n >= DEBOUNCE_TICKS + 2 {
            v
        } else {
            !v
        }),
    decreases n,
{
    if n > 0 {
        assert(held(v, n).drop_last() =~= held(v, (n - 1) as nat));
        lemma_hold_state(s, v, (n - 1) as nat);
        if n >= DEBOUNCE_TICKS + 2 {
            assert(reported(s, held(v, n)) =~= seq![v]);
        } else {
            assert(reported(s, held(v, n)) =~= Seq::<bool>::empty());
        }
    }
}

/// Confirmation delay: a key settled at one level whose raw signal changes to
/// the other level and stays there is reported exactly once. The report comes
/// on the sample that finds `staging` already held for `DEBOUNCE_TICKS`
/// cycles: the first sample moves `staging`, the next `DEBOUNCE_TICKS` count
/// up to the threshold, and the one after confirms. Nothing is reported before.
pub proof fn lemma_confirmation_delay(s: KeyState, v: bool, n: nat)
    requires
        s.stable == !v,
        s.staging == !v,
    ensures
        n < DEBOUNCE_TICKS + 2 ==> reported(s, held(v, n)).len() == 0,
        n >= DEBOUNCE_TICKS + 2 ==> reported(s, held(v, n)) == seq![v],
{
    lemma_hold_state(s, v, n);
}

proof fn lemma_steady_state(s: KeyState, samples: Seq<bool>)
    requires
        forall|i: int| 0 <= i < samples.len() ==> #[trigger] samples[i] == s.stable,
    ensures
        reported(s, samples).len() == 0,
        run(s, samples).stable == s.stable,
    decreases samples.len(),
{
    if samples.len() > 0 {
        lemma_steady_state(s, samples.drop_last());
    }
}

/// No duplicate reporting: once a level has been reported, further raw samples
/// at that same level report nothing.
pub proof fn lemma_no_duplicate_report(s: KeyState, samples: Seq<bool>)
    requires
        forall|i: int| 0 <= i < samples.len() ==> #[trigger] samples[i] == s.stable,
    ensures
        reported(s, samples).len() == 0,
{
    lemma_steady_state(s, samples);
}

/// Reports alternate: whatever the raw samples, presses and releases are
/// reported in turn, starting with the level opposite to the one last reported,
/// so a second press is never reported without a release in between.
pub proof fn lemma_reports_alternate(s: KeyState, samples: Seq<bool>)
    ensures
        forall|i: int|
            0 <= i < reported(s, samples).len() ==> #[trigger] reported(s, samples)[i] == (if i
                % 2 == 0 {
                !s.stable
            } else {
                s.stable
            }),
        run(s, samples).stable == (if reported(s, samples).len() % 2 == 0 {
            s.stable
        } else {
            !s.stable
        }),
    decreases samples.len(),
{
    if samples.len() > 0 {
        lemma_reports_alternate(s, samples.drop_last());
    }
}


/// The samples of row `r` in a stream of column samples.
pub open spec fn row_samples(columns: Seq<ColumnState>, r: int) -> Seq<bool> {
    Seq::new(columns.len(), |i: int| columns[i]@[r])
}

/// Successive `ColumnUpdate::apply` calls follow the stream model: when
/// `states[i + 1]` is what `apply(samples[i])` left of `states[i]`, row `r`
/// after `n` calls is in `run` of its first `n` samples, so call `n` reports a
/// change of row `r` exactly when `reported` grows at that sample, and every
/// law above holds of the results of the calls.
pub proof fn lemma_apply_sequence(states: Seq<ColumnUpdate>, samples: Seq<ColumnState>, r: int)
    requires
        states.len() == samples.len() + 1,
        0 <= r < N_ROWS,
        forall|i: int|
            0 <= i < samples.len() ==> #[trigger] states[i + 1]@[r] == states[i]@[r].step(
                samples[i]@[r],
            ),
    ensures
        forall|n: int|
            0 <= n <= samples.len() ==> #[trigger] states[n]@[r] == run(
                states[0]@[r],
                row_samples(samples.take(n), r),
            ),
{
    assert forall|n: int| 0 <= n <= samples.len() implies #[trigger] states[n]@[r] == run(
        states[0]@[r],
        row_samples(samples.take(n), r),
    ) by {
        lemma_apply_prefix(states, samples, r, n);
    }
}

proof fn lemma_apply_prefix(states: Seq<ColumnUpdate>, samples: Seq<ColumnState>, r: int, n: int)
    requires
        states.len() == samples.len() + 1,
        0 <= r < N_ROWS,
        0 <= n <= samples.len(),
        forall|i: int|
            0 <= i < samples.len() ==> #[trigger] states[i + 1]@[r] == states[i]@[r].step(
                samples[i]@[r],
            ),
    ensures
        states[n]@[r] == run(states[0]@[r], row_samples(samples.take(n), r)),
    decreases n,
{
    if n > 0 {
        lemma_apply_prefix(states, samples, r, n - 1);
        let cur = row_samples(samples.take(n), r);
        assert(cur.drop_last() =~= row_samples(samples.take(n - 1), r));
        assert(cur.last() == samples[n - 1]@[r]);
        assert(states[(n - 1) + 1]@[r] == states[n - 1]@[r].step(samples[n - 1]@[r]));
    } else {
        assert(row_samples(samples.take(0), r) =~= Seq::<bool>::empty());
    }
}

} // verus!
