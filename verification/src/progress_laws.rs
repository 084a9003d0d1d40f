//! Laws of the progress values that are published while writes end.

use crate::db_writer::{Progress, TrackerView, WriteOutcome};
use vstd::prelude::*;

verus! {

/// What a tracker that started at nothing has counted and published after some
/// of its writes have ended.
pub proof fn lemma_published(total: nat, outcomes: Seq<WriteOutcome>)
    requires
        outcomes.len() <= total <= u64::MAX,
    ensures
        TrackerView::fresh(total).run(outcomes).total == total,
        TrackerView::fresh(total).run(outcomes).completed == outcomes.len(),
        TrackerView::fresh(total).run(outcomes).failed <= outcomes.len(),
        TrackerView::fresh(total).published(outcomes).len() == outcomes.len(),
        forall|i: int|
            0 <= i < outcomes.len() ==> #[trigger] TrackerView::fresh(total).published(outcomes)[i]
                == (Progress { completed: (i + 1) as u64, total: total as u64 }),
    decreases outcomes.len(),
{
    if outcomes.len() > 0 {
        lemma_published(total, outcomes.drop_last());
    }
}

/// Whatever the outcomes of the writes, the values published for a run never
/// go down, the first of them is more than nothing, and the last is exactly
/// one hundred. This holds of a run with no write at all, too.
pub proof fn lemma_progress_rises(total: nat, outcomes: Seq<WriteOutcome>)
    requires
        outcomes.len() == total <= u64::MAX,
    ensures
        ({
            let values = TrackerView::fresh(total).published_in_all(outcomes);
            &&& values.len() == total + 1
            &&& forall|i: int| 0 <= i < values.len() ==> (#[trigger] values[i]).valid()
            &&& forall|i: int, j: int|
                0 <= i <= j < values.len() ==> (#[trigger] values[i]).le(#[trigger] values[j])
            &&& values.first().positive()
            &&& values.last().is_hundred()
            &&& TrackerView::fresh(total).run(outcomes).done()
        }),
{
    let values = TrackerView::fresh(total).published_in_all(outcomes);
    lemma_published(total, outcomes);
    assert forall|i: int, j: int| 0 <= i <= j < values.len() implies (#[trigger] values[i]).le(
        #[trigger] values[j],
    ) by {
        let published = TrackerView::fresh(total).published(outcomes);
        if j < total {
            assert(values[i] == published[i] && values[j] == published[j]);
            assert(values[i].completed == i + 1 && values[i].total == total);
            assert(values[j].completed == j + 1 && values[j].total == total);
            assert((i + 1) * total <= (j + 1) * total) by (nonlinear_arith)
                requires
                    0 <= i <= j,
                    0 <= total,
            ;
        } else if i < total {
            assert(values[i] == published[i]);
            assert(values[i].completed == i + 1 && values[i].total == total);
            assert(values[j].completed == 1 && values[j].total == 1);
            assert((i + 1) * 1 <= 1 * total) by (nonlinear_arith)
                requires
                    i + 1 <= total,
            ;
        }
    }
}

} // verus!
