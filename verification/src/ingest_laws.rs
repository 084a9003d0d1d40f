//! Laws of a run: what it hands out and publishes over whole sequences of
//! events, and what holds of it at every moment.

use crate::batch_laws::{batch_count, batches, lemma_run_batches};
use crate::db_writer::{Progress, TrackerView, WriteOutcome, WriterView};
use crate::ingest::{stepped, EventView, ExitCodes, IngestView, Next, ProducerOutcome, Stage, StepView};
use crate::downloader::FilterMap;
use crate::intake_laws::accepted;
use crate::progress_laws::{lemma_progress_rises, lemma_published};
use vstd::prelude::*;

verus! {

/// The run after these events, taken in order.
pub open spec fn ran<V>(run: IngestView<V>, events: Seq<EventView<V>>) -> IngestView<
    V,
>
    decreases events.len(),
{
    if events.len() == 0 {
        run
    } else {
        stepped::<V>(ran::<V>(run, events.drop_last()), events.last()).0
    }
}

/// What was decided for each of these events, in order.
pub open spec fn steps<V>(run: IngestView<V>, events: Seq<EventView<V>>) -> Seq<
    StepView<V>,
>
    decreases events.len(),
{
    if events.len() == 0 {
        Seq::empty()
    } else {
        steps::<V>(run, events.drop_last()).push(
            stepped::<V>(ran::<V>(run, events.drop_last()), events.last()).1,
        )
    }
}

/// The batches that these steps hand out, in order.
pub open spec fn dispatches<V>(steps: Seq<StepView<V>>) -> Seq<Seq<V>>
    decreases steps.len(),
{
    if steps.len() == 0 {
        Seq::empty()
    } else {
        match steps.last().dispatch {
            Some(batch) => dispatches(steps.drop_last()).push(batch),
            None => dispatches(steps.drop_last()),
        }
    }
}

/// The progress values that these steps publish, in order.
pub open spec fn progress_of<V>(steps: Seq<StepView<V>>) -> Seq<Progress>
    decreases steps.len(),
{
    if steps.len() == 0 {
        Seq::empty()
    } else {
        progress_of(steps.drop_last()) + steps.last().progress
    }
}

/// The events of records arriving, one for each record with its position.
pub open spec fn envelopes<V>(records: Seq<V>, positions: Seq<u64>) -> Seq<EventView<V>> {
    Seq::new(
        records.len(),
        |i: int| EventView::Envelope { record: records[i], position: positions[i] },
    )
}

/// The events of writes ending with these outcomes, in order.
pub open spec fn write_events<V>(outcomes: Seq<WriteOutcome>) -> Seq<EventView<V>> {
    Seq::new(outcomes.len(), |i: int| EventView::WriteFinished(outcomes[i]))
}

/// The events with which a run starts when the input opens and the store is
/// made ready.
pub open spec fn opening_events<V>(length: Option<u64>) -> Seq<EventView<V>> {
    seq![
        EventView::SourceOpened(length),
        EventView::CollectionDropped,
        EventView::IndexCreated,
    ]
}

/// The events with which the input ends.
pub open spec fn closing_events<V>(outcome: ProducerOutcome) -> Seq<EventView<V>> {
    seq![EventView::QueueClosed, EventView::ProducerJoined(outcome)]
}

/// Events taken one after the other are events taken in two parts.
pub proof fn lemma_ran_append<V>(
    run: IngestView<V>,
    first: Seq<EventView<V>>,
    second: Seq<EventView<V>>,
)
    ensures
        ran::<V>(run, first + second) == ran::<V>(ran::<V>(run, first), second),
        steps::<V>(run, first + second) == steps::<V>(run, first) + steps::<V>(
            ran::<V>(run, first),
            second,
        ),
    decreases second.len(),
{
    if second.len() == 0 {
        assert(first + second =~= first);
        assert(steps::<V>(run, first) + steps::<V>(ran::<V>(run, first), second) =~= steps::<V>(
            run,
            first,
        ));
    } else {
        lemma_ran_append::<V>(run, first, second.drop_last());
        assert((first + second).drop_last() =~= first + second.drop_last());
        assert((first + second).last() == second.last());
        assert(steps::<V>(run, first + second) =~= steps::<V>(run, first) + steps::<V>(
            ran::<V>(run, first),
            second,
        ));
    }
}

/// What steps hand out and publish is what their parts hand out and publish.
pub proof fn lemma_outputs_append<V>(first: Seq<StepView<V>>, second: Seq<StepView<V>>)
    ensures
        dispatches(first + second) == dispatches(first) + dispatches(second),
        progress_of(first + second) == progress_of(first) + progress_of(second),
    decreases second.len(),
{
    if second.len() == 0 {
        assert(first + second =~= first);
        assert(dispatches(first) + dispatches(second) =~= dispatches(first));
        assert(progress_of(first) + progress_of(second) =~= progress_of(first));
    } else {
        lemma_outputs_append(first, second.drop_last());
        assert((first + second).drop_last() =~= first + second.drop_last());
        assert((first + second).last() == second.last());
        assert(dispatches(first + second) =~= dispatches(first) + dispatches(second));
        assert(progress_of(first + second) =~= progress_of(first) + progress_of(second));
    }
}

/// One event gives one step.
pub proof fn lemma_one_event<V>(run: IngestView<V>, event: EventView<V>)
    ensures
        ran::<V>(run, seq![event]) == stepped::<V>(run, event).0,
        steps::<V>(run, seq![event]) == seq![stepped::<V>(run, event).1],
{
    reveal_with_fuel(ran, 2);
    reveal_with_fuel(steps, 2);
    assert(seq![event].drop_last() =~= Seq::<EventView<V>>::empty());
    assert(steps::<V>(run, seq![event]) =~= seq![stepped::<V>(run, event).1]);
}

/// Two events give two steps, the second decided from where the first left
/// the run.
pub proof fn lemma_two_events<V>(
    run: IngestView<V>,
    first: EventView<V>,
    second: EventView<V>,
)
    ensures
        ran::<V>(run, seq![first, second]) == stepped::<V>(
            stepped::<V>(run, first).0,
            second,
        ).0,
        steps::<V>(run, seq![first, second]) == seq![
            stepped::<V>(run, first).1,
            stepped::<V>(stepped::<V>(run, first).0, second).1,
        ],
{
    lemma_one_event::<V>(run, first);
    lemma_one_event::<V>(stepped::<V>(run, first).0, second);
    lemma_ran_append::<V>(run, seq![first], seq![second]);
    assert(seq![first, second] =~= seq![first] + seq![second]);
    assert(steps::<V>(run, seq![first, second]) =~= seq![
        stepped::<V>(run, first).1,
        stepped::<V>(stepped::<V>(run, first).0, second).1,
    ]);
}

/// What a single step hands out and publishes.
pub proof fn lemma_one_output<V>(step: StepView<V>)
    ensures
        dispatches(seq![step]) == (match step.dispatch {
            Some(batch) => seq![batch],
            None => Seq::empty(),
        }),
        progress_of(seq![step]) == step.progress,
{
    reveal_with_fuel(dispatches, 2);
    reveal_with_fuel(progress_of, 2);
    assert(seq![step].drop_last() =~= Seq::<StepView<V>>::empty());
    assert(dispatches(seq![step]) =~= (match step.dispatch {
        Some(batch) => seq![batch],
        None => Seq::empty(),
    }));
    assert(progress_of(seq![step]) =~= step.progress);
}

/// The `j`-th step is decided from the run as it stands after the `j` events
/// before it.
pub proof fn lemma_step_at<V>(
    run: IngestView<V>,
    events: Seq<EventView<V>>,
    j: int,
)
    requires
        0 <= j < events.len(),
    ensures
        steps::<V>(run, events).len() == events.len(),
        steps::<V>(run, events)[j] == stepped::<V>(ran::<V>(run, events.take(j)), events[j]).1,
        ran::<V>(run, events.take(j + 1)) == stepped::<V>(
            ran::<V>(run, events.take(j)),
            events[j],
        ).0,
    decreases events.len(),
{
    lemma_steps_len::<V>(run, events);
    assert(events.take(j + 1).drop_last() =~= events.take(j));
    assert(events.take(j + 1).last() == events[j]);
    if j == events.len() - 1 {
        assert(events.take(j) =~= events.drop_last());
    } else {
        lemma_step_at::<V>(run, events.drop_last(), j);
        assert(events.drop_last().take(j) =~= events.take(j));
    }
}

/// There is one step for each event.
pub proof fn lemma_steps_len<V>(run: IngestView<V>, events: Seq<EventView<V>>)
    ensures
        steps::<V>(run, events).len() == events.len(),
    decreases events.len(),
{
    if events.len() > 0 {
        lemma_steps_len::<V>(run, events.drop_last());
    }
}

/// A run never goes back to an earlier stage, and once it is over it stays as
/// it is and decides nothing more.
pub proof fn lemma_stage_rises<V>(run: IngestView<V>, event: EventView<V>)
    ensures
        stepped::<V>(run, event).0.stage.rank() >= run.stage.rank(),
        run.stage == Stage::Finished ==> stepped::<V>(run, event) == (
            run,
            StepView::<V>::idle(Next::Exit(run.exit)),
        ),
{
}

/// After more events a run stands no earlier than after fewer.
pub proof fn lemma_ran_stage_rises<V>(
    run: IngestView<V>,
    events: Seq<EventView<V>>,
    j: int,
)
    requires
        0 <= j <= events.len(),
    ensures
        ran::<V>(run, events.take(j)).stage.rank() <= ran::<V>(run, events).stage.rank(),
    decreases events.len() - j,
{
    if j == events.len() {
        assert(events.take(j) =~= events);
    } else {
        lemma_ran_stage_rises::<V>(run, events, j + 1);
        lemma_step_at::<V>(run, events, j);
        lemma_stage_rises::<V>(ran::<V>(run, events.take(j)), events[j]);
    }
}

/// The run has not begun to take records, and its writer is empty.
pub open spec fn before_streaming<V>(run: IngestView<V>) -> bool {
    &&& run.stage.rank() <= 2
    &&& run.writer.pending.len() == 0
    &&& run.writer.dispatched == 0
}

/// Until the collection is dropped and its index created, no step hands out
/// a batch; and a failure of either ends the run for good, with the exit code
/// of a store failure.
pub proof fn lemma_no_write_before_store_is_ready<V>(
    run: IngestView<V>,
    event: EventView<V>,
)
    requires
        before_streaming(run),
    ensures
        stepped::<V>(run, event).1.dispatch is None,
        stepped::<V>(run, event).0.writer.pending.len() == 0,
        stepped::<V>(run, event).0.writer.dispatched == 0,
        stepped::<V>(run, event).0.stage.rank() <= 2 ==> before_streaming(
            stepped::<V>(run, event).0,
        ),
        (run.stage == Stage::Dropping && event is DropFailed) || (run.stage == Stage::Indexing
            && event is IndexFailed) ==> {
            &&& stepped::<V>(run, event).0.stage == Stage::Finished
            &&& stepped::<V>(run, event).0.exit == ExitCodes::DatabaseError
            &&& stepped::<V>(run, event).1 == StepView::<V>::idle(
                Next::Exit(ExitCodes::DatabaseError),
            )
            &&& stepped::<V>(run, event).0.tracker == run.tracker
        },
{
}

/// If dropping the collection or creating the index fails, no batch is ever
/// handed out to be written: not before the failure, and not after it,
/// whatever events follow. The run ends with the exit code of a store
/// failure.
pub proof fn lemma_store_failure_writes_nothing<V>(
    chunk_size: nat,
    events: Seq<EventView<V>>,
    k: int,
)
    requires
        0 <= k < events.len(),
        ({
            let start = IngestView::start(WriterView::<V>::fresh(chunk_size));
            let before = ran::<V>(start, events.take(k));
            ||| before.stage == Stage::Dropping && events[k] is DropFailed
            ||| before.stage == Stage::Indexing && events[k] is IndexFailed
        }),
    ensures
        ({
            let start = IngestView::start(WriterView::<V>::fresh(chunk_size));
            &&& forall|j: int|
                0 <= j < events.len() ==> (#[trigger] steps::<V>(start, events)[j]).dispatch is None
            &&& dispatches(steps::<V>(start, events)) == Seq::<Seq<V>>::empty()
            &&& ran::<V>(start, events).stage == Stage::Finished
            &&& ran::<V>(start, events).exit == ExitCodes::DatabaseError
            &&& ran::<V>(start, events).writer.dispatched == 0
        }),
{
    let start = IngestView::start(WriterView::<V>::fresh(chunk_size));
    lemma_steps_len::<V>(start, events);
    // Up to the failure the run has not begun to take records.
    assert forall|j: int| 0 <= j <= k implies before_streaming(
        #[trigger] ran::<V>(start, events.take(j)),
    ) by {
        lemma_early_prefix::<V>(start, events, k, j);
    }
    // From the failure on the run is over.
    assert forall|j: int| k < j <= events.len() implies {
        let at = #[trigger] ran::<V>(start, events.take(j));
        at.stage == Stage::Finished && at.exit == ExitCodes::DatabaseError && at.writer.dispatched
            == 0
    } by {
        lemma_over_suffix::<V>(start, events, k, j);
    }
    assert forall|j: int| 0 <= j < events.len() implies (#[trigger] steps::<V>(
        start,
        events,
    )[j]).dispatch is None by {
        lemma_step_at::<V>(start, events, j);
        let at = ran::<V>(start, events.take(j));
        if j <= k {
            lemma_no_write_before_store_is_ready::<V>(at, events[j]);
        } else {
            lemma_stage_rises::<V>(at, events[j]);
        }
    }
    assert(events.take(events.len() as int) =~= events);
    lemma_no_dispatches(steps::<V>(start, events));
}

/// Steps that hand out nothing hand out nothing together.
proof fn lemma_no_dispatches<V>(steps: Seq<StepView<V>>)
    requires
        forall|j: int| 0 <= j < steps.len() ==> (#[trigger] steps[j]).dispatch is None,
    ensures
        dispatches(steps) == Seq::<Seq<V>>::empty(),
    decreases steps.len(),
{
    if steps.len() > 0 {
        lemma_no_dispatches(steps.drop_last());
    }
}

/// Steps that publish nothing publish nothing together.
proof fn lemma_no_progress<V>(steps: Seq<StepView<V>>)
    requires
        forall|j: int| 0 <= j < steps.len() ==> (#[trigger] steps[j]).progress.len() == 0,
    ensures
        progress_of(steps) == Seq::<Progress>::empty(),
    decreases steps.len(),
{
    if steps.len() > 0 {
        lemma_no_progress(steps.drop_last());
        assert(progress_of(steps) =~= Seq::<Progress>::empty());
    }
}

/// A run that stands before the taking of records after `k` events stood
/// there, with an empty writer, after each smaller number of events.
proof fn lemma_early_prefix<V>(
    start: IngestView<V>,
    events: Seq<EventView<V>>,
    k: int,
    j: int,
)
    requires
        0 <= j <= k < events.len(),
        before_streaming(start),
        ran::<V>(start, events.take(k)).stage.rank() <= 2,
    ensures
        before_streaming(ran::<V>(start, events.take(j))),
    decreases j,
{
    if j == 0 {
        assert(events.take(0) =~= Seq::<EventView<V>>::empty());
    } else {
        lemma_early_prefix::<V>(start, events, k, j - 1);
        lemma_step_at::<V>(start, events, j - 1);
        let at = ran::<V>(start, events.take(j - 1));
        lemma_no_write_before_store_is_ready::<V>(at, events[j - 1]);
        lemma_ran_stage_rises::<V>(start, events.take(k), j);
        assert(events.take(k).take(j) =~= events.take(j));
    }
}

/// Once the store has failed at event `k`, the run is over after every
/// larger number of events.
proof fn lemma_over_suffix<V>(
    start: IngestView<V>,
    events: Seq<EventView<V>>,
    k: int,
    j: int,
)
    requires
        0 <= k < j <= events.len(),
        before_streaming(ran::<V>(start, events.take(k))),
        ({
            let before = ran::<V>(start, events.take(k));
            ||| before.stage == Stage::Dropping && events[k] is DropFailed
            ||| before.stage == Stage::Indexing && events[k] is IndexFailed
        }),
    ensures
        ran::<V>(start, events.take(j)).stage == Stage::Finished,
        ran::<V>(start, events.take(j)).exit == ExitCodes::DatabaseError,
        ran::<V>(start, events.take(j)).writer.dispatched == 0,
    decreases j,
{
    lemma_step_at::<V>(start, events, j - 1);
    let at = ran::<V>(start, events.take(j - 1));
    if j - 1 == k {
        lemma_no_write_before_store_is_ready::<V>(at, events[k]);
    } else {
        lemma_over_suffix::<V>(start, events, k, j - 1);
        lemma_stage_rises::<V>(at, events[j - 1]);
    }
}

/// While records are taken, the run adds each to its writer and moves the
/// indicator to its place; nothing else changes and nothing is published.
pub proof fn lemma_streaming<V>(
    run: IngestView<V>,
    records: Seq<V>,
    positions: Seq<u64>,
)
    requires
        run.stage == Stage::Streaming,
        records.len() == positions.len(),
    ensures
        ran::<V>(run, envelopes(records, positions)) == (IngestView {
            writer: run.writer.feed(records),
            ..run
        }),
        steps::<V>(run, envelopes(records, positions)).len() == records.len(),
        dispatches(steps::<V>(run, envelopes(records, positions))) == run.writer.fed_batches(
            records,
        ),
        progress_of(steps::<V>(run, envelopes(records, positions))) == Seq::<Progress>::empty(),
        forall|i: int|
            0 <= i < records.len() ==> {
                &&& (#[trigger] steps::<V>(run, envelopes(records, positions))[i]).position
                    == Some(positions[i])
                &&& steps::<V>(run, envelopes(records, positions))[i].next == Next::Receive
            },
    decreases records.len(),
{
    let events = envelopes(records, positions);
    if records.len() > 0 {
        let front = envelopes(records.drop_last(), positions.drop_last());
        lemma_streaming::<V>(run, records.drop_last(), positions.drop_last());
        assert(events.drop_last() =~= front);
        assert(events.last() == EventView::Envelope {
            record: records.last(),
            position: positions.last(),
        });
        let all = steps::<V>(run, events);
        assert(all.drop_last() =~= steps::<V>(run, front));
        assert(progress_of(all) =~= Seq::<Progress>::empty());
        assert forall|i: int| 0 <= i < records.len() implies {
            &&& (#[trigger] all[i]).position == Some(positions[i])
            &&& all[i].next == Next::Receive
        } by {
            if i < records.len() - 1 {
                assert(all[i] == steps::<V>(run, front)[i]);
            }
        }
    } else {
        assert(run.writer.feed(records) == run.writer);
    }
}

/// While the writes are waited for, each write that ends is counted and its
/// progress published, whatever its outcome; the run waits for the next one
/// until the last has ended, then publishes the closing value and ends with
/// the exit code it had decided on.
pub proof fn lemma_tracking<V>(
    run: IngestView<V>,
    total: nat,
    outcomes: Seq<WriteOutcome>,
)
    requires
        run.stage == Stage::Tracking,
        run.tracker == TrackerView::fresh(total),
        outcomes.len() <= total <= u64::MAX,
        0 < total,
    ensures
        ({
            let all = steps::<V>(run, write_events(outcomes));
            let end = ran::<V>(run, write_events(outcomes));
            &&& all.len() == outcomes.len()
            &&& dispatches(all) == Seq::<Seq<V>>::empty()
            &&& end.tracker == TrackerView::fresh(total).run(outcomes)
            &&& end.exit == run.exit
            &&& end.writer == run.writer
            &&& end.content_length == run.content_length
            &&& outcomes.len() < total ==> {
                &&& end.stage == Stage::Tracking
                &&& progress_of(all) == TrackerView::fresh(total).published(outcomes)
                &&& forall|i: int| 0 <= i < all.len() ==> (#[trigger] all[i]).next == Next::AwaitWrite
            }
            &&& outcomes.len() == total ==> {
                &&& end.stage == Stage::Finished
                &&& progress_of(all) == TrackerView::fresh(total).published_in_all(outcomes)
                &&& all.last().next == Next::Exit(run.exit)
                &&& forall|i: int|
                    0 <= i < all.len() - 1 ==> (#[trigger] all[i]).next == Next::AwaitWrite
            }
        }),
    decreases outcomes.len(),
{
    let events = write_events::<V>(outcomes);
    let all = steps::<V>(run, events);
    if outcomes.len() > 0 {
        let front = write_events::<V>(outcomes.drop_last());
        lemma_tracking::<V>(run, total, outcomes.drop_last());
        lemma_published(total, outcomes.drop_last());
        assert(events.drop_last() =~= front);
        assert(events.last() == EventView::<V>::WriteFinished(outcomes.last()));
        assert(all.drop_last() =~= steps::<V>(run, front));
        let before = ran::<V>(run, front);
        assert(!before.tracker.done());
        let fresh = TrackerView::fresh(total);
        if outcomes.len() < total {
            assert(progress_of(all) =~= fresh.published(outcomes));
            assert forall|i: int| 0 <= i < all.len() implies (#[trigger] all[i]).next
                == Next::AwaitWrite by {
                if i < all.len() - 1 {
                    assert(all[i] == steps::<V>(run, front)[i]);
                }
            }
        } else {
            assert(progress_of(all) =~= fresh.published_in_all(outcomes));
            assert forall|i: int| 0 <= i < all.len() - 1 implies (#[trigger] all[i]).next
                == Next::AwaitWrite by {
                assert(all[i] == steps::<V>(run, front)[i]);
            }
        }
    } else {
        assert(progress_of(all) =~= TrackerView::fresh(total).published(outcomes));
    }
}

/// When the input ends while records are taken, the records still pending
/// leave as a last batch and every batch handed out is waited for, whether
/// the producer read its input to the end, gave up on an error, or did not
/// run to its end. Only the exit code tells these apart.
pub proof fn lemma_input_end_flushes_and_waits<V>(
    run: IngestView<V>,
    outcome: ProducerOutcome,
    writes: Seq<WriteOutcome>,
)
    requires
        run.stage == Stage::Streaming,
        writes.len() == run.writer.final_total() <= u64::MAX,
    ensures
        ({
            let closing = steps::<V>(run, closing_events(outcome));
            let closed = ran::<V>(run, closing_events(outcome));
            let waiting = steps::<V>(closed, write_events(writes));
            let end = ran::<V>(closed, write_events(writes));
            &&& closing.len() == 2
            &&& closing[0] == StepView::<V>::idle(Next::JoinProducer)
            &&& closing[1].dispatch == run.writer.flushed_batch()
            &&& dispatches(closing) == (match run.writer.flushed_batch() {
                Some(batch) => seq![batch],
                None => Seq::empty(),
            })
            &&& closed.tracker == TrackerView::fresh(run.writer.final_total())
            &&& closed.exit == outcome.exit()
            &&& dispatches(waiting) == Seq::<Seq<V>>::empty()
            &&& waiting.len() == writes.len()
            &&& forall|i: int|
                0 <= i < waiting.len() - 1 ==> (#[trigger] waiting[i]).next == Next::AwaitWrite
            &&& progress_of(closing) + progress_of(waiting) == TrackerView::fresh(
                run.writer.final_total(),
            ).published_in_all(writes)
            &&& end.stage == Stage::Finished
            &&& end.exit == outcome.exit()
            &&& end.tracker.total == writes.len()
            &&& end.tracker.completed == writes.len()
            &&& (closing + waiting).last().next == Next::Exit(outcome.exit())
        }),
{
    let total = run.writer.final_total();
    let joining = stepped::<V>(run, EventView::QueueClosed);
    let closed_pair = stepped::<V>(joining.0, EventView::ProducerJoined(outcome));
    lemma_two_events::<V>(run, EventView::QueueClosed, EventView::ProducerJoined(outcome));
    let closing = steps::<V>(run, closing_events(outcome));
    let closed = ran::<V>(run, closing_events(outcome));
    assert(closing == seq![joining.1, closed_pair.1]);
    assert(closing =~= seq![joining.1] + seq![closed_pair.1]);
    lemma_one_output(joining.1);
    lemma_one_output(closed_pair.1);
    lemma_outputs_append(seq![joining.1], seq![closed_pair.1]);
    assert(dispatches(closing) =~= (match run.writer.flushed_batch() {
        Some(batch) => seq![batch],
        None => Seq::empty(),
    }));
    assert(progress_of(closing) =~= closed_pair.1.progress);
    let waiting = steps::<V>(closed, write_events(writes));
    lemma_steps_len::<V>(closed, write_events(writes));
    if total == 0 {
        assert(write_events::<V>(writes) =~= Seq::<EventView<V>>::empty());
        assert(writes =~= Seq::<WriteOutcome>::empty());
        assert(progress_of(closing) + progress_of(waiting) =~= TrackerView::fresh(
            total,
        ).published_in_all(writes));
        assert(dispatches(waiting) =~= Seq::<Seq<V>>::empty());
        assert((closing + waiting).last() == closing[1]);
    } else {
        lemma_tracking::<V>(closed, total, writes);
        lemma_published(total, writes);
        assert(progress_of(closing) =~= Seq::<Progress>::empty());
        assert(progress_of(closing) + progress_of(waiting) =~= progress_of(waiting));
        assert((closing + waiting).last() == waiting.last());
    }
}

/// A whole run that meets no failure of the store: the input opens, the
/// collection is dropped, its index created, the records arrive, the input
/// ends, and the writes end one by one.
///
/// The batches handed out are the records cut into batches of the chunk
/// size, in the order of arrival. The progress values are one for each
/// write and the closing one hundred. The run ends with the exit code that
/// the end of the producer decides.
pub proof fn lemma_whole_run<V>(
    chunk_size: nat,
    length: Option<u64>,
    records: Seq<V>,
    positions: Seq<u64>,
    outcome: ProducerOutcome,
    writes: Seq<WriteOutcome>,
)
    requires
        chunk_size >= 1,
        records.len() == positions.len(),
        writes.len() == batch_count(records.len(), chunk_size) <= u64::MAX,
    ensures
        ({
            let start = IngestView::start(WriterView::<V>::fresh(chunk_size));
            let events = opening_events(length) + envelopes(records, positions) + closing_events(
                outcome,
            ) + write_events(writes);
            let all = steps::<V>(start, events);
            let end = ran::<V>(start, events);
            &&& dispatches(all) == batches(records, chunk_size)
            &&& progress_of(all) == TrackerView::fresh(writes.len()).published_in_all(writes)
            &&& all.last().next == Next::Exit(outcome.exit())
            &&& end.stage == Stage::Finished
            &&& end.exit == outcome.exit()
            &&& end.tracker.total == writes.len()
            &&& end.tracker.completed == writes.len()
        }),
{
    let fresh = WriterView::<V>::fresh(chunk_size);
    let start = IngestView::start(fresh);
    let opening = opening_events::<V>(length);
    let arriving = envelopes(records, positions);
    let closing = closing_events::<V>(outcome);
    let waiting = write_events::<V>(writes);

    // The opening.
    let first = stepped::<V>(start, EventView::SourceOpened(length));
    let second = stepped::<V>(first.0, EventView::CollectionDropped);
    let third = stepped::<V>(second.0, EventView::IndexCreated);
    lemma_two_events::<V>(start, EventView::SourceOpened(length), EventView::CollectionDropped);
    lemma_one_event::<V>(second.0, EventView::IndexCreated);
    lemma_ran_append::<V>(
        start,
        seq![EventView::SourceOpened(length), EventView::CollectionDropped],
        seq![EventView::IndexCreated],
    );
    assert(opening =~= seq![EventView::SourceOpened(length), EventView::CollectionDropped] + seq![
        EventView::IndexCreated,
    ]);
    let opened = ran::<V>(start, opening);
    let steps_opening = steps::<V>(start, opening);
    assert(opened == third.0);
    assert(steps_opening =~= seq![first.1, second.1, third.1]);
    assert(opened.stage == Stage::Streaming);
    assert(opened.writer == fresh);
    lemma_no_dispatches(steps_opening);
    lemma_no_progress(steps_opening);

    // The records.
    lemma_streaming::<V>(opened, records, positions);
    let streamed = ran::<V>(opened, arriving);
    let steps_arriving = steps::<V>(opened, arriving);

    // The end of the input and the writes.
    lemma_run_batches(records, chunk_size);
    lemma_input_end_flushes_and_waits::<V>(streamed, outcome, writes);
    let steps_closing = steps::<V>(streamed, closing);
    let closed = ran::<V>(streamed, closing);
    let steps_waiting = steps::<V>(closed, waiting);

    // Putting the parts together.
    lemma_ran_append::<V>(start, opening, arriving);
    lemma_ran_append::<V>(start, opening + arriving, closing);
    lemma_ran_append::<V>(start, opening + arriving + closing, waiting);
    lemma_outputs_append(steps_opening, steps_arriving);
    lemma_outputs_append(steps_opening + steps_arriving, steps_closing);
    lemma_outputs_append(steps_opening + steps_arriving + steps_closing, steps_waiting);
    let all = steps::<V>(start, opening + arriving + closing + waiting);
    assert(all == steps_opening + steps_arriving + steps_closing + steps_waiting);
    assert(dispatches(all) =~= fresh.run_batches(records));
    assert(progress_of(all) =~= TrackerView::fresh(writes.len()).published_in_all(writes));
    assert(all.last() == (steps_closing + steps_waiting).last());
}

/// The progress values of a whole run never go down, the first of them is
/// more than nothing, and the last is exactly one hundred.
pub proof fn lemma_run_progress_rises<V>(
    chunk_size: nat,
    length: Option<u64>,
    records: Seq<V>,
    positions: Seq<u64>,
    outcome: ProducerOutcome,
    writes: Seq<WriteOutcome>,
)
    requires
        chunk_size >= 1,
        records.len() == positions.len(),
        writes.len() == batch_count(records.len(), chunk_size) <= u64::MAX,
    ensures
        ({
            let start = IngestView::start(WriterView::<V>::fresh(chunk_size));
            let events = opening_events(length) + envelopes(records, positions) + closing_events(
                outcome,
            ) + write_events(writes);
            let values = progress_of(steps::<V>(start, events));
            &&& values.len() == writes.len() + 1
            &&& forall|i: int, j: int|
                0 <= i <= j < values.len() ==> (#[trigger] values[i]).le(#[trigger] values[j])
            &&& values.first().positive()
            &&& values.last().is_hundred()
        }),
{
    lemma_whole_run::<V>(chunk_size, length, records, positions, outcome, writes);
    lemma_progress_rises(writes.len(), writes);
}

/// The pipeline from the rows of the input to the batches: the producer lets
/// the accepted rows through, and the run cuts them into batches of the
/// chunk size in the order in which the rows came. A row that is not kept is
/// in no batch and counts for no batch.
pub proof fn lemma_pipeline<D: FilterMap>(
    chunk_size: nat,
    length: Option<u64>,
    rows: Seq<D::V>,
    positions: Seq<u64>,
    outcome: ProducerOutcome,
    writes: Seq<WriteOutcome>,
)
    requires
        chunk_size >= 1,
        positions.len() == accepted::<D>(rows).len(),
        writes.len() == batch_count(accepted::<D>(rows).len(), chunk_size) <= u64::MAX,
    ensures
        ({
            let start = IngestView::start(WriterView::<D::V>::fresh(chunk_size));
            let events = opening_events(length) + envelopes(accepted::<D>(rows), positions)
                + closing_events(outcome) + write_events(writes);
            &&& dispatches(steps::<D::V>(start, events)) == batches(
                accepted::<D>(rows),
                chunk_size,
            )
            &&& ran::<D::V>(start, events).tracker.total == batch_count(
                accepted::<D>(rows).len(),
                chunk_size,
            )
            &&& ran::<D::V>(start, events).stage == Stage::Finished
        }),
{
    lemma_whole_run::<D::V>(
        chunk_size,
        length,
        accepted::<D>(rows),
        positions,
        outcome,
        writes,
    );
}

/// What holds of a run at every moment, if it began with an empty writer:
/// nothing is gathered or handed out before the store is ready; the writer
/// never holds a full batch; no more writes have ended than there are to
/// wait for, and while the run waits for writes at least one is still to
/// end; once the input has ended the writer is empty.
pub open spec fn sound<V>(run: IngestView<V>) -> bool {
    &&& run.writer.wf()
    &&& run.stage.rank() <= 2 ==> run.writer.pending.len() == 0 && run.writer.dispatched == 0
    &&& run.stage.rank() >= 5 ==> run.writer.pending.len() == 0 && run.writer.dispatched == 0
    &&& run.tracker.failed <= run.tracker.completed <= run.tracker.total
    &&& run.stage == Stage::Tracking ==> run.tracker.completed < run.tracker.total
    &&& run.stage.rank() <= 4 ==> run.tracker == TrackerView::fresh(0)
    &&& run.stage.rank() <= 3 ==> run.exit == ExitCodes::Success
}

/// A run that begins with an empty writer is sound, whatever its chunk size.
pub proof fn lemma_start_is_sound<V>(chunk_size: nat)
    ensures
        sound(IngestView::start(WriterView::<V>::fresh(chunk_size))),
{
}

/// No event takes a sound run to one that is not, and every batch that a
/// sound run hands out holds at least one record and no more than the chunk
/// size.
pub proof fn lemma_step_keeps_sound<V>(run: IngestView<V>, event: EventView<V>)
    requires
        sound(run),
    ensures
        sound(stepped::<V>(run, event).0),
        stepped::<V>(run, event).0.writer.chunk_size == run.writer.chunk_size,
        stepped::<V>(run, event).1.dispatch matches Some(batch) ==> 1 <= batch.len()
            <= run.writer.threshold(),
        stepped::<V>(run, event).1.dispatch is Some ==> run.stage == Stage::Streaming || run.stage
            == Stage::Joining,
{
}

/// A sound run stays sound through any events.
pub proof fn lemma_ran_keeps_sound<V>(
    run: IngestView<V>,
    events: Seq<EventView<V>>,
)
    requires
        sound(run),
    ensures
        sound(ran::<V>(run, events)),
    decreases events.len(),
{
    if events.len() > 0 {
        lemma_ran_keeps_sound::<V>(run, events.drop_last());
        lemma_step_keeps_sound::<V>(ran::<V>(run, events.drop_last()), events.last());
    }
}

} // verus!
