//! Laws of the intake: which rows reach the writer and its batches.

use crate::batch_laws::{batch_at, batches, lemma_batch_sizes};
use crate::db_writer::WriterView;
use crate::downloader::{received, received_batch, FilterMap};
use crate::models::{uppercase, Aircraft, AircraftView};
use vstd::prelude::*;

verus! {

/// The rows that are kept, each in its canonical form, in the order in which
/// they came.
pub open spec fn accepted<D: FilterMap>(rows: Seq<D::V>) -> Seq<D::V>
    decreases rows.len(),
{
    if rows.len() == 0 {
        Seq::empty()
    } else if D::keeps(rows.last()) {
        accepted::<D>(rows.drop_last()).push(D::mapped(rows.last()))
    } else {
        accepted::<D>(rows.drop_last())
    }
}

/// The writer after it was offered `rows` one by one.
pub open spec fn offered<D: FilterMap>(writer: WriterView<D::V>, rows: Seq<D::V>) -> WriterView<
    D::V,
>
    decreases rows.len(),
{
    if rows.len() == 0 {
        writer
    } else {
        received::<D>(offered::<D>(writer, rows.drop_last()), rows.last())
    }
}

/// The batches handed out while the writer was offered `rows` one by one.
pub open spec fn offered_batches<D: FilterMap>(writer: WriterView<D::V>, rows: Seq<D::V>) -> Seq<
    Seq<D::V>,
>
    decreases rows.len(),
{
    if rows.len() == 0 {
        Seq::empty()
    } else {
        let earlier = offered_batches::<D>(writer, rows.drop_last());
        match received_batch::<D>(offered::<D>(writer, rows.drop_last()), rows.last()) {
            Some(batch) => earlier.push(batch),
            None => earlier,
        }
    }
}

/// Offering rows to a writer is adding the accepted rows to it: the rows
/// that are not kept leave no trace in the writer or in its batches.
pub proof fn lemma_offered_is_fed<D: FilterMap>(writer: WriterView<D::V>, rows: Seq<D::V>)
    ensures
        offered::<D>(writer, rows) == writer.feed(accepted::<D>(rows)),
        offered_batches::<D>(writer, rows) == writer.fed_batches(accepted::<D>(rows)),
    decreases rows.len(),
{
    if rows.len() > 0 {
        lemma_offered_is_fed::<D>(writer, rows.drop_last());
        if D::keeps(rows.last()) {
            let front = accepted::<D>(rows.drop_last());
            let all = accepted::<D>(rows);
            assert(all.drop_last() =~= front);
            assert(all.last() == D::mapped(rows.last()));
        }
    }
}

/// Every accepted row is the canonical form of a row that was to be kept;
/// there are no more accepted rows than rows.
pub proof fn lemma_accepted_rows_were_kept<D: FilterMap>(rows: Seq<D::V>)
    ensures
        accepted::<D>(rows).len() <= rows.len(),
        forall|i: int|
            0 <= i < accepted::<D>(rows).len() ==> exists|j: int|
                0 <= j < rows.len() && D::keeps(#[trigger] rows[j]) && (
                #[trigger] accepted::<D>(rows)[i]) == D::mapped(rows[j]),
    decreases rows.len(),
{
    if rows.len() > 0 {
        let front = rows.drop_last();
        lemma_accepted_rows_were_kept::<D>(front);
        assert forall|i: int| 0 <= i < accepted::<D>(rows).len() implies exists|j: int|
            0 <= j < rows.len() && D::keeps(#[trigger] rows[j]) && (#[trigger] accepted::<D>(
                rows,
            )[i]) == D::mapped(rows[j]) by {
            if i < accepted::<D>(front).len() {
                assert(accepted::<D>(rows)[i] == accepted::<D>(front)[i]);
                let j = choose|j: int|
                    0 <= j < front.len() && D::keeps(#[trigger] front[j]) && accepted::<D>(
                        front,
                    )[i] == D::mapped(front[j]);
                assert(rows[j] == front[j]);
            } else {
                let j = rows.len() - 1;
                assert(D::keeps(rows[j]));
                assert(accepted::<D>(rows)[i] == D::mapped(rows[j]));
            }
        }
    }
}

/// A row that is not kept changes nothing: the accepted rows are the same
/// with it as without it, wherever it stands among the others.
pub proof fn lemma_dropped_row_leaves_no_trace<D: FilterMap>(
    before: Seq<D::V>,
    row: D::V,
    after: Seq<D::V>,
)
    requires
        !D::keeps(row),
    ensures
        accepted::<D>(before.push(row) + after) == accepted::<D>(before + after),
    decreases after.len(),
{
    if after.len() == 0 {
        assert(before.push(row) + after =~= before.push(row));
        assert(before + after =~= before);
        assert(before.push(row).drop_last() =~= before);
    } else {
        lemma_dropped_row_leaves_no_trace::<D>(before, row, after.drop_last());
        assert((before.push(row) + after).drop_last() =~= before.push(row) + after.drop_last());
        assert((before + after).drop_last() =~= before + after.drop_last());
    }
}

/// Every aircraft that is accepted came from a row with a key that was not
/// empty, has the uppercase form of that key as its key, and has the other
/// columns of that row.
pub proof fn lemma_accepted_aircraft(rows: Seq<AircraftView>, i: int)
    requires
        0 <= i < accepted::<Aircraft>(rows).len(),
    ensures
        exists|j: int|
            0 <= j < rows.len() && (#[trigger] rows[j]).icao24.len() > 0 && accepted::<Aircraft>(
                rows,
            )[i].icao24 == uppercase(rows[j].icao24) && accepted::<Aircraft>(rows)[i].columns
                == rows[j].columns,
{
    lemma_accepted_rows_were_kept::<Aircraft>(rows);
    let j = choose|j: int|
        0 <= j < rows.len() && Aircraft::keeps(#[trigger] rows[j]) && accepted::<Aircraft>(
            rows,
        )[i] == Aircraft::mapped(rows[j]);
    assert(rows[j].icao24.len() > 0);
}

/// Whatever the rows of the input, every record of every batch that is made
/// of the accepted rows is the canonical form of a row that was to be kept.
pub proof fn lemma_batches_hold_only_kept_rows<D: FilterMap>(
    rows: Seq<D::V>,
    chunk_size: nat,
    i: int,
    k: int,
)
    requires
        chunk_size >= 1,
        0 <= i < batches(accepted::<D>(rows), chunk_size).len(),
        0 <= k < batches(accepted::<D>(rows), chunk_size)[i].len(),
    ensures
        exists|j: int|
            0 <= j < rows.len() && D::keeps(#[trigger] rows[j]) && batches(
                accepted::<D>(rows),
                chunk_size,
            )[i][k] == D::mapped(rows[j]),
{
    let kept = accepted::<D>(rows);
    lemma_batch_sizes(kept, chunk_size);
    lemma_accepted_rows_were_kept::<D>(rows);
    assert(0 <= i * chunk_size) by (nonlinear_arith)
        requires
            0 <= i,
            chunk_size >= 1,
    ;
    let count = batches(kept, chunk_size).len() as int;
    assert(i * chunk_size <= (count - 1) * chunk_size) by (nonlinear_arith)
        requires
            i <= count - 1,
            chunk_size >= 1,
    ;
    assert((i + 1) * chunk_size == i * chunk_size + chunk_size) by (nonlinear_arith);
    assert(batches(kept, chunk_size)[i] == batch_at(kept, chunk_size, i));
    let at = i * chunk_size + k;
    assert(0 <= at < kept.len());
    assert(batches(kept, chunk_size)[i][k] == kept[at]);
    let j = choose|j: int|
        0 <= j < rows.len() && D::keeps(#[trigger] rows[j]) && kept[at] == D::mapped(rows[j]);
    assert(batches(kept, chunk_size)[i][k] == D::mapped(rows[j]));
}

/// Whatever the rows of the input, every aircraft of every batch came from a
/// row with a key that was not empty and has the uppercase form of that key
/// as its key.
pub proof fn lemma_batches_hold_uppercase_keys(
    rows: Seq<AircraftView>,
    chunk_size: nat,
    i: int,
    k: int,
)
    requires
        chunk_size >= 1,
        0 <= i < batches(accepted::<Aircraft>(rows), chunk_size).len(),
        0 <= k < batches(accepted::<Aircraft>(rows), chunk_size)[i].len(),
    ensures
        exists|j: int|
            0 <= j < rows.len() && (#[trigger] rows[j]).icao24.len() > 0 && batches(
                accepted::<Aircraft>(rows),
                chunk_size,
            )[i][k].icao24 == uppercase(rows[j].icao24),
{
    lemma_batches_hold_only_kept_rows::<Aircraft>(rows, chunk_size, i, k);
    let j = choose|j: int|
        0 <= j < rows.len() && Aircraft::keeps(#[trigger] rows[j]) && batches(
            accepted::<Aircraft>(rows),
            chunk_size,
        )[i][k] == Aircraft::mapped(rows[j]);
    assert(rows[j].icao24.len() > 0);
}

} // verus!
