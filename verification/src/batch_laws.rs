//! Laws of batching: how many batches a run hands out, how large they are,
//! and that they keep the records in the order of arrival.

use crate::db_writer::WriterView;
use vstd::arithmetic::div_mod::{lemma_fundamental_div_mod, lemma_fundamental_div_mod_converse, lemma_mod_bound};
use vstd::prelude::*;

verus! {

/// The number of batches that `len` records make with chunk size `n`: `len / n`
/// rounded up.
pub open spec fn batch_count(len: nat, n: nat) -> nat {
    if len % n == 0 {
        len / n
    } else {
        len / n + 1
    }
}

/// The `i`-th batch of `items` with chunk size `n`: the items from `i * n` up
/// to `(i + 1) * n`, or up to the end where fewer are left.
pub open spec fn batch_at<A>(items: Seq<A>, n: nat, i: int) -> Seq<A> {
    let end = if (i + 1) * n <= items.len() {
        (i + 1) * n
    } else {
        items.len() as int
    };
    items.subrange(i * n, end)
}

/// `items` cut into consecutive batches of `n`, the last one possibly shorter.
pub open spec fn batches<A>(items: Seq<A>, n: nat) -> Seq<Seq<A>> {
    Seq::new(batch_count(items.len(), n), |i: int| batch_at(items, n, i))
}

/// How quotient and remainder by `n` change when one is added.
proof fn lemma_div_mod_succ(len: nat, n: nat)
    requires
        n >= 1,
    ensures
        len % n + 1 == n ==> (len + 1) / n == len / n + 1 && (len + 1) % n == 0,
        len % n + 1 != n ==> (len + 1) / n == len / n && (len + 1) % n == len % n + 1,
        0 <= len % n < n,
        len == (len / n) * n + len % n,
        0 <= len / n,
{
    let q = len as int / n as int;
    let r = len as int % n as int;
    lemma_fundamental_div_mod(len as int, n as int);
    lemma_mod_bound(len as int, n as int);
    assert(n * q == q * n) by (nonlinear_arith);
    assert(q >= 0) by (nonlinear_arith)
        requires
            len == q * n + r,
            0 <= r < n,
            len >= 0,
    ;
    if r + 1 == n {
        assert(len + 1 == (q + 1) * n + 0) by (nonlinear_arith)
            requires
                len == q * n + r,
                r + 1 == n,
        ;
        lemma_fundamental_div_mod_converse(len as int + 1, n as int, q + 1, 0);
    } else {
        lemma_fundamental_div_mod_converse(len as int + 1, n as int, q, r + 1);
    }
}

/// What a writer that started empty holds after `items` were added, and which
/// batches it has handed out by then.
proof fn lemma_feed<A>(items: Seq<A>, n: nat)
    requires
        n >= 1,
    ensures
        ({
            let start = WriterView::<A>::fresh(n);
            let len = items.len();
            &&& start.feed(items).chunk_size == n
            &&& start.feed(items).dispatched == len / n
            &&& start.feed(items).pending == items.subrange(len - len % n, len as int)
            &&& start.fed_batches(items) == Seq::new(len / n, |i: int| batch_at(items, n, i))
        }),
    decreases items.len(),
{
    let start = WriterView::<A>::fresh(n);
    let len = items.len();
    if len == 0 {
        lemma_div_mod_succ(0, n);
        assert(0nat / n == 0 && 0nat % n == 0) by {
            lemma_fundamental_div_mod_converse(0, n as int, 0, 0);
        }
        assert(start.feed(items).pending =~= items.subrange(0, 0));
        assert(start.fed_batches(items) =~= Seq::new(0nat, |i: int| batch_at(items, n, i)));
    } else {
        let front = items.drop_last();
        let flen = front.len();
        lemma_feed(front, n);
        lemma_div_mod_succ(flen, n);
        lemma_div_mod_succ(len, n);
        let before = start.feed(front);
        let q = flen / n;
        let r = flen % n;
        assert(before.pending == front.subrange(flen - r, flen as int));
        assert(before.pending.len() == r);
        assert forall|i: int| 0 <= i < q implies batch_at(front, n, i) == batch_at(
            items,
            n,
            i,
        ) by {
            assert((i + 1) * n <= q * n) by (nonlinear_arith)
                requires
                    i + 1 <= q,
                    n >= 1,
            ;
            assert(0 <= i * n) by (nonlinear_arith)
                requires
                    0 <= i,
                    n >= 1,
            ;
            assert(i * n <= (i + 1) * n) by (nonlinear_arith)
                requires
                    n >= 1,
            ;
            assert(front.subrange(i * n, (i + 1) * n) =~= items.subrange(i * n, (i + 1) * n));
        }
        if r + 1 == n {
            assert(before.fills());
            let batch = before.pending.push(items.last());
            assert(len / n == q + 1);
            assert(len == (q + 1) * n);
            assert((q + 1) * n == q * n + n) by (nonlinear_arith);
            assert(batch =~= batch_at(items, n, q as int));
            assert(start.feed(items).pending =~= items.subrange(len - 0, len as int));
            assert(start.fed_batches(items) =~= Seq::new(
                len / n,
                |i: int| batch_at(items, n, i),
            ));
        } else {
            assert(!before.fills());
            assert(start.feed(items).pending =~= items.subrange(len - len % n, len as int));
            assert(start.fed_batches(items) =~= Seq::new(
                len / n,
                |i: int| batch_at(items, n, i),
            ));
        }
    }
}

/// A run that starts with an empty writer of chunk size `n` and adds `items`
/// one by one hands out exactly `items` cut into consecutive batches of `n`:
/// in the order of arrival, the last batch holding what is left.
pub proof fn lemma_run_batches<A>(items: Seq<A>, n: nat)
    requires
        n >= 1,
    ensures
        WriterView::<A>::fresh(n).run_batches(items) == batches(items, n),
        WriterView::<A>::fresh(n).feed(items).final_total() == batch_count(items.len(), n),
{
    let start = WriterView::<A>::fresh(n);
    let len = items.len();
    lemma_feed(items, n);
    lemma_div_mod_succ(len, n);
    let q = len / n;
    let r = len % n;
    if r == 0 {
        assert(start.run_batches(items) =~= batches(items, n));
    } else {
        assert((q + 1) * n == q * n + n) by (nonlinear_arith);
        assert(start.feed(items).pending =~= batch_at(items, n, q as int));
        assert(start.run_batches(items) =~= batches(items, n));
    }
}

/// `len` records make `len / n` rounded up batches: none for no record, and
/// otherwise every batch holds `n` records but the last, which holds
/// `len % n`, or `n` where that is zero.
pub proof fn lemma_batch_sizes<A>(items: Seq<A>, n: nat)
    requires
        n >= 1,
    ensures
        batches(items, n).len() == batch_count(items.len(), n),
        batch_count(items.len(), n) * n >= items.len(),
        items.len() > 0 ==> (batch_count(items.len(), n) - 1) * n < items.len(),
        items.len() == 0 ==> batches(items, n).len() == 0,
        forall|i: int|
            0 <= i < batches(items, n).len() - 1 ==> (#[trigger] batches(items, n)[i]).len() == n,
        items.len() > 0 ==> batches(items, n).last().len() == (if items.len() % n == 0 {
            n
        } else {
            items.len() % n
        }),
        forall|i: int|
            0 <= i < batches(items, n).len() ==> 1 <= (#[trigger] batches(items, n)[i]).len() <= n,
{
    let len = items.len();
    let q = len / n;
    let r = len % n;
    lemma_div_mod_succ(len, n);
    let count = batch_count(len, n);
    assert(count * n >= len && (len > 0 ==> (count - 1) * n < len)) by (nonlinear_arith)
        requires
            len == q * n + r,
            0 <= r < n,
            q >= 0,
            count == (if r == 0 {
                q
            } else {
                q + 1
            }),
    ;
    assert forall|i: int| 0 <= i < count implies {
        &&& 1 <= (#[trigger] batches(items, n)[i]).len() <= n
        &&& i < count - 1 ==> batches(items, n)[i].len() == n
        &&& i == count - 1 ==> batches(items, n)[i].len() == (if r == 0 {
            n
        } else {
            r
        })
    } by {
        assert(0 <= i * n && (i + 1) * n == i * n + n) by (nonlinear_arith)
            requires
                0 <= i,
                n >= 1,
        ;
        assert(i < q ==> (i + 1) * n <= q * n) by (nonlinear_arith)
            requires
                n >= 1,
        ;
        assert(i >= q ==> i * n >= q * n) by (nonlinear_arith)
            requires
                n >= 1,
        ;
        assert(i * n <= (count - 1) * n) by (nonlinear_arith)
            requires
                i <= count - 1,
                n >= 1,
        ;
    }
    if len > 0 {
        assert(count >= 1) by (nonlinear_arith)
            requires
                count * n >= len,
                len > 0,
                n >= 1,
        ;
        assert(batches(items, n).last() == batches(items, n)[count - 1]);
    }
}

/// The batches of a run, laid end to end in the order in which they were
/// handed out, are the records in the order in which they arrived.
pub proof fn lemma_batches_keep_order<A>(items: Seq<A>, n: nat)
    requires
        n >= 1,
    ensures
        batches(items, n).flatten() == items,
{
    let start = WriterView::<A>::fresh(n);
    lemma_fed_flatten(items, n);
    lemma_run_batches(items, n);
    let end = start.feed(items);
    if end.pending.len() > 0 {
        start.fed_batches(items).lemma_flatten_push(end.pending);
    } else {
        assert(start.fed_batches(items).flatten() + end.pending =~= start.fed_batches(
            items,
        ).flatten());
    }
}

/// The batches handed out so far, laid end to end and followed by the pending
/// records, are the records added so far.
proof fn lemma_fed_flatten<A>(items: Seq<A>, n: nat)
    requires
        n >= 1,
    ensures
        WriterView::<A>::fresh(n).fed_batches(items).flatten() + WriterView::<A>::fresh(n).feed(
            items,
        ).pending == items,
    decreases items.len(),
{
    let start = WriterView::<A>::fresh(n);
    if items.len() == 0 {
        assert(start.fed_batches(items).flatten() + start.feed(items).pending =~= items);
    } else {
        let front = items.drop_last();
        lemma_fed_flatten(front, n);
        let before = start.feed(front);
        let earlier = start.fed_batches(front);
        assert(items =~= front.push(items.last()));
        if before.fills() {
            let batch = before.pending.push(items.last());
            earlier.lemma_flatten_push(batch);
            assert(earlier.flatten() + batch =~= (earlier.flatten() + before.pending).push(
                items.last(),
            ));
            assert(start.fed_batches(items).flatten() + start.feed(items).pending =~= items);
        } else {
            assert(earlier.flatten() + before.pending.push(items.last()) =~= (earlier.flatten()
                + before.pending).push(items.last()));
        }
    }
}

/// A writer that holds fewer records than make a batch still does so after
/// one more record, and a batch that it hands out is exactly full: no batch
/// is ever larger than the chunk size.
pub proof fn lemma_add_keeps_wf<A>(writer: WriterView<A>, record: A)
    requires
        writer.wf(),
    ensures
        writer.add(record).wf(),
        writer.add(record).chunk_size == writer.chunk_size,
        writer.added_batch(record) matches Some(batch) ==> batch.len() == writer.threshold(),
        writer.added_batch(record) is None ==> writer.add(record).dispatched == writer.dispatched,
        writer.added_batch(record) is Some ==> writer.add(record).dispatched == writer.dispatched
            + 1,
{
}

/// The last batch of a run is not empty and no larger than the chunk size,
/// and the writer is then empty.
pub proof fn lemma_flush_keeps_wf<A>(writer: WriterView<A>)
    requires
        writer.wf(),
    ensures
        writer.finished().wf(),
        writer.flushed_batch() matches Some(batch) ==> 1 <= batch.len() < writer.threshold(),
        writer.final_total() == writer.dispatched + (if writer.flushed_batch() is Some {
            1nat
        } else {
            0nat
        }),
{
}

} // verus!
