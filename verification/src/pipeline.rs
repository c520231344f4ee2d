use vstd::prelude::*;
use crate::document::EmbeddingOutcome;
use crate::store::{make_point, point_for, push_step, BufferedPoint, Qlient};

verus! {

/// Progress counters for the consumer stage. Each counter only grows:
/// `processed` once per document whose embedding failed, `embedded` once per
/// document accepted into the buffer, `stored` once per point of a batch that
/// was written, `failed` once per batch whose write failed.
pub struct Tracker {
    pub processed: u64,
    pub embedded: u64,
    pub stored: u64,
    pub failed: u64,
}

impl Tracker {
    /// All counters start at zero.
    pub fn new() -> (t: Tracker)
        ensures
            t.processed == 0,
            t.embedded == 0,
            t.stored == 0,
            t.failed == 0,
    {
        Tracker { processed: 0, embedded: 0, stored: 0, failed: 0 }
    }
}

/// Consumer step for one embedding outcome.
///
/// A failed embedding only counts as `processed`: it is never counted as
/// embedded or stored, and it never reaches the buffer. A successful embedding
/// counts as `embedded` and its point enters the buffer; when that push finds
/// the buffer at capacity, the full batch comes back for the store writer to
/// upsert, and the new point stays buffered.
pub fn consume(t: &mut Tracker, q: &mut Qlient, outcome: EmbeddingOutcome) -> (flush: Option<
    Vec<BufferedPoint>,
>)
    requires
        old(q).wf(),
        old(t).processed < u64::MAX,
        old(t).embedded < u64::MAX,
    ensures
        final(q).wf(),
        final(q).cap() == old(q).cap(),
        final(q).collection() == old(q).collection(),
        final(t).stored == old(t).stored,
        final(t).failed == old(t).failed,
        (match outcome {
            EmbeddingOutcome::NotEmbedded(_) => {
                &&& final(t).processed == old(t).processed + 1
                &&& final(t).embedded == old(t).embedded
                &&& final(q).buf() == old(q).buf()
                &&& flush is None
            },
            EmbeddingOutcome::Embedded(d) => {
                &&& final(t).processed == old(t).processed
                &&& final(t).embedded == old(t).embedded + 1
                &&& final(q).buf().len() > 0
                &&& point_for(final(q).buf().last(), d)
                &&& final(q).buf() == push_step(
                    old(q).buf(),
                    old(q).cap(),
                    final(q).buf().last(),
                ).0
                &&& (match flush {
                    None => old(q).buf().len() < old(q).cap() && final(q).buf().len() == old(
                        q,
                    ).buf().len() + 1 && final(q).buf().take(old(q).buf().len() as int) == old(
                        q,
                    ).buf(),
                    Some(batch) => old(q).buf().len() == old(q).cap() && batch@ == old(q).buf()
                        && final(q).buf().len() == 1,
                })
            },
        }),
{
    match outcome {
        EmbeddingOutcome::NotEmbedded(_) => {
            t.processed = t.processed + 1;
            None
        },
        EmbeddingOutcome::Embedded(d) => {
            t.embedded = t.embedded + 1;
            let p = make_point(d);
            let flush = q.push(p);
            proof {
                if flush is None {
                    assert(q.buf().take(old(q).buf().len() as int) =~= old(q).buf());
                }
            }
            flush
        },
    }
}

/// Record the outcome of one batch write: a success stores every point of the
/// batch; a failure counts once for the whole batch, and its points are not
/// re-queued.
pub fn record_store_result(t: &mut Tracker, batch_len: usize, ok: bool)
    requires
        ok ==> old(t).stored + batch_len <= u64::MAX,
        !ok ==> old(t).failed < u64::MAX,
    ensures
        final(t).processed == old(t).processed,
        final(t).embedded == old(t).embedded,
        ok ==> final(t).stored == old(t).stored + batch_len && final(t).failed == old(t).failed,
        !ok ==> final(t).failed == old(t).failed + 1 && final(t).stored == old(t).stored,
{
    if ok {
        t.stored = t.stored + (batch_len as u64);
    } else {
        t.failed = t.failed + 1;
    }
}

} // verus!
