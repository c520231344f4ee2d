use vstd::prelude::*;
use crate::document::{Document, Metadata};

verus! {

/// A storage-ready point: a client-generated id (so re-sending is an idempotent
/// upsert), the vector as single-precision bit patterns, and the scalar payload.
pub struct BufferedPoint {
    pub id: String,
    pub vector: Vec<u32>,
    pub payload: Metadata,
}

/// Relies on uuid::Uuid::new_v4 and uuid::Uuid's hyphenated `Display` form:
/// the textual form of a version-4 UUID is always 36 characters. The value
/// itself is random, so nothing more is promised of it.
#[verifier::external_body]
fn fresh_uuid() -> (r: String)
    ensures
        r@.len() == 36,
{
    uuid::Uuid::new_v4().to_string()
}

/// Holds when point `p` carries document `d`'s vector and metadata under a
/// well-formed client-generated id.
pub open spec fn point_for(p: BufferedPoint, d: Document) -> bool {
    &&& p.vector == d.embeddings
    &&& p.payload == d.metadata
    &&& p.id@.len() == 36
}

/// Turn an embedded document into a storage-ready point with a fresh id.
pub fn make_point(d: Document) -> (p: BufferedPoint)
    ensures
        point_for(p, d),
{
    let id = fresh_uuid();
    BufferedPoint { id, vector: d.embeddings, payload: d.metadata }
}

/// What one `push` does to the buffer: below capacity the point is appended and
/// nothing is flushed; at capacity the full buffer is flushed as one batch and
/// a new buffer holding only the incoming point begins. No point is ever lost.
pub open spec fn push_step(buf: Seq<BufferedPoint>, cap: nat, p: BufferedPoint) -> (Seq<
    BufferedPoint,
>, Option<Seq<BufferedPoint>>) {
    if buf.len() < cap {
        (buf.push(p), None::<Seq<BufferedPoint>>)
    } else {
        (seq![p], Some(buf))
    }
}

/// Bounded accumulator of storage-ready points for one collection: points are
/// buffered until capacity is reached and then handed out as one atomic batch
/// for the store writer to upsert.
pub struct Qlient {
    buffer: Vec<BufferedPoint>,
    size: usize,
    collection_name: String,
}

impl Qlient {
    /// The points currently buffered, oldest first.
    pub closed spec fn buf(self) -> Seq<BufferedPoint> {
        self.buffer@
    }

    /// The configured capacity.
    pub closed spec fn cap(self) -> nat {
        self.size as nat
    }

    /// The collection every batch is written to.
    pub closed spec fn collection(self) -> Seq<char> {
        self.collection_name@
    }

    /// The buffer never holds more than its capacity, and the capacity is
    /// positive.
    pub open spec fn wf(self) -> bool {
        &&& self.buf().len() <= self.cap()
        &&& 0 < self.cap()
    }

    /// A fresh, empty buffer of the given capacity.
    pub fn new(size: usize, collection_name: String) -> (q: Qlient)
        requires
            0 < size,
        ensures
            q.wf(),
            q.buf().len() == 0,
            q.cap() == size,
            q.collection() == collection_name@,
    {
        Qlient { buffer: Vec::new(), size, collection_name }
    }

    /// How many points are currently buffered.
    pub fn buffered(&self) -> (n: usize)
        ensures
            n == self.buf().len(),
    {
        self.buffer.len()
    }

    /// The configured capacity.
    pub fn capacity(&self) -> (n: usize)
        ensures
            n == self.cap(),
    {
        self.size
    }

    /// The name of the target collection.
    pub fn collection_name(&self) -> (r: &String)
        ensures
            r@ == self.collection(),
    {
        &self.collection_name
    }

    /// Accept one point. Returns the full batch to upsert when this push found
    /// the buffer at capacity; the incoming point then starts the next batch,
    /// so no point is dropped across a flush boundary.
    pub fn push(&mut self, p: BufferedPoint) -> (flush: Option<Vec<BufferedPoint>>)
        requires
            old(self).wf(),
        ensures
            final(self).wf(),
            final(self).cap() == old(self).cap(),
            final(self).collection() == old(self).collection(),
            final(self).buf() == push_step(old(self).buf(), old(self).cap(), p).0,
            (match flush {
                None => {
                    &&& push_step(old(self).buf(), old(self).cap(), p).1 is None
                    &&& old(self).buf().len() < old(self).cap()
                },
                Some(batch) => {
                    &&& push_step(old(self).buf(), old(self).cap(), p).1 == Some(batch@)
                    &&& batch@ == old(self).buf()
                    &&& old(self).buf().len() == old(self).cap()
                },
            }),
    {
        if self.buffer.len() < self.size {
            self.buffer.push(p);
            None
        } else {
            let mut batch: Vec<BufferedPoint> = Vec::new();
            core::mem::swap(&mut self.buffer, &mut batch);
            self.buffer.push(p);
            proof {
                assert(self.buffer@ =~= seq![p]);
            }
            Some(batch)
        }
    }

    /// Tail flush, called once when the pipeline channel closes: whatever
    /// remains buffered is handed out as exactly one final batch; an empty
    /// buffer yields none. Afterwards the buffer is empty either way.
    pub fn flush_remainder(&mut self) -> (flush: Option<Vec<BufferedPoint>>)
        requires
            old(self).wf(),
        ensures
            final(self).wf(),
            final(self).cap() == old(self).cap(),
            final(self).collection() == old(self).collection(),
            final(self).buf().len() == 0,
            (match flush {
                None => old(self).buf().len() == 0,
                Some(batch) => {
                    &&& 0 < old(self).buf().len()
                    &&& batch@ == old(self).buf()
                },
            }),
    {
        if self.buffer.len() == 0 {
            None
        } else {
            let mut batch: Vec<BufferedPoint> = Vec::new();
            core::mem::swap(&mut self.buffer, &mut batch);
            Some(batch)
        }
    }
}

impl Default for Qlient {
    /// An empty buffer with capacity 128, writing to the collection `rust2`.
    fn default() -> (q: Qlient)
        ensures
            q.wf(),
            q.buf().len() == 0,
            q.cap() == 128,
            q.collection() == "rust2"@,
    {
        Qlient::new(128, "rust2".to_owned())
    }
}

/// The buffer contents and the flushed batches, in order, that a sequence of
/// pushes produces when started from buffer `buf`.
pub open spec fn run_pushes(buf: Seq<BufferedPoint>, cap: nat, points: Seq<BufferedPoint>) -> (Seq<
    BufferedPoint,
>, Seq<Seq<BufferedPoint>>)
    decreases points.len(),
{
    if points.len() == 0 {
        (buf, Seq::<Seq<BufferedPoint>>::empty())
    } else {
        let stepped = push_step(buf, cap, points[0]);
        let rest = run_pushes(stepped.0, cap, points.skip(1));
        (
            rest.0,
            (match stepped.1 {
                None => rest.1,
                Some(batch) => seq![batch] + rest.1,
            }),
        )
    }
}

/// While the pushes fit within capacity, they only accumulate: nothing is
/// flushed and the buffer grows in order.
pub proof fn lemma_run_pushes_no_flush(
    buf: Seq<BufferedPoint>,
    cap: nat,
    points: Seq<BufferedPoint>,
)
    requires
        buf.len() + points.len() <= cap,
    ensures
        run_pushes(buf, cap, points).0 == buf + points,
        run_pushes(buf, cap, points).1.len() == 0,
    decreases points.len(),
{
    if points.len() == 0 {
        assert(buf + points =~= buf);
    } else {
        lemma_run_pushes_no_flush(buf.push(points[0]), cap, points.skip(1));
        assert(buf.push(points[0]) + points.skip(1) =~= buf + points);
    }
}

/// Pushing `a + b` is pushing `a`, then pushing `b` from the buffer `a` left
/// behind; the flushed batches concatenate in order.
pub proof fn lemma_run_pushes_append(
    buf: Seq<BufferedPoint>,
    cap: nat,
    a: Seq<BufferedPoint>,
    b: Seq<BufferedPoint>,
)
    ensures
        run_pushes(buf, cap, a + b).0 == run_pushes(run_pushes(buf, cap, a).0, cap, b).0,
        run_pushes(buf, cap, a + b).1 == run_pushes(buf, cap, a).1 + run_pushes(
            run_pushes(buf, cap, a).0,
            cap,
            b,
        ).1,
    decreases a.len(),
{
    if a.len() == 0 {
        assert(a + b =~= b);
        assert(run_pushes(buf, cap, a).1 + run_pushes(buf, cap, b).1 =~= run_pushes(
            buf,
            cap,
            b,
        ).1);
    } else {
        let stepped = push_step(buf, cap, a[0]);
        lemma_run_pushes_append(stepped.0, cap, a.skip(1), b);
        assert((a + b).skip(1) =~= a.skip(1) + b);
        assert((a + b)[0] == a[0]);
        match stepped.1 {
            None => {},
            Some(batch) => {
                assert(seq![batch] + (run_pushes(stepped.0, cap, a.skip(1)).1 + run_pushes(
                    run_pushes(stepped.0, cap, a.skip(1)).0,
                    cap,
                    b,
                ).1) =~= (seq![batch] + run_pushes(stepped.0, cap, a.skip(1)).1) + run_pushes(
                    run_pushes(stepped.0, cap, a.skip(1)).0,
                    cap,
                    b,
                ).1);
            },
        }
    }
}

/// Law: with capacity `C`, pushing `C + 1` points into an empty buffer flushes
/// exactly once, the one flush covers exactly the first `C` points in order,
/// and the final point alone remains buffered.
pub proof fn lemma_capacity_plus_one_pushes(cap: nat, points: Seq<BufferedPoint>)
    requires
        0 < cap,
        points.len() == cap + 1,
    ensures
        run_pushes(Seq::<BufferedPoint>::empty(), cap, points).1 =~= seq![
            points.take(cap as int),
        ],
        run_pushes(Seq::<BufferedPoint>::empty(), cap, points).0 =~= seq![points[cap as int]],
{
    let empty = Seq::<BufferedPoint>::empty();
    let head = points.take(cap as int);
    let tail = points.skip(cap as int);
    assert(head + tail =~= points);
    lemma_run_pushes_append(empty, cap, head, tail);
    lemma_run_pushes_no_flush(empty, cap, head);
    assert(empty + head =~= head);
    assert(tail[0] == points[cap as int]);
    assert(tail.len() == 1);
    // one more push from a buffer of exactly `cap` points flushes it whole
    let stepped = push_step(head, cap, tail[0]);
    assert(stepped.1 == Some(head));
    assert(tail.skip(1).len() == 0);
    assert(run_pushes(stepped.0, cap, tail.skip(1)).0 == stepped.0);
    assert(run_pushes(empty, cap, points).1 =~= seq![head] + run_pushes(
        stepped.0,
        cap,
        tail.skip(1),
    ).1);
}

} // verus!
