use embedpipe::document::{embed_outcome, Document, EmbeddingOutcome, Metadata};
use embedpipe::pipeline::{consume, record_store_result, Tracker};
use embedpipe::prober::{await_ready_plan, AwaitResult, ProbeOutcome, ProbeStep, Prober};
use embedpipe::protocol::parse_embed_response;
use embedpipe::status::Status;
use embedpipe::store::{make_point, BufferedPoint, Qlient};

fn doc(content: &str, bits: Vec<u32>) -> Document {
    Document {
        page_content: content.as_bytes().to_vec(),
        metadata: Metadata {
            source: b"a".to_vec(),
            content_type: b"text".to_vec(),
            language: b"en".to_vec(),
        },
        embeddings: bits,
    }
}

fn point(tag: u32) -> BufferedPoint {
    BufferedPoint {
        id: format!("{tag:036}"),
        vector: vec![tag],
        payload: Metadata {
            source: b"s".to_vec(),
            content_type: b"t".to_vec(),
            language: b"l".to_vec(),
        },
    }
}

#[test]
fn narrowed_response_keeps_length_and_values() {
    let body = br#"{"embedding":[1.0,2.0]}"#.to_vec();
    let toks = parse_embed_response(&body).unwrap();
    // narrowing from double to single precision happens outside the library;
    // the library carries the narrowed values as bit patterns
    let bits: Vec<u32> = toks
        .iter()
        .map(|t| {
            let wide: f64 = String::from_utf8(t.clone()).unwrap().parse().unwrap();
            (wide as f32).to_bits()
        })
        .collect();
    assert_eq!(bits.len(), 2);
    let outcome = embed_outcome(doc("hi", vec![]), Some(bits));
    match outcome {
        EmbeddingOutcome::Embedded(d) => {
            assert_eq!(d.embeddings, vec![1.0f32.to_bits(), 2.0f32.to_bits()]);
            assert_eq!(d.page_content, b"hi".to_vec());
        },
        EmbeddingOutcome::NotEmbedded(_) => panic!("expected an embedded outcome"),
    }
}

#[test]
fn failed_embedding_keeps_document_with_empty_vector() {
    let outcome = embed_outcome(doc("hi", vec![7]), None);
    match outcome {
        EmbeddingOutcome::NotEmbedded(d) => {
            assert_eq!(d.page_content, b"hi".to_vec());
            assert!(d.embeddings.is_empty());
        },
        EmbeddingOutcome::Embedded(_) => panic!("a failure must not embed"),
    }
    // an empty vector from the service is just as unusable
    match embed_outcome(doc("hi", vec![]), Some(vec![])) {
        EmbeddingOutcome::NotEmbedded(_) => {},
        EmbeddingOutcome::Embedded(_) => panic!("an empty vector must not embed"),
    }
}

#[test]
fn failed_embedding_counts_only_as_processed() {
    let mut t = Tracker::new();
    let mut q = Qlient::new(4, "c".to_string());
    let flush = consume(&mut t, &mut q, embed_outcome(doc("hi", vec![]), None));
    assert!(flush.is_none());
    assert_eq!(t.processed, 1);
    assert_eq!(t.embedded, 0);
    assert_eq!(t.stored, 0);
    assert_eq!(t.failed, 0);
    assert_eq!(q.buffered(), 0);
}

#[test]
fn capacity_plus_one_pushes_flush_exactly_once() {
    let mut q = Qlient::new(2, "c".to_string());
    assert!(q.push(point(0)).is_none());
    assert!(q.push(point(1)).is_none());
    let flush = q.push(point(2));
    let batch = flush.expect("the third push must flush");
    assert_eq!(batch.len(), 2);
    assert_eq!(batch[0].vector, vec![0]);
    assert_eq!(batch[1].vector, vec![1]);
    // the triggering point was not lost: it starts the next batch
    assert_eq!(q.buffered(), 1);
    let tail = q.flush_remainder().expect("one point remains");
    assert_eq!(tail.len(), 1);
    assert_eq!(tail[0].vector, vec![2]);
}

#[test]
fn tail_flush_covers_the_remainder_once() {
    let mut q = Qlient::new(128, "c".to_string());
    assert!(q.push(point(1)).is_none());
    assert!(q.push(point(2)).is_none());
    assert!(q.push(point(3)).is_none());
    let tail = q.flush_remainder().expect("three points remain");
    assert_eq!(tail.len(), 3);
    assert_eq!(q.buffered(), 0);
    assert!(q.flush_remainder().is_none());
}

#[test]
fn consume_routes_embedded_documents_into_the_buffer() {
    let mut t = Tracker::new();
    let mut q = Qlient::new(1, "c".to_string());
    let first = consume(&mut t, &mut q, embed_outcome(doc("a", vec![]), Some(vec![10])));
    assert!(first.is_none());
    assert_eq!(t.embedded, 1);
    let second = consume(&mut t, &mut q, embed_outcome(doc("b", vec![]), Some(vec![20])));
    let batch = second.expect("capacity one flushes on the second push");
    assert_eq!(batch.len(), 1);
    assert_eq!(batch[0].vector, vec![10]);
    assert_eq!(t.embedded, 2);
    assert_eq!(t.processed, 0);
    record_store_result(&mut t, batch.len(), true);
    assert_eq!(t.stored, 1);
    assert_eq!(t.failed, 0);
    record_store_result(&mut t, 5, false);
    assert_eq!(t.stored, 1);
    assert_eq!(t.failed, 1);
}

#[test]
fn points_carry_fresh_ids() {
    let p1 = make_point(doc("a", vec![1, 2]));
    let p2 = make_point(doc("a", vec![1, 2]));
    assert_eq!(p1.id.len(), 36);
    assert_eq!(p2.id.len(), 36);
    assert_ne!(p1.id, p2.id, "ids are generated per point");
    assert_eq!(p1.vector, vec![1, 2]);
    assert_eq!(p1.payload.source, b"a".to_vec());
}

#[test]
fn two_loading_probes_then_ready_sleep_twice_nondecreasing() {
    let outcomes = vec![
        ProbeOutcome::Answered(Status::Loading),
        ProbeOutcome::Answered(Status::Loading),
        ProbeOutcome::Answered(Status::Ready),
    ];
    let (sleeps, result) = await_ready_plan(&outcomes, 7000, 500);
    assert_eq!(result, AwaitResult::Ready);
    assert_eq!(sleeps, vec![7000, 7500]);
    assert!(sleeps.windows(2).all(|w| w[0] <= w[1]));
}

#[test]
fn transport_error_aborts_the_wait() {
    let outcomes = vec![
        ProbeOutcome::Answered(Status::Unknown),
        ProbeOutcome::TransportError,
        ProbeOutcome::Answered(Status::Ready),
    ];
    let (sleeps, result) = await_ready_plan(&outcomes, 100, 50);
    assert_eq!(result, AwaitResult::Fatal);
    assert_eq!(sleeps, vec![100]);
    let (none_slept, exhausted) = await_ready_plan(&Vec::new(), 100, 50);
    assert!(none_slept.is_empty());
    assert_eq!(exhausted, AwaitResult::Exhausted);
}

#[test]
fn prober_steps_follow_the_status() {
    let mut p = Prober::new(7000, 500);
    assert_eq!(p.step(ProbeOutcome::Answered(Status::Loading)), ProbeStep::SleepThenRetry(7000));
    assert_eq!(p.step(ProbeOutcome::Answered(Status::Error)), ProbeStep::SleepThenRetry(7500));
    assert_eq!(p.step(ProbeOutcome::Answered(Status::Ready)), ProbeStep::Proceed);
    assert_eq!(p.step(ProbeOutcome::TransportError), ProbeStep::Abort);
    assert_eq!(p.backoff_ms, 8000);
}

#[test]
fn end_to_end_line_becomes_one_buffered_point() {
    let line =
        br#"{"page_content":"hi","metadata":{"source":"a","content_type":"text","language":"en"}}"#
        .to_vec();
    let (d, toks) = embedpipe::protocol::parse_document_line(&line).unwrap();
    assert!(toks.is_empty());
    let body = br#"{"embedding":[1.0,2.0]}"#.to_vec();
    let toks = parse_embed_response(&body).unwrap();
    let bits: Vec<u32> = toks
        .iter()
        .map(|t| {
            let wide: f64 = String::from_utf8(t.clone()).unwrap().parse().unwrap();
            (wide as f32).to_bits()
        })
        .collect();
    let outcome = embed_outcome(d, Some(bits));
    let mut t = Tracker::new();
    let mut q = Qlient::default();
    assert!(consume(&mut t, &mut q, outcome).is_none());
    let batch = q.flush_remainder().expect("exactly one flush covers the point");
    assert_eq!(batch.len(), 1);
    assert_eq!(batch[0].vector, vec![1.0f32.to_bits(), 2.0f32.to_bits()]);
    assert_eq!(batch[0].payload.source, b"a".to_vec());
    assert_eq!(batch[0].payload.content_type, b"text".to_vec());
    assert_eq!(batch[0].payload.language, b"en".to_vec());
    assert!(q.flush_remainder().is_none());
    assert_eq!(t.embedded, 1);
}
