use request_capture::body::{BodyCollector, BodyEvent, Flow};

fn collect(max: usize, chunks: &[&[u8]]) -> (Vec<u8>, Vec<Flow>) {
    let mut c = BodyCollector::new(max);
    let mut flows = Vec::new();
    for chunk in chunks {
        let flow = c.step(BodyEvent::Chunk(chunk.to_vec()));
        flows.push(flow);
        if flow == Flow::Stop {
            break;
        }
    }
    (c.into_bytes(), flows)
}

#[test]
fn small_body_is_kept_whole() {
    let (bytes, flows) = collect(1024, &[b"hello ", b"world"]);
    assert_eq!(bytes, b"hello world");
    assert_eq!(flows, vec![Flow::Continue, Flow::Continue]);
}

#[test]
fn chunk_crossing_the_limit_is_cut_and_stops() {
    let (bytes, flows) = collect(8, &[b"hello ", b"world", b"never read"]);
    assert_eq!(bytes, b"hello wo");
    assert_eq!(flows, vec![Flow::Continue, Flow::Stop]);
}

#[test]
fn exact_fill_reads_on_until_more_data() {
    let mut c = BodyCollector::new(10);
    assert_eq!(c.step(BodyEvent::Chunk(b"hello".to_vec())), Flow::Continue);
    assert_eq!(c.step(BodyEvent::Chunk(b"world".to_vec())), Flow::Continue);
    assert!(!c.is_stopped());
    assert_eq!(c.step(BodyEvent::Chunk(b"!".to_vec())), Flow::Stop);
    assert_eq!(c.into_bytes(), b"helloworld");
}

#[test]
fn empty_chunks_change_nothing() {
    let mut c = BodyCollector::new(3);
    assert_eq!(c.step(BodyEvent::Chunk(Vec::new())), Flow::Continue);
    assert_eq!(c.step(BodyEvent::Chunk(b"ab".to_vec())), Flow::Continue);
    assert_eq!(c.step(BodyEvent::Chunk(Vec::new())), Flow::Continue);
    assert_eq!(c.into_bytes(), b"ab");
}

#[test]
fn zero_limit_keeps_nothing() {
    let (bytes, flows) = collect(0, &[b"a"]);
    assert!(bytes.is_empty());
    assert_eq!(flows, vec![Flow::Stop]);
}

#[test]
fn stream_error_keeps_what_came_before() {
    let mut c = BodyCollector::new(100);
    assert_eq!(c.step(BodyEvent::Chunk(b"part".to_vec())), Flow::Continue);
    assert_eq!(c.step(BodyEvent::StreamError), Flow::Stop);
    assert_eq!(c.into_bytes(), b"part");
}

#[test]
fn end_of_stream_stops() {
    let mut c = BodyCollector::new(100);
    assert_eq!(c.step(BodyEvent::End), Flow::Stop);
    assert!(c.is_stopped());
    assert_eq!(c.step(BodyEvent::Chunk(b"late".to_vec())), Flow::Stop);
    assert!(c.into_bytes().is_empty());
}

#[test]
fn stopped_collector_ignores_later_chunks() {
    let mut c = BodyCollector::new(2);
    assert_eq!(c.step(BodyEvent::Chunk(b"abc".to_vec())), Flow::Stop);
    assert_eq!(c.step(BodyEvent::Chunk(b"def".to_vec())), Flow::Stop);
    assert_eq!(c.into_bytes(), b"ab");
}

#[test]
fn chunked_collection_equals_one_cut_of_the_whole() {
    let body: Vec<u8> = (0u8..=200).collect();
    for max in [0usize, 1, 7, 50, 200, 201, 500] {
        for size in [1usize, 3, 16, 64, 300] {
            let chunks: Vec<&[u8]> = body.chunks(size).collect();
            let (bytes, _) = collect(max, &chunks);
            let expected = &body[..body.len().min(max)];
            assert_eq!(bytes, expected, "max {max} chunk {size}");
            assert!(bytes.len() <= max);
        }
    }
}
