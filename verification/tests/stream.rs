use rlm::runs::{EventData, RunEntry, RunStatus};
use rlm::stream::{advance, frame, ChunkBuffer, Poll};

fn entry(events: usize) -> RunEntry {
    let mut e = RunEntry::queued("r", false, 1);
    for _ in 1..events {
        e.push_event(EventData::Running, 2);
    }
    e
}

fn seqs(p: Poll) -> Vec<u64> {
    match p {
        Poll::Batch(events) => events.iter().map(|e| e.seq).collect(),
        _ => panic!(),
    }
}

#[test]
fn events_behind_a_number_are_due() {
    let e = entry(4);
    assert_eq!(seqs(e.poll(-1)), vec![0, 1, 2, 3]);
    assert_eq!(seqs(e.poll(i64::MIN)), vec![0, 1, 2, 3]);
    assert_eq!(seqs(e.poll(1)), vec![2, 3]);
    assert!(matches!(e.poll(3), Poll::Wait));
    assert!(matches!(e.poll(i64::MAX), Poll::Wait));
}

#[test]
fn a_stream_ends_with_its_run() {
    let mut e = entry(2);
    e.snapshot.status = RunStatus::Done;
    e.snapshot.finished_unix = Some(3);
    e.snapshot.answer = Some("x".to_string());
    assert_eq!(seqs(e.poll(0)), vec![1]);
    assert!(matches!(e.poll(1), Poll::End));
}

#[test]
fn each_event_is_sent_once() {
    let mut e = entry(1);
    let mut cursor: i64 = -1;
    let mut sent = vec![];
    for round in 0..5 {
        if let Poll::Batch(batch) = e.poll(cursor) {
            sent.extend(batch.iter().map(|e| e.seq));
            cursor = advance(cursor, &batch);
        }
        for _ in 0..round {
            e.push_event(EventData::Running, 2);
        }
    }
    if let Poll::Batch(batch) = e.poll(cursor) {
        sent.extend(batch.iter().map(|e| e.seq));
    }
    assert_eq!(sent, (0..e.events.len() as u64).collect::<Vec<_>>());
    assert_eq!(advance(7, &vec![]), 7);
}

#[test]
fn an_event_is_framed() {
    let e = entry(1);
    assert_eq!(frame(&e.events[0], "{\"seq\":0}"), "id: 0\nevent: queued\ndata: {\"seq\":0}\n\n");
}

#[test]
fn bytes_come_out_as_they_went_in() {
    let chunks: Vec<Vec<u8>> = vec![b"hello".to_vec(), b" ".to_vec(), b"wide world".to_vec()];
    for size in 1..12usize {
        let mut coming = chunks.clone().into_iter();
        let mut buffer = ChunkBuffer::new();
        let mut read: Vec<u8> = vec![];
        loop {
            if buffer.needs_chunk() {
                match coming.next() {
                    Some(chunk) => buffer.load(chunk),
                    None => break,
                }
            }
            let mut out = vec![b'#'; size];
            let n = buffer.read(&mut out);
            assert!(n > 0 && n <= size);
            assert!(out[n..].iter().all(|b| *b == b'#'));
            read.extend_from_slice(&out[..n]);
        }
        assert_eq!(read, b"hello wide world");
    }
}

#[test]
fn an_empty_buffer_gives_nothing() {
    let mut buffer = ChunkBuffer::new();
    assert!(buffer.needs_chunk());
    let mut out = [7u8; 3];
    assert_eq!(buffer.read(&mut out), 0);
    assert_eq!(out, [7, 7, 7]);
    buffer.load(vec![1, 2]);
    assert_eq!(buffer.read(&mut []), 0);
    assert!(!buffer.needs_chunk());
}
