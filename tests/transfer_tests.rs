use faces_h3::body::{split_body, BodyChunker, BodyRequest};
use faces_h3::event_loop::{on_inbound, ping_payload, InboundAction, InboundEvent, LoopState, LoopStep};
use faces_h3::framing::{encode_frame, FrameDecoder};
use faces_h3::pending::{PendingBodies, SendOutcome};

#[test]
fn post_fifty_megabytes_in_8192_byte_chunks() {
    let data = vec![0x01u8; 50_000_000];
    let chunks = split_body(4, &data, 8192);
    assert_eq!(chunks.len(), 6104);
    assert_eq!(chunks.iter().map(|c| c.len()).sum::<usize>(), 50_000_000);
    assert!(chunks.last().unwrap().is_end());
    assert_eq!(chunks.iter().filter(|c| c.is_end()).count(), 1);
    assert!(chunks.iter().all(|c| c.stream_id() == 4));
    assert_eq!(chunks[6103].packet_id(), 6103);
}

#[test]
fn empty_body_is_one_final_chunk() {
    let chunks = split_body(0, &[], 8192);
    assert_eq!(chunks.len(), 1);
    assert!(chunks[0].is_end);
    assert_eq!(chunks[0].len(), 0);
}

#[test]
fn chunker_ends_at_known_length() {
    let mut c = BodyChunker::new(8, Some(10));
    let a = c.on_read(vec![1; 4]).unwrap();
    let b = c.on_read(vec![2; 4]).unwrap();
    let d = c.on_read(vec![3; 2]).unwrap();
    assert!(!a.is_end && !b.is_end && d.is_end);
    assert_eq!(d.packet_id, 2);
    assert!(c.finished);
}

#[test]
fn chunker_of_unknown_length_ends_on_empty_read() {
    let mut c = BodyChunker::new(8, None);
    assert!(!c.on_read(vec![1; 3]).unwrap().is_end);
    let last = c.on_read(vec![]).unwrap();
    assert!(last.is_end);
    assert_eq!(last.len(), 0);
    let mut s = BodyChunker::new_streaming(12);
    assert!(!s.on_read(vec![1; 3]).unwrap().is_end);
    assert!(s.on_read(vec![]).is_none());
}

#[test]
fn body_request_accessors() {
    let mut b = BodyRequest::new(3, 5, vec![9, 8], true);
    assert_eq!(b.data(), &[9, 8]);
    assert_eq!(b.take_data(), vec![9, 8]);
    assert_eq!(b.len(), 0);
    assert!(b.is_end());
}

#[test]
fn pending_queue_is_fifo_per_stream() {
    let mut p = PendingBodies::new();
    assert!(p.is_empty());
    p.push(0, vec![1, 2, 3], false);
    p.push(0, vec![4, 5], true);
    p.push(4, vec![7], false);
    assert!(!p.is_empty());
    assert_eq!(p.head(0).unwrap().data, vec![1, 2, 3]);
    assert!(!p.consume(0, 2));
    assert_eq!(p.head(0).unwrap().data, vec![3]);
    assert!(p.consume(0, 1));
    assert_eq!(p.head(0).unwrap().data, vec![4, 5]);
    assert!(p.head(0).unwrap().is_end);
    assert!(p.consume(0, 2));
    assert!(p.head(0).is_none());
    assert_eq!(p.head(4).unwrap().data, vec![7]);
}

#[test]
fn taking_in_units_keeps_what_was_not_sent() {
    let mut p = PendingBodies::new();
    p.take_in(0, vec![1, 2, 3, 4], false, SendOutcome::Accepted(3));
    assert_eq!(p.head(0).unwrap().data, vec![4]);
    p.take_in(4, vec![5, 6], false, SendOutcome::NotWritable);
    assert_eq!(p.head(4).unwrap().data, vec![5, 6]);
    p.take_in(8, vec![5, 6], false, SendOutcome::Accepted(2));
    assert!(p.head(8).is_none());
    assert!(p.accepts(8));
    p.take_in(8, vec![1], true, SendOutcome::Blocked);
    assert!(!p.accepts(8));
    assert_eq!(p.head(8).unwrap().data, vec![1]);
}

#[test]
fn two_streams_interleave_independently() {
    let a = split_body(0, &vec![1u8; 180_000], 8192);
    let b = split_body(4, &vec![2u8; 120_000], 8192);
    let mut p = PendingBodies::new();
    for (x, y) in a.iter().zip(b.iter()) {
        p.push(0, x.payload.clone(), x.is_end);
        p.push(4, y.payload.clone(), y.is_end);
    }
    for x in a.iter().skip(b.len()) {
        p.push(0, x.payload.clone(), x.is_end);
    }
    let mut sent_a = 0usize;
    let mut sent_b = 0usize;
    while !p.is_empty() {
        for (sid, sent) in [(0u64, &mut sent_a), (4u64, &mut sent_b)] {
            if let Some(c) = p.head(sid) {
                let n = c.data.len();
                *sent += n;
                p.consume(sid, n);
            }
        }
    }
    assert_eq!(sent_a, 180_000);
    assert_eq!(sent_b, 120_000);
}

#[test]
fn frames_survive_any_slicing() {
    let payloads: Vec<Vec<u8>> = vec![vec![7u8; 7], vec![13u8; 13], vec![4u8; 4]];
    let mut wire: Vec<u8> = vec![];
    for p in &payloads {
        wire.extend(encode_frame(p.clone()).unwrap());
    }
    let cuts = [5usize, 20, 21, 40, wire.len()];
    let mut d = FrameDecoder::new();
    let mut got: Vec<Vec<u8>> = vec![];
    let mut start = 0;
    for end in cuts {
        got.extend(d.push_slice(&wire[start..end]));
        start = end;
    }
    assert_eq!(got, payloads);
    assert!(d.buffer.is_empty());
}

#[test]
fn frame_layout_is_marker_then_big_endian_length() {
    let f = encode_frame(vec![0xAA, 0xBB]).unwrap();
    assert_eq!(f, vec![0x00, 0xF1, 0x01, 0xE4, 0x02, 0xFF, 0x03, 0xDD, 0, 0, 0, 2, 0xAA, 0xBB]);
}

#[test]
fn inbound_events_map_to_actions() {
    assert_eq!(on_inbound(InboundEvent::Headers { more_frames: false }), InboundAction::EmitHeaders { is_end: true });
    assert_eq!(on_inbound(InboundEvent::Finished), InboundAction::EmitEnd);
    assert_eq!(on_inbound(InboundEvent::Reset), InboundAction::CloseConnection);
    assert_eq!(on_inbound(InboundEvent::GoAway), InboundAction::Ignore);
}

#[test]
fn connection_is_confirmed_once() {
    let mut s = LoopState::new();
    assert_eq!(s.on_poll(false, false), LoopStep::Proceed);
    assert_eq!(s.on_poll(true, false), LoopStep::CreateSession { confirm: true });
    assert_eq!(s.on_poll(true, false), LoopStep::Proceed);
    assert_eq!(s.on_poll(true, true), LoopStep::Exit);
    assert_eq!(ping_payload(), vec![0u8]);
}
