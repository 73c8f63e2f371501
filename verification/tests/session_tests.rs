use tofnd::gg20::session::TrafficBuffer;
use tofnd::proto::TrafficIn;

fn frame(from: &str, payload: Vec<u8>) -> TrafficIn {
    TrafficIn {
        from_party_uid: from.as_bytes().to_vec(),
        payload,
        is_broadcast: false,
    }
}

#[test]
fn buffer_replays_in_arrival_order() {
    let mut buffer = TrafficBuffer::new(8);
    assert!(buffer.push(frame("B", vec![1])));
    assert!(buffer.push(frame("C", vec![2])));
    assert!(buffer.push(frame("D", vec![3])));
    assert_eq!(buffer.len(), 3);
    let replay = buffer.drain();
    let froms: Vec<Vec<u8>> = replay.iter().map(|t| t.from_party_uid.clone()).collect();
    assert_eq!(froms, vec![b"B".to_vec(), b"C".to_vec(), b"D".to_vec()]);
    let payloads: Vec<Vec<u8>> = replay.iter().map(|t| t.payload.clone()).collect();
    assert_eq!(payloads, vec![vec![1], vec![2], vec![3]]);
    assert_eq!(buffer.len(), 0);
}

#[test]
fn buffer_refuses_frames_beyond_the_bound() {
    let mut buffer = TrafficBuffer::new(2);
    assert!(buffer.push(frame("B", vec![1])));
    assert!(buffer.push(frame("C", vec![2])));
    assert!(!buffer.push(frame("D", vec![3])));
    assert_eq!(buffer.len(), 2);
    let replay = buffer.drain();
    assert_eq!(replay.len(), 2);
    assert_eq!(replay[1].payload, vec![2]);
}

#[test]
fn drained_buffer_accepts_again() {
    let mut buffer = TrafficBuffer::new(1);
    assert!(buffer.push(frame("B", vec![1])));
    assert!(!buffer.push(frame("C", vec![2])));
    let _ = buffer.drain();
    assert!(buffer.push(frame("C", vec![2])));
    assert_eq!(buffer.drain()[0].payload, vec![2]);
}
