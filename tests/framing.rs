use floppier::framing::{
    frame_message, get_received_message, update_read_buffer, FrameError, ReadBuffer,
};

fn round_trip(payload: &[u8], chunk: usize) -> Option<Vec<u8>> {
    let framed = frame_message(payload).unwrap();
    let mut reader = ReadBuffer::new();
    for part in framed.chunks(chunk) {
        update_read_buffer(&mut reader, part).unwrap();
    }
    get_received_message(&mut reader)
}

#[test]
fn frame_has_little_endian_prefix() {
    let framed = frame_message(&[9, 8, 7]).unwrap();
    assert_eq!(framed, vec![3, 0, 9, 8, 7]);
    let long = vec![1u8; 300];
    let framed = frame_message(&long).unwrap();
    assert_eq!(framed[0], 44);
    assert_eq!(framed[1], 1);
    assert_eq!(framed.len(), 302);
}

#[test]
fn frame_too_long_is_refused() {
    let huge = vec![0u8; 65536];
    assert!(frame_message(&huge).is_none());
    let largest = vec![0u8; 65535];
    assert_eq!(frame_message(&largest).unwrap().len(), 65537);
}

#[test]
fn round_trip_in_transport_chunks() {
    let payload: Vec<u8> = (0..200u32).map(|i| (i * 7) as u8).collect();
    assert_eq!(round_trip(&payload, 64), Some(payload.clone()));
    assert_eq!(round_trip(&payload, 2), Some(payload.clone()));
    assert_eq!(round_trip(&payload, 1000), Some(payload.clone()));
}

#[test]
fn incomplete_frame_is_not_taken() {
    let mut reader = ReadBuffer::new();
    update_read_buffer(&mut reader, &[4, 0, 1, 2]).unwrap();
    assert_eq!(get_received_message(&mut reader), None);
    update_read_buffer(&mut reader, &[3, 4]).unwrap();
    assert_eq!(get_received_message(&mut reader), Some(vec![1, 2, 3, 4]));
    assert_eq!(get_received_message(&mut reader), None);
}

#[test]
fn short_prefix_is_an_error() {
    let mut reader = ReadBuffer::new();
    assert_eq!(update_read_buffer(&mut reader, &[5]), Err(FrameError::ShortPrefix));
}

#[test]
fn overflow_is_an_error() {
    let mut reader = ReadBuffer::new();
    assert_eq!(update_read_buffer(&mut reader, &[1, 0, 1, 2]), Err(FrameError::Overflow));
    update_read_buffer(&mut reader, &[2, 0, 1]).unwrap();
    assert_eq!(update_read_buffer(&mut reader, &[2, 3]), Err(FrameError::Overflow));
    update_read_buffer(&mut reader, &[2]).unwrap();
    assert_eq!(get_received_message(&mut reader), Some(vec![1, 2]));
}

#[test]
fn empty_chunk_changes_nothing() {
    let mut reader = ReadBuffer::new();
    assert_eq!(update_read_buffer(&mut reader, &[]), Ok(()));
    update_read_buffer(&mut reader, &[1, 0, 42]).unwrap();
    assert_eq!(get_received_message(&mut reader), Some(vec![42]));
}
