use resin::error::InternalError;
use resin::frame::encode_frame;
use resin::reader::FrameReader;

fn wire_of(payloads: &[Vec<u8>]) -> Vec<u8> {
    let mut wire = Vec::new();
    for payload in payloads {
        wire.extend_from_slice(&encode_frame(payload).unwrap());
    }
    wire
}

fn sample() -> Vec<Vec<u8>> {
    vec![
        vec![0x00, 1, 2, 3],
        vec![0x80],
        vec![],
        (0..300u32).map(|i| (i % 256) as u8).collect(),
        vec![0x00],
    ]
}

#[test]
fn a_new_reader_holds_nothing() {
    let reader = FrameReader::new();
    assert_eq!(reader.pending_len(), 0);
    assert!(reader.finish().is_ok());
}

#[test]
fn feed_cuts_one_read_into_its_frames() {
    let mut reader = FrameReader::new();
    let frames = reader.feed(&[0, 2, 10, 20, 0, 1, 30]);
    assert_eq!(frames, vec![vec![10, 20], vec![30]]);
    assert_eq!(reader.pending_len(), 0);
}

#[test]
fn feed_keeps_an_unfinished_frame() {
    let mut reader = FrameReader::new();
    assert_eq!(reader.feed(&[0, 3, 10]), Vec::<Vec<u8>>::new());
    assert_eq!(reader.pending_len(), 3);
    assert_eq!(reader.feed(&[20]), Vec::<Vec<u8>>::new());
    assert_eq!(reader.pending_len(), 4);
    assert_eq!(reader.feed(&[30, 0]), vec![vec![10, 20, 30]]);
    assert_eq!(reader.pending_len(), 1);
    assert_eq!(reader.feed(&[1, 40, 0, 0]), vec![vec![40], vec![]]);
    assert_eq!(reader.pending_len(), 0);
}

#[test]
fn feed_of_no_bytes_changes_nothing() {
    let mut reader = FrameReader::new();
    assert_eq!(reader.feed(&[]), Vec::<Vec<u8>>::new());
    assert_eq!(reader.pending_len(), 0);
    assert_eq!(reader.feed(&[0]), Vec::<Vec<u8>>::new());
    assert_eq!(reader.feed(&[]), Vec::<Vec<u8>>::new());
    assert_eq!(reader.pending_len(), 1);
}

#[test]
fn a_frame_of_length_zero_is_a_frame() {
    let mut reader = FrameReader::new();
    assert_eq!(reader.feed(&[0, 0]), vec![Vec::<u8>::new()]);
    assert_eq!(reader.pending_len(), 0);
}

#[test]
fn the_length_is_read_high_byte_first() {
    let mut reader = FrameReader::new();
    let mut wire = vec![0x01, 0x02];
    wire.extend_from_slice(&vec![7u8; 0x0102]);
    wire.push(9);
    let frames = reader.feed(&wire);
    assert_eq!(frames, vec![vec![7u8; 258]]);
    assert_eq!(reader.pending_len(), 1);
}

#[test]
fn what_is_written_is_read_back_in_order() {
    let payloads = sample();
    let mut reader = FrameReader::new();
    assert_eq!(reader.feed(&wire_of(&payloads)), payloads);
    assert!(reader.finish().is_ok());
}

#[test]
fn framing_does_not_depend_on_the_reads() {
    let payloads = sample();
    let wire = wire_of(&payloads);
    for cut in 0..=wire.len() {
        let mut reader = FrameReader::new();
        let mut frames = reader.feed(&wire[..cut]);
        frames.extend(reader.feed(&wire[cut..]));
        assert_eq!(frames, payloads);
        assert_eq!(reader.pending_len(), 0);
    }
}

#[test]
fn framing_survives_reads_of_one_byte() {
    let payloads = sample();
    let wire = wire_of(&payloads);
    let mut reader = FrameReader::new();
    let mut frames = Vec::new();
    for byte in &wire {
        frames.extend(reader.feed(&[*byte]));
    }
    assert_eq!(frames, payloads);
    assert!(reader.finish().is_ok());
}

#[test]
fn the_longest_frame_is_read() {
    let payload = vec![3u8; 65535];
    let wire = wire_of(&[payload.clone()]);
    let mut reader = FrameReader::new();
    let (a, b) = wire.split_at(40000);
    assert!(reader.feed(a).is_empty());
    assert_eq!(reader.feed(b), vec![payload]);
}

#[test]
fn a_stream_that_ends_between_frames_is_a_hang_up() {
    let mut reader = FrameReader::new();
    reader.feed(&[0, 1, 5]);
    assert!(reader.finish().is_ok());
}

#[test]
fn a_stream_that_ends_inside_a_prefix_is_cut_short() {
    let mut reader = FrameReader::new();
    reader.feed(&[0]);
    assert!(matches!(
        reader.finish(),
        Err(InternalError::TruncatedFrame)
    ));
}

#[test]
fn a_stream_that_ends_inside_a_payload_is_cut_short() {
    let mut reader = FrameReader::new();
    assert_eq!(reader.feed(&[0, 1, 5, 0, 4, 1, 2]), vec![vec![5]]);
    assert!(matches!(
        reader.finish(),
        Err(InternalError::TruncatedFrame)
    ));
}
