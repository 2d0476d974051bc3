use resin::chain::PacketChain;
use resin::error::InternalError;
use resin::frame::{decode_packets, encode_frame};
use resin::outbox::{NextPacket, Outbox};
use resin::packet::{PacketTy, StreamTy};
use resin::reader::FrameReader;
use resin::server::{Action, ResinServer, ServerState};
use resin::shutdown::ShutdownCoordinator;
use resin::worker::{handle_output, StatusAction, StatusWorker, WaitOutcome};
use serde::ser::{SerializeStructVariant, Serializer};

// The MessagePack bytes of the map {"StartProcess": {"exec": "true", "args": []}}.
fn start_true_payload() -> Vec<u8> {
    let mut body = vec![0x81, 0xac];
    body.extend_from_slice(b"StartProcess");
    body.extend_from_slice(&[0x82, 0xa4]);
    body.extend_from_slice(b"exec");
    body.push(0xa4);
    body.extend_from_slice(b"true");
    body.push(0xa4);
    body.extend_from_slice(b"args");
    body.push(0x90);
    body
}

// A request to start `exec` without arguments, as the payload codec writes it.
fn start_encoded(exec: &str) -> Vec<u8> {
    let mut buf = Vec::new();
    let mut serializer = rmp_serde::Serializer::new(&mut buf).with_struct_map();
    let mut variant = (&mut serializer)
        .serialize_struct_variant("PacketTy", 0, "StartProcess", 2)
        .unwrap();
    variant.serialize_field("exec", exec).unwrap();
    variant
        .serialize_field("args", &Vec::<String>::new())
        .unwrap();
    variant.end().unwrap();
    buf
}

fn frame(flag: u8, chunk: &[u8]) -> Vec<u8> {
    let mut f = vec![flag];
    f.extend_from_slice(chunk);
    f
}

// Feeds wire bytes, in reads of the given size, through the reader and the
// accumulator, and returns the payloads of the chains that were completed.
fn read_all(wire: &[u8], read_size: usize) -> Vec<Vec<u8>> {
    let mut reader = FrameReader::new();
    let mut chain = PacketChain::new();
    let mut bodies = Vec::new();
    for read in wire.chunks(read_size) {
        for frame in reader.feed(read) {
            if let Some(done) = chain.push(frame).unwrap() {
                bodies.push(decode_packets(done).unwrap());
            }
        }
    }
    assert!(reader.finish().is_ok());
    assert_eq!(chain.len(), 0);
    bodies
}

#[test]
fn a_session_with_cat() {
    let mut server = ResinServer::new();
    let mut status = StatusWorker::new();
    let mut shutdown = ShutdownCoordinator::new();
    let mut outbox = Outbox::new(3);

    // One frame without continuation carries the request to start `cat`.
    let mut reader = FrameReader::new();
    let mut chain = PacketChain::new();
    let request = frame(0x00, &start_encoded("cat"));
    let mut frames = reader.feed(&encode_frame(&request).unwrap());
    assert_eq!(frames.len(), 1);
    let done = chain.push(frames.remove(0)).unwrap().unwrap();
    assert_eq!(decode_packets(done).unwrap(), start_encoded("cat"));

    let start = PacketTy::StartProcess {
        executable: String::from("cat"),
        args: vec![],
    };
    assert_eq!(
        server.dispatch_packet(start).unwrap(),
        Action::Spawn {
            executable: String::from("cat"),
            args: vec![]
        }
    );
    assert!(server.child_started());
    assert_eq!(server.state(), ServerState::Started);

    let input = PacketTy::DataIn {
        buf: b"hello\n".to_vec(),
    };
    let written = match server.dispatch_packet(input).unwrap() {
        Action::WriteStdin { buf } => buf,
        other => panic!("unexpected {:?}", other),
    };
    assert_eq!(written, b"hello\n");

    // `cat` writes back what it was given.
    let echoed = handle_output(StreamTy::Stdout, &written).unwrap();
    assert!(outbox.enqueue(echoed).is_ok());

    assert!(!status.should_kill(shutdown.is_requested()));
    assert_eq!(status.on_poll(WaitOutcome::Running), StatusAction::Retry);

    assert_eq!(
        server.dispatch_packet(PacketTy::KillProcess).unwrap(),
        Action::SignalShutdown
    );
    shutdown.signal();
    assert!(status.should_kill(shutdown.is_requested()));

    // The pipes close, and the status worker finds the child ended.
    assert_eq!(handle_output(StreamTy::Stdout, &[]), None);
    outbox.producer_done();
    assert_eq!(handle_output(StreamTy::Stderr, &[]), None);
    outbox.producer_done();
    match status.on_poll(WaitOutcome::Exited { code: None }) {
        StatusAction::Report { packet } => assert!(outbox.enqueue(packet).is_ok()),
        other => panic!("unexpected {:?}", other),
    }
    outbox.producer_done();
    assert!(!status.should_kill(shutdown.is_requested()));
    assert_eq!(status.on_poll(WaitOutcome::Running), StatusAction::Done);

    // The writer drains the queue: the data first, then the one exit status.
    let mut sent = Vec::new();
    loop {
        match outbox.next() {
            NextPacket::Packet { packet } => sent.push(packet),
            NextPacket::Wait => panic!("a producer is still counted"),
            NextPacket::Closed => break,
        }
    }
    assert_eq!(
        sent,
        vec![
            PacketTy::DataOut {
                ty: StreamTy::Stdout,
                buf: b"hello\n".to_vec()
            },
            PacketTy::ExitStatus { code: None },
        ]
    );
    assert!(sent[1].ends_daemon());
    assert!(!sent[0].ends_daemon());
}

#[test]
fn the_sample_payload_is_what_the_codec_writes() {
    assert_eq!(start_true_payload(), start_encoded("true"));
}

#[test]
fn a_chain_of_three_frames_is_one_frame_with_the_same_payload() {
    let payload = start_true_payload();
    let (a, rest) = payload.split_at(5);
    let (b, c) = rest.split_at(11);

    let mut single = PacketChain::new();
    let one = single.push(frame(0x00, &payload)).unwrap().unwrap();

    let mut chained = PacketChain::new();
    assert!(matches!(chained.push(frame(0x80, a)), Ok(None)));
    assert!(matches!(chained.push(frame(0x80, b)), Ok(None)));
    let three = chained.push(frame(0x00, c)).unwrap().unwrap();
    assert_eq!(three.len(), 3);

    let from_one = decode_packets(one).unwrap();
    let from_three = decode_packets(three).unwrap();
    assert_eq!(from_one, payload);
    assert_eq!(from_three, payload);
}

#[test]
fn a_truncated_payload_gives_one_error_report() {
    let payload = start_true_payload();
    let truncated = &payload[..payload.len() - 5];
    let (a, b) = truncated.split_at(9);

    let mut chain = PacketChain::new();
    assert!(matches!(chain.push(frame(0x80, a)), Ok(None)));
    let done = chain.push(frame(0x00, b)).unwrap().unwrap();
    let body = decode_packets(done).unwrap();
    assert_eq!(body, truncated);

    // The payload decoder gives up on the body: a text of four bytes is
    // announced at its end, and nothing follows.
    let tail = &body[body.len() - 1..];
    assert_eq!(tail, &[0xa4]);
    let failure = rmp_serde::from_slice::<String>(tail).unwrap_err();
    let expected = format!(
        "resin daemon error: fail serializing payload: {:?}",
        rmp_serde::from_slice::<String>(tail).unwrap_err()
    );

    let server = ResinServer::new();
    let error = InternalError::from(failure);
    assert!(!error.is_fatal());
    let report = server.dispatch_error(&error);
    assert_eq!(report, PacketTy::ErrorReport { msg: expected });
    assert_eq!(server.state(), ServerState::NotStarted);

    // The daemon goes on: the next packet is dispatched as usual.
    let start = PacketTy::StartProcess {
        executable: String::from("true"),
        args: vec![],
    };
    assert!(server.dispatch_packet(start).is_ok());
}

#[test]
fn a_hang_up_leads_to_the_kill_and_one_exit_status() {
    let mut server = ResinServer::new();
    let mut status = StatusWorker::new();
    let mut shutdown = ShutdownCoordinator::new();
    assert!(server.child_started());
    assert!(!status.should_kill(shutdown.is_requested()));

    // A read of no bytes between two frames is the hang-up, not an error.
    let mut reader = FrameReader::new();
    assert_eq!(reader.feed(&encode_frame(&[0x00, 1]).unwrap()).len(), 1);
    assert!(reader.finish().is_ok());

    // The shutdown is signalled; the status worker kills and reports.
    shutdown.signal();
    assert!(status.should_kill(shutdown.is_requested()));
    assert_eq!(status.on_poll(WaitOutcome::Running), StatusAction::Retry);
    assert_eq!(
        status.on_poll(WaitOutcome::Exited { code: None }),
        StatusAction::Report {
            packet: PacketTy::ExitStatus { code: None }
        }
    );
    assert_eq!(status.on_poll(WaitOutcome::Running), StatusAction::Done);
    assert_eq!(server.state(), ServerState::Started);
}

#[test]
fn payloads_come_off_the_wire_in_the_order_they_went_on() {
    let payloads: Vec<Vec<u8>> = vec![b"a".to_vec(), b"b".to_vec(), b"c".to_vec()];
    let mut wire = Vec::new();
    for payload in &payloads {
        // Inbound frames carry a flag byte before the payload.
        wire.extend_from_slice(&encode_frame(&frame(0x00, payload)).unwrap());
    }
    for read_size in [1usize, 2, 3, 4096] {
        assert_eq!(read_all(&wire, read_size), payloads);
    }
}

#[test]
fn chains_of_any_length_survive_the_wire() {
    let payload: Vec<u8> = (0..3000u32).map(|i| (i % 253) as u8).collect();
    for pieces in [1usize, 2, 3, 10, 3000] {
        let size = (payload.len() + pieces - 1) / pieces;
        let chunks: Vec<&[u8]> = payload.chunks(size).collect();
        let mut wire = Vec::new();
        for (i, chunk) in chunks.iter().enumerate() {
            let flag = if i + 1 == chunks.len() { 0x00 } else { 0x80 };
            wire.extend_from_slice(&encode_frame(&frame(flag, chunk)).unwrap());
        }
        for read_size in [1usize, 7, 1024, 4096] {
            assert_eq!(read_all(&wire, read_size), vec![payload.clone()]);
        }
    }
}
