use resin::error::{ErrorClass, InternalError};

fn io_error() -> std::io::Error {
    std::io::Error::new(std::io::ErrorKind::Other, "boom")
}

#[test]
fn from_io_error_wraps_it() {
    let e = InternalError::from(io_error());
    match e {
        InternalError::IoError { inner } => {
            assert_eq!(inner.kind(), std::io::ErrorKind::Other);
            assert_eq!(inner.to_string(), "boom");
        }
        other => panic!("unexpected {:?}", other),
    }
}

#[test]
fn from_encode_error_wraps_it() {
    let e = InternalError::from(rmp_serde::encode::Error::UnknownLength);
    assert!(matches!(
        e,
        InternalError::SerializerError {
            inner: rmp_serde::encode::Error::UnknownLength
        }
    ));
}

#[test]
fn from_decode_error_wraps_it() {
    let e = InternalError::from(rmp_serde::decode::Error::OutOfRange);
    assert!(matches!(
        e,
        InternalError::DeserializerError {
            inner: rmp_serde::decode::Error::OutOfRange
        }
    ));
}

#[test]
fn classes_follow_the_taxonomy() {
    assert_eq!(InternalError::from(io_error()).class(), ErrorClass::Io);
    assert_eq!(
        InternalError::from(rmp_serde::encode::Error::UnknownLength).class(),
        ErrorClass::Codec
    );
    assert_eq!(
        InternalError::from(rmp_serde::decode::Error::OutOfRange).class(),
        ErrorClass::Codec
    );
    assert_eq!(InternalError::UnknownType { ty: 3 }.class(), ErrorClass::Codec);
    assert_eq!(
        InternalError::FrameTooLarge { len: 70000 }.class(),
        ErrorClass::Codec
    );
    assert_eq!(InternalError::ChannelSendError.class(), ErrorClass::Channel);
    assert_eq!(InternalError::IllegalPacket.class(), ErrorClass::Protocol);
    assert_eq!(InternalError::EmptyFrame.class(), ErrorClass::Protocol);
    assert_eq!(InternalError::TruncatedFrame.class(), ErrorClass::Protocol);
}

#[test]
fn only_protocol_errors_are_fatal() {
    assert!(InternalError::IllegalPacket.is_fatal());
    assert!(InternalError::EmptyFrame.is_fatal());
    assert!(InternalError::TruncatedFrame.is_fatal());
    assert!(!InternalError::ChannelSendError.is_fatal());
    assert!(!InternalError::UnknownType { ty: 0 }.is_fatal());
    assert!(!InternalError::FrameTooLarge { len: 65536 }.is_fatal());
    assert!(!InternalError::from(io_error()).is_fatal());
    assert!(!InternalError::from(rmp_serde::encode::Error::UnknownLength).is_fatal());
    assert!(!InternalError::from(rmp_serde::decode::Error::OutOfRange).is_fatal());
}

#[test]
fn messages_without_an_outside_error_are_fixed() {
    assert_eq!(
        InternalError::ChannelSendError.message(),
        "channel transmit error; internal channel closed?"
    );
    assert_eq!(
        InternalError::UnknownType { ty: 0 }.message(),
        "unknown packet type: 0"
    );
    assert_eq!(
        InternalError::UnknownType { ty: 7 }.message(),
        "unknown packet type: 7"
    );
    assert_eq!(
        InternalError::UnknownType { ty: 255 }.message(),
        "unknown packet type: 255"
    );
    assert_eq!(
        InternalError::IllegalPacket.message(),
        "illegal packet for the current state"
    );
    assert_eq!(
        InternalError::EmptyFrame.message(),
        "empty frame: the flag byte is missing"
    );
    assert_eq!(
        InternalError::FrameTooLarge { len: 65536 }.message(),
        "payload too large for one frame: 65536"
    );
    assert_eq!(
        InternalError::TruncatedFrame.message(),
        "stream ended inside a frame"
    );
}

#[test]
fn message_of_an_io_error_ends_in_its_debug_text() {
    let text = InternalError::from(io_error()).message();
    assert_eq!(text, format!("internal io error: {:?}", io_error()));
    assert!(text.contains("boom"));
}

#[test]
fn message_of_an_encode_error_ends_in_its_debug_text() {
    let text = InternalError::from(rmp_serde::encode::Error::UnknownLength).message();
    assert_eq!(text, "fail serializing payload: UnknownLength");
    let text =
        InternalError::from(rmp_serde::encode::Error::Syntax(String::from("bad"))).message();
    assert_eq!(text, "fail serializing payload: Syntax(\"bad\")");
}

#[test]
fn message_of_a_decode_error_ends_in_its_debug_text() {
    let text = InternalError::from(rmp_serde::decode::Error::OutOfRange).message();
    assert_eq!(text, "fail serializing payload: OutOfRange");
    let text = InternalError::from(rmp_serde::decode::Error::LengthMismatch(3)).message();
    assert_eq!(text, "fail serializing payload: LengthMismatch(3)");
}
