use chess_link::codec::DecodeError;
use chess_link::connection::{ConnectionType, FrameBuffer, TcpError};
use chess_link::messages::{Message, QuitMessage};

#[test]
fn partial_frame_would_block() {
    let frame = QuitMessage { message: None }.to_frame();
    let mut buf = FrameBuffer::new();
    assert_eq!(buf.room(), 128);
    assert!(matches!(buf.receive(&frame[..100]), Err(TcpError::WouldBlock)));
    assert_eq!(buf.room(), 28);
    assert!(matches!(buf.receive(&[]), Err(TcpError::WouldBlock)));
    match buf.receive(&frame[100..]) {
        Ok(Message::Quit(q)) => assert_eq!(q.message, None),
        other => panic!("unexpected {:?}", other),
    }
    assert_eq!(buf.room(), 128);
}

#[test]
fn complete_bad_frame_is_invalid() {
    let mut buf = FrameBuffer::new();
    let junk = vec![b'x'; 128];
    match buf.receive(&junk) {
        Err(TcpError::InvalidMessage(e)) => assert_eq!(e, DecodeError::UnknownIdentifier),
        other => panic!("unexpected {:?}", other),
    }
    assert_eq!(buf.room(), 128);
}

#[test]
fn would_block_is_retry() {
    assert!(TcpError::WouldBlock.would_block());
    assert!(!TcpError::InvalidMessage(DecodeError::BadFields).would_block());
    assert_ne!(ConnectionType::Server, ConnectionType::Client);
}
