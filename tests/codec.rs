use chess_link::board::{Board, Color, GameResult, Piece, PieceType, Position};
use chess_link::codec::{add_padding, DecodeError};
use chess_link::messages::{Message, MoveMessage, QuitMessage};

fn piece(piece_type: PieceType, color: Color) -> Option<Piece> {
    Some(Piece { piece_type, color })
}

fn start_board() -> Board {
    let mut b = Board::empty();
    let back = [
        PieceType::Rook,
        PieceType::Knight,
        PieceType::Bishop,
        PieceType::Queen,
        PieceType::King,
        PieceType::Bishop,
        PieceType::Knight,
        PieceType::Rook,
    ];
    for col in 0..8i8 {
        b.set(Position::new(0, col), piece(back[col as usize], Color::White));
        b.set(Position::new(1, col), piece(PieceType::Pawn, Color::White));
        b.set(Position::new(6, col), piece(PieceType::Pawn, Color::Black));
        b.set(Position::new(7, col), piece(back[col as usize], Color::Black));
    }
    b
}

fn pad(s: &str) -> String {
    format!("{}{}", s, "0".repeat(128 - s.len()))
}

fn same_board(a: &Board, b: &Board) -> bool {
    (0..8i8).all(|r| (0..8i8).all(|c| a.get(Position::new(r, c)) == b.get(Position::new(r, c))))
}

fn e2e4_message(result: Option<GameResult>) -> MoveMessage {
    let mut board = start_board();
    board.set(Position::new(1, 4), None);
    board.set(Position::new(3, 4), piece(PieceType::Pawn, Color::White));
    MoveMessage {
        from: Position::new(1, 4),
        to: Position::new(3, 4),
        promotion_piece: None,
        result,
        new_board: board,
    }
}

fn decode_err(s: String) -> DecodeError {
    match Message::from_string(s) {
        Ok(_) => panic!("frame decoded"),
        Err(e) => e,
    }
}

#[test]
fn opening_move_round_trip() {
    let m = e2e4_message(None);
    let text = m.to_string();
    assert_eq!(
        text,
        pad("ChessMOVE:E2E40:0-0:rnbqkbnr/pppppppp/8/8/4P3/8/PPPP1PPP/RNBQKBNR:")
    );
    match Message::from_string(text).unwrap() {
        Message::Move(d) => {
            assert_eq!(d.from, Position::new(1, 4));
            assert_eq!(d.to, Position::new(3, 4));
            assert_eq!(d.promotion_piece, None);
            assert_eq!(d.result, None);
            assert!(same_board(&d.new_board, &m.new_board));
        }
        Message::Quit(_) => panic!("decoded as quit"),
    }
}

#[test]
fn checkmate_white_token() {
    let m = e2e4_message(Some(GameResult::Checkmate(Color::White)));
    let text = m.to_string();
    assert_eq!(&text[16..19], "1-0");
    let d = MoveMessage::from_string(text).unwrap();
    assert_eq!(d.result, Some(GameResult::Checkmate(Color::White)));
}

#[test]
fn every_result_token() {
    let cases = [
        (Some(GameResult::Checkmate(Color::White)), "1-0"),
        (Some(GameResult::Checkmate(Color::Black)), "0-1"),
        (Some(GameResult::Stalemate), "1-1"),
        (None, "0-0"),
    ];
    for (result, token) in cases {
        let text = e2e4_message(result).to_string();
        assert_eq!(&text[16..19], token);
        assert_eq!(MoveMessage::from_string(text).unwrap().result, result);
    }
}

#[test]
fn every_promotion_piece() {
    let cases = [
        (PieceType::Pawn, 'P'),
        (PieceType::Knight, 'N'),
        (PieceType::Bishop, 'B'),
        (PieceType::Rook, 'R'),
        (PieceType::Queen, 'Q'),
        (PieceType::King, 'K'),
    ];
    for (kind, letter) in cases {
        let m = MoveMessage {
            from: Position::new(6, 0),
            to: Position::new(7, 7),
            promotion_piece: Some(kind),
            result: Some(GameResult::Stalemate),
            new_board: Board::empty(),
        };
        let text = m.to_string();
        assert_eq!(&text[10..15], format!("A7H8{}", letter));
        let d = MoveMessage::from_string(text).unwrap();
        assert_eq!(d.promotion_piece, Some(kind));
        assert_eq!(d.from, Position::new(6, 0));
        assert_eq!(d.to, Position::new(7, 7));
    }
}

#[test]
fn empty_board_text() {
    let m = MoveMessage {
        from: Position::new(0, 0),
        to: Position::new(7, 7),
        promotion_piece: None,
        result: None,
        new_board: Board::empty(),
    };
    assert_eq!(m.to_string(), pad("ChessMOVE:A1H80:0-0:8/8/8/8/8/8/8/8:"));
}

#[test]
fn frames_are_128_bytes() {
    assert_eq!(e2e4_message(None).to_frame().len(), 128);
    assert_eq!(e2e4_message(None).to_string().len(), 128);
    assert_eq!(QuitMessage { message: None }.to_frame().len(), 128);
    let q = QuitMessage::new(Some("x".repeat(117))).unwrap();
    assert_eq!(q.to_string().len(), 128);
    assert_eq!(Message::Quit(q).to_frame().len(), 128);
}

#[test]
fn quit_without_reason_round_trip() {
    let text = QuitMessage { message: None }.to_string();
    assert_eq!(text, pad("ChessQUIT::"));
    let d = QuitMessage::from_string(text.clone()).unwrap();
    assert_eq!(d.message, None);
    match Message::from_string(text).unwrap() {
        Message::Quit(q) => assert_eq!(q.message, None),
        Message::Move(_) => panic!("decoded as move"),
    }
}

#[test]
fn quit_with_reason_round_trip() {
    let q = QuitMessage::new(Some("resigned".to_string())).unwrap();
    let text = q.to_string();
    assert_eq!(text, pad("ChessQUIT:resigned:"));
    let d = QuitMessage::from_string(text).unwrap();
    assert_eq!(d.message, Some("resigned".to_string()));
}

#[test]
fn quit_reason_limits() {
    assert!(QuitMessage::new(None).is_some());
    assert!(QuitMessage::new(Some(String::new())).is_none());
    assert!(QuitMessage::new(Some("a:b".to_string())).is_none());
    assert!(QuitMessage::new(Some("é".to_string())).is_none());
    assert!(QuitMessage::new(Some("x".repeat(118))).is_none());
    assert!(QuitMessage::new(Some("x".repeat(117))).is_some());
    assert!(!QuitMessage { message: Some(String::new()) }.is_valid());
}

#[test]
fn wrong_length_rejected() {
    let good = e2e4_message(None).to_string();
    assert_eq!(decode_err(good[..127].to_string()), DecodeError::WrongLength);
    assert_eq!(decode_err(format!("{}0", good)), DecodeError::WrongLength);
    assert_eq!(decode_err(String::new()), DecodeError::WrongLength);
    assert!(matches!(
        QuitMessage::from_string("ChessQUIT::".to_string()),
        Err(DecodeError::WrongLength)
    ));
    assert!(matches!(
        MoveMessage::from_frame(&[48u8; 200]),
        Err(DecodeError::WrongLength)
    ));
}

#[test]
fn unknown_identifier_rejected() {
    assert_eq!(decode_err(pad("ChessHELO::")), DecodeError::UnknownIdentifier);
    assert_eq!(decode_err(pad("chessMOVE:E2E40:0-0:8/8/8/8/8/8/8/8:")), DecodeError::UnknownIdentifier);
    assert!(matches!(
        MoveMessage::from_string(pad("ChessQUIT::")),
        Err(DecodeError::UnknownIdentifier)
    ));
}

#[test]
fn bad_square_tokens_rejected() {
    for mv in ["e2E40", "E2e40", "E9E40", "E2E00", "I2E40", "E2E4#", "E2E4x"] {
        let text = pad(&format!("ChessMOVE:{}:0-0:8/8/8/8/8/8/8/8:", mv));
        assert_eq!(decode_err(text), DecodeError::InvalidMove, "{}", mv);
    }
    assert_eq!(
        decode_err(pad("ChessMOVE:E2E4:0-0:8/8/8/8/8/8/8/8:")),
        DecodeError::InvalidMove
    );
}

#[test]
fn other_decode_errors() {
    assert_eq!(
        decode_err(pad("ChessMOVE:E2E40:2-0:8/8/8/8/8/8/8/8:")),
        DecodeError::InvalidResult
    );
    assert_eq!(
        decode_err(pad("ChessMOVE:E2E40:0-0:8/8/8/8/8/8/8/7:")),
        DecodeError::InvalidBoard
    );
    assert_eq!(
        decode_err(pad("ChessMOVE:E2E40:0-0:8/8/8/8/8/8/8/8/8:")),
        DecodeError::InvalidBoard
    );
    assert_eq!(
        decode_err(pad("ChessMOVE:E2E40:0-0:8/8/8/8/8/8/8/7x:")),
        DecodeError::InvalidBoard
    );
    assert_eq!(
        decode_err(pad("ChessMOVE:E2E40:0-0:8/8/8/8/8/8/8/8::")),
        DecodeError::BadFields
    );
    assert_eq!(decode_err(pad("ChessMOVEX:E2E40:0-0:8/8/8/8/8/8/8/8:")), DecodeError::BadFields);
    assert_eq!(decode_err(pad("ChessQUIT:a:b:")), DecodeError::BadFields);
    assert_eq!(decode_err(pad("ChessQUIT")), DecodeError::BadFields);
    let mut frame = b"ChessQUIT:".to_vec();
    frame.push(200);
    frame.push(b':');
    add_padding(&mut frame);
    assert!(matches!(Message::from_frame(&frame), Err(DecodeError::InvalidReason)));
}

#[test]
fn padding_fills_with_zeros() {
    let mut v = b"ChessQUIT::".to_vec();
    add_padding(&mut v);
    assert_eq!(v.len(), 128);
    assert!(v[11..].iter().all(|&b| b == b'0'));
    let mut full = vec![b'a'; 128];
    add_padding(&mut full);
    assert_eq!(full, vec![b'a'; 128]);
}

#[test]
fn board_text_and_parse_agree() {
    let b = start_board();
    let m = MoveMessage {
        from: Position::new(0, 1),
        to: Position::new(2, 2),
        promotion_piece: None,
        result: None,
        new_board: b,
    };
    let d = MoveMessage::from_frame(&m.to_frame()).unwrap();
    assert!(same_board(&d.new_board, &m.new_board));
    assert_eq!(d.new_board.get(Position::new(7, 4)), piece(PieceType::King, Color::Black));
    assert_eq!(d.new_board.get(Position::new(0, 3)), piece(PieceType::Queen, Color::White));
    assert_eq!(d.new_board.get(Position::new(4, 4)), None);
}
