use chess_link::board::{Color, Piece, PieceType, Position};
use chess_link::fen::{char_to_piece, piece_to_char};
use chess_link::tokens::{
    char_to_piece_type, game_result_from_string, move_from_string, piece_type_to_char,
    pos_from_string, pos_to_string,
};

#[test]
fn square_tokens() {
    let mut out = Vec::new();
    pos_to_string(&mut out, Position::new(0, 0));
    pos_to_string(&mut out, Position::new(7, 7));
    assert_eq!(out, b"A1H8".to_vec());
    assert_eq!(pos_from_string(b"E4", 0), Some(Position::new(3, 4)));
    assert_eq!(pos_from_string(b"e4", 0), None);
    assert_eq!(pos_from_string(b"E0", 0), None);
}

#[test]
fn move_token_parse() {
    assert_eq!(
        move_from_string(b"E7E8Q", 0, 5),
        Some((Position::new(6, 4), Position::new(7, 4), Some(PieceType::Queen)))
    );
    assert_eq!(move_from_string(b"E7E8", 0, 4), None);
    assert_eq!(move_from_string(b"E7E8q", 0, 5), None);
}

#[test]
fn piece_letters() {
    assert_eq!(piece_type_to_char(PieceType::Knight), b'N');
    assert_eq!(char_to_piece_type(b'K'), Some(PieceType::King));
    assert_eq!(char_to_piece_type(b'k'), None);
    let black_rook = Piece { piece_type: PieceType::Rook, color: Color::Black };
    assert_eq!(piece_to_char(black_rook), b'r');
    assert_eq!(char_to_piece(b'r'), Some(black_rook));
    assert_eq!(char_to_piece(b'x'), None);
    assert_eq!(game_result_from_string(b"1-1", 0, 3), Some(Some(chess_link::board::GameResult::Stalemate)));
}
