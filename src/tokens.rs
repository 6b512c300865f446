use vstd::prelude::*;

use crate::board::{Color, GameResult, PieceType, Position};

verus! {

/// The byte `'0'`: the padding byte, and the promotion token for "none".
pub const ZERO: u8 = 48;

/// The byte `':'` that separates the fields of a frame.
pub const COLON: u8 = 58;

/// The letter of a piece kind, in upper case (`P N B R Q K`).
pub open spec fn piece_letter(t: PieceType) -> u8 {
    match t {
        PieceType::Pawn => 80,
        PieceType::Knight => 78,
        PieceType::Bishop => 66,
        PieceType::Rook => 82,
        PieceType::Queen => 81,
        PieceType::King => 75,
    }
}

/// The piece kind whose upper-case letter is `c`, if any.
pub open spec fn piece_of_letter(c: u8) -> Option<PieceType> {
    if c == 80 {
        Some(PieceType::Pawn)
    } else if c == 78 {
        Some(PieceType::Knight)
    } else if c == 66 {
        Some(PieceType::Bishop)
    } else if c == 82 {
        Some(PieceType::Rook)
    } else if c == 81 {
        Some(PieceType::Queen)
    } else if c == 75 {
        Some(PieceType::King)
    } else {
        None
    }
}

/// The two-byte token of a square: file letter `A`..`H`, then rank digit
/// `1`..`8`.
pub open spec fn square_token(p: Position) -> Seq<u8> {
    seq![(65 + p.col) as u8, (49 + p.row) as u8]
}

/// The square that a two-byte token names, if it is well formed.
pub open spec fn square_of_token(t: Seq<u8>) -> Option<Position> {
    if t.len() == 2 && 65 <= t[0] <= 72 && 49 <= t[1] <= 56 {
        Some(Position { row: (t[1] - 49) as i8, col: (t[0] - 65) as i8 })
    } else {
        None
    }
}

/// The one-byte promotion token: the piece's letter, or `'0'` for none.
pub open spec fn promotion_token(p: Option<PieceType>) -> u8 {
    match p {
        Some(t) => piece_letter(t),
        None => ZERO,
    }
}

/// The five-byte move token: origin square, destination square, promotion.
pub open spec fn move_token(from: Position, to: Position, promotion: Option<PieceType>) -> Seq<u8> {
    square_token(from) + square_token(to) + seq![promotion_token(promotion)]
}

/// What a move token denotes, if it is well formed.
pub open spec fn move_of_token(t: Seq<u8>) -> Option<(Position, Position, Option<PieceType>)> {
    if t.len() != 5 {
        None
    } else {
        match (square_of_token(t.subrange(0, 2)), square_of_token(t.subrange(2, 4))) {
            (Some(from), Some(to)) => if t[4] == ZERO {
                Some((from, to, None))
            } else {
                match piece_of_letter(t[4]) {
                    Some(k) => Some((from, to, Some(k))),
                    None => None,
                }
            },
            _ => None,
        }
    }
}

/// The three-byte token of a game's outcome: `1-0` white mates, `0-1` black
/// mates, `1-1` stalemate, `0-0` still going.
pub open spec fn result_token(r: Option<GameResult>) -> Seq<u8> {
    match r {
        Some(GameResult::Checkmate(Color::White)) => seq![49u8, 45, 48],
        Some(GameResult::Checkmate(Color::Black)) => seq![48u8, 45, 49],
        Some(GameResult::Stalemate) => seq![49u8, 45, 49],
        None => seq![48u8, 45, 48],
    }
}

/// The outcome that a result token denotes, if it is one of the four.
pub open spec fn result_of_token(t: Seq<u8>) -> Option<Option<GameResult>> {
    if t == seq![49u8, 45, 48] {
        Some(Some(GameResult::Checkmate(Color::White)))
    } else if t == seq![48u8, 45, 49] {
        Some(Some(GameResult::Checkmate(Color::Black)))
    } else if t == seq![49u8, 45, 49] {
        Some(Some(GameResult::Stalemate))
    } else if t == seq![48u8, 45, 48] {
        Some(None)
    } else {
        None
    }
}

pub fn piece_type_to_char(piece_type: PieceType) -> (r: u8)
    ensures
        r == piece_letter(piece_type),
{
    match piece_type {
        PieceType::Pawn => 80,
        PieceType::Knight => 78,
        PieceType::Bishop => 66,
        PieceType::Rook => 82,
        PieceType::Queen => 81,
        PieceType::King => 75,
    }
}

pub fn char_to_piece_type(c: u8) -> (r: Option<PieceType>)
    ensures
        r == piece_of_letter(c),
{
    match c {
        80 => Some(PieceType::Pawn),
        78 => Some(PieceType::Knight),
        66 => Some(PieceType::Bishop),
        82 => Some(PieceType::Rook),
        81 => Some(PieceType::Queen),
        75 => Some(PieceType::King),
        _ => None,
    }
}

/// Appends the token of `pos` to `out`.
pub fn pos_to_string(out: &mut Vec<u8>, pos: Position)
    requires
        pos.on_board(),
    ensures
        final(out)@ == old(out)@ + square_token(pos),
{
    out.push((65 + pos.col) as u8);
    out.push((49 + pos.row) as u8);
    assert(final(out)@ =~= old(out)@ + square_token(pos));
}

/// Reads the square token at `start` of `s`.
pub fn pos_from_string(s: &[u8], start: usize) -> (r: Option<Position>)
    requires
        start + 2 <= s@.len(),
    ensures
        r == square_of_token(s@.subrange(start as int, start + 2)),
{
    let file = s[start];
    let rank = s[start + 1];
    if 65 <= file && file <= 72 && 49 <= rank && rank <= 56 {
        Some(Position { row: (rank - 49) as i8, col: (file - 65) as i8 })
    } else {
        None
    }
}

/// Appends the move token to `out`.
pub fn move_to_string(out: &mut Vec<u8>, from: Position, to: Position, promotion_piece: Option<PieceType>)
    requires
        from.on_board(),
        to.on_board(),
    ensures
        final(out)@ == old(out)@ + move_token(from, to, promotion_piece),
{
    pos_to_string(out, from);
    pos_to_string(out, to);
    let p = match promotion_piece {
        Some(t) => piece_type_to_char(t),
        None => ZERO,
    };
    out.push(p);
    assert(final(out)@ =~= old(out)@ + move_token(from, to, promotion_piece));
}

/// Reads the move token that spans `s[start..end]`.
pub fn move_from_string(s: &[u8], start: usize, end: usize) -> (r: Option<(Position, Position, Option<PieceType>)>)
    requires
        start <= end <= s@.len(),
    ensures
        r == move_of_token(s@.subrange(start as int, end as int)),
{
    let ghost t = s@.subrange(start as int, end as int);
    if end - start != 5 {
        return None;
    }
    assert(t.subrange(0, 2) =~= s@.subrange(start as int, start + 2));
    assert(t.subrange(2, 4) =~= s@.subrange(start + 2, start + 4));
    let from = pos_from_string(s, start);
    let to = pos_from_string(s, start + 2);
    match (from, to) {
        (Some(from), Some(to)) => {
            let c = s[start + 4];
            if c == ZERO {
                Some((from, to, None))
            } else {
                match char_to_piece_type(c) {
                    Some(k) => Some((from, to, Some(k))),
                    None => None,
                }
            }
        },
        _ => None,
    }
}

/// Appends the result token to `out`.
pub fn game_result_to_string(out: &mut Vec<u8>, result: Option<GameResult>)
    ensures
        final(out)@ == old(out)@ + result_token(result),
{
    let (a, b) = match result {
        Some(GameResult::Checkmate(Color::White)) => (49u8, 48u8),
        Some(GameResult::Checkmate(Color::Black)) => (48u8, 49u8),
        Some(GameResult::Stalemate) => (49u8, 49u8),
        None => (48u8, 48u8),
    };
    out.push(a);
    out.push(45);
    out.push(b);
    assert(final(out)@ =~= old(out)@ + result_token(result));
}

/// Reads the result token that spans `s[start..end]`.
pub fn game_result_from_string(s: &[u8], start: usize, end: usize) -> (r: Option<Option<GameResult>>)
    requires
        start <= end <= s@.len(),
    ensures
        r == result_of_token(s@.subrange(start as int, end as int)),
{
    let ghost t = s@.subrange(start as int, end as int);
    if end - start != 3 || s[start + 1] != 45 {
        proof {
            if end - start == 3 {
                assert(t[1] == s@[start + 1]);
            }
            assert(seq![49u8, 45, 48].len() == 3 && seq![49u8, 45, 48][1] == 45);
            assert(seq![48u8, 45, 49].len() == 3 && seq![48u8, 45, 49][1] == 45);
            assert(seq![49u8, 45, 49].len() == 3 && seq![49u8, 45, 49][1] == 45);
            assert(seq![48u8, 45, 48].len() == 3 && seq![48u8, 45, 48][1] == 45);
        }
        return None;
    }
    let a = s[start];
    let b = s[start + 2];
    proof {
        assert(t[0] == a && t[1] == 45 && t[2] == b);
    }
    if a == 49 && b == 48 {
        assert(t =~= seq![49u8, 45, 48]);
        Some(Some(GameResult::Checkmate(Color::White)))
    } else if a == 48 && b == 49 {
        assert(t =~= seq![48u8, 45, 49]);
        Some(Some(GameResult::Checkmate(Color::Black)))
    } else if a == 49 && b == 49 {
        assert(t =~= seq![49u8, 45, 49]);
        Some(Some(GameResult::Stalemate))
    } else if a == 48 && b == 48 {
        assert(t =~= seq![48u8, 45, 48]);
        Some(None)
    } else {
        assert(t != seq![49u8, 45, 48] && t != seq![48u8, 45, 49] && t != seq![49u8, 45, 49]
            && t != seq![48u8, 45, 48]) by {
            assert(seq![49u8, 45, 48][0] == 49 && seq![49u8, 45, 48][2] == 48);
            assert(seq![48u8, 45, 49][0] == 48 && seq![48u8, 45, 49][2] == 49);
            assert(seq![49u8, 45, 49][0] == 49 && seq![49u8, 45, 49][2] == 49);
            assert(seq![48u8, 45, 48][0] == 48 && seq![48u8, 45, 48][2] == 48);
        }
        None
    }
}

/// Reading a move token gives back the move it was made from.
pub proof fn lemma_move_token_round_trip(from: Position, to: Position, promotion: Option<PieceType>)
    requires
        from.on_board(),
        to.on_board(),
    ensures
        move_of_token(move_token(from, to, promotion)) == Some((from, to, promotion)),
        forall|k: int| 0 <= k < 5 ==> #[trigger] move_token(from, to, promotion)[k] != COLON,
{
    let t = move_token(from, to, promotion);
    assert(t.subrange(0, 2) =~= square_token(from));
    assert(t.subrange(2, 4) =~= square_token(to));
    assert(t[4] == promotion_token(promotion));
}

/// Reading a result token gives back the outcome it was made from.
pub proof fn lemma_result_token_round_trip(r: Option<GameResult>)
    ensures
        result_of_token(result_token(r)) == Some(r),
        result_token(r).len() == 3,
        forall|k: int| 0 <= k < 3 ==> #[trigger] result_token(r)[k] != COLON,
{
    let w = seq![49u8, 45, 48];
    let b = seq![48u8, 45, 49];
    let s = seq![49u8, 45, 49];
    let z = seq![48u8, 45, 48];
    assert(w[0] != b[0] && w[2] != s[2] && w[0] != z[0]);
    assert(b[2] != s[2] || b[0] != s[0]);
    assert(b[2] != z[2] && s[0] != z[0]);
}

} // verus!
