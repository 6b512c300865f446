use vstd::prelude::*;

use crate::board::{GameResult, Piece, PieceType, Position};
use crate::fen::{board_of_fen, fen_of};
use crate::tokens::{move_of_token, move_token, result_of_token, result_token, COLON, ZERO};

verus! {

/// Every frame is exactly this many bytes long.
pub const FRAME_LEN: usize = 128;

/// The longest reason text a quit frame can carry.
pub const MAX_REASON_LEN: usize = 117;

/// Why a frame could not be decoded.
#[derive(Clone, Copy, Debug, PartialEq, Eq, Structural)]
pub enum DecodeError {
    /// The frame is not exactly 128 bytes long.
    WrongLength,
    /// The frame starts with neither `ChessMOVE` nor `ChessQUIT`.
    UnknownIdentifier,
    /// The frame does not split on `':'` into the fields its kind has.
    BadFields,
    /// The move field is not two squares and a promotion letter.
    InvalidMove,
    /// The result field is not one of `1-0`, `0-1`, `1-1`, `0-0`.
    InvalidResult,
    /// The board field is not a placement of 64 squares.
    InvalidBoard,
    /// The reason field holds a byte outside ASCII.
    InvalidReason,
}

/// The logical content of a move message: origin, destination, promotion,
/// outcome, and the board after the move.
pub type MoveView = (Position, Position, Option<PieceType>, Option<GameResult>, Seq<Option<Piece>>);

/// The logical content of either kind of message.
pub enum Content {
    Move(MoveView),
    Quit(Option<Seq<char>>),
}

/// The identifier of a move frame, `ChessMOVE`.
pub open spec fn move_id() -> Seq<u8> {
    seq![67u8, 104, 101, 115, 115, 77, 79, 86, 69]
}

/// The identifier of a quit frame, `ChessQUIT`.
pub open spec fn quit_id() -> Seq<u8> {
    seq![67u8, 104, 101, 115, 115, 81, 85, 73, 84]
}

/// The identifier of a quit frame, or of a move frame.
pub open spec fn frame_id(quit: bool) -> Seq<u8> {
    if quit {
        quit_id()
    } else {
        move_id()
    }
}

/// `s` followed by `'0'` bytes up to the frame length.
pub open spec fn padded(s: Seq<u8>) -> Seq<u8> {
    s + Seq::new((128 - s.len()) as nat, |i: int| ZERO)
}

/// Whether a move's content can be put in a frame: both squares on the board
/// and one entry per square.
pub open spec fn move_ok(m: MoveView) -> bool {
    m.0.on_board() && m.1.on_board() && m.4.len() == 64
}

/// Whether a reason text can be put in a frame: non-empty, ASCII, without
/// `':'`, and short enough.
pub open spec fn reason_ok(r: Seq<char>) -> bool {
    &&& 0 < r.len() <= 117
    &&& vstd::utf8::is_ascii_chars(r)
    &&& forall|i: int| 0 <= i < r.len() ==> #[trigger] r[i] != ':'
}

/// Whether an optional reason can be put in a frame.
pub open spec fn quit_ok(r: Option<Seq<char>>) -> bool {
    match r {
        Some(s) => reason_ok(s),
        None => true,
    }
}

/// The bytes of an ASCII text.
pub open spec fn ascii_bytes(s: Seq<char>) -> Seq<u8> {
    Seq::new(s.len(), |i: int| s[i] as u8)
}

/// The text of bytes read as ASCII.
pub open spec fn ascii_text(b: Seq<u8>) -> Seq<char> {
    Seq::new(b.len(), |i: int| b[i] as char)
}

/// The frame of a move message.
pub open spec fn move_frame(m: MoveView) -> Seq<u8> {
    padded(
        move_id() + seq![COLON] + move_token(m.0, m.1, m.2) + seq![COLON] + result_token(m.3)
            + seq![COLON] + fen_of(m.4) + seq![COLON],
    )
}

/// The frame of a quit message; an absent reason leaves the field empty.
pub open spec fn quit_frame(r: Option<Seq<char>>) -> Seq<u8> {
    let text = match r {
        Some(s) => ascii_bytes(s),
        None => seq![],
    };
    padded(quit_id() + seq![COLON] + text + seq![COLON])
}

/// The frame of a message.
pub open spec fn content_frame(c: Content) -> Seq<u8> {
    match c {
        Content::Move(m) => move_frame(m),
        Content::Quit(r) => quit_frame(r),
    }
}

/// The end of the field that starts at `i`: the index of the next `':'` at or
/// after `i`, or the length of `f` if there is none.
pub open spec fn field_end(f: Seq<u8>, i: int) -> int
    decreases f.len() - i,
{
    if i >= f.len() {
        f.len() as int
    } else if f[i] == COLON {
        i
    } else {
        field_end(f, i + 1)
    }
}

/// Whether `f` splits on `':'` into exactly five fields, the first of them
/// nine bytes long.
pub open spec fn move_layout(f: Seq<u8>) -> bool {
    let n = f.len() as int;
    let e0 = field_end(f, 0);
    let e1 = field_end(f, e0 + 1);
    let e2 = field_end(f, e1 + 1);
    let e3 = field_end(f, e2 + 1);
    e0 == 9 && e1 < n && e2 < n && e3 < n && field_end(f, e3 + 1) == n
}

/// The fields of a 128-byte move frame: the identifier, the move, the result,
/// the board, and the padding, with no further `':'`.
pub open spec fn move_fields(f: Seq<u8>) -> Result<MoveView, DecodeError> {
    let e0 = field_end(f, 0);
    let e1 = field_end(f, e0 + 1);
    let e2 = field_end(f, e1 + 1);
    let e3 = field_end(f, e2 + 1);
    if !move_layout(f) {
        Err(DecodeError::BadFields)
    } else {
        match move_of_token(f.subrange(e0 + 1, e1)) {
            None => Err(DecodeError::InvalidMove),
            Some(mv) => match result_of_token(f.subrange(e1 + 1, e2)) {
                None => Err(DecodeError::InvalidResult),
                Some(res) => match board_of_fen(f.subrange(e2 + 1, e3)) {
                    None => Err(DecodeError::InvalidBoard),
                    Some(sq) => Ok((mv.0, mv.1, mv.2, res, sq)),
                },
            },
        }
    }
}

/// The fields of a 128-byte quit frame: the identifier, the reason, and the
/// padding. An empty reason field means no reason.
pub open spec fn quit_fields(f: Seq<u8>) -> Result<Option<Seq<char>>, DecodeError> {
    let n = f.len() as int;
    let e0 = field_end(f, 0);
    let e1 = field_end(f, e0 + 1);
    if !(e0 == 9 && e1 < n && field_end(f, e1 + 1) == n) {
        Err(DecodeError::BadFields)
    } else {
        let r = f.subrange(e0 + 1, e1);
        if r.len() == 0 {
            Ok(None)
        } else if forall|i: int| 0 <= i < r.len() ==> r[i] < 128 {
            Ok(Some(ascii_text(r)))
        } else {
            Err(DecodeError::InvalidReason)
        }
    }
}

/// What a frame says when read as a move frame.
pub open spec fn decode_move(f: Seq<u8>) -> Result<MoveView, DecodeError> {
    if f.len() != 128 {
        Err(DecodeError::WrongLength)
    } else if f.subrange(0, 9) != move_id() {
        Err(DecodeError::UnknownIdentifier)
    } else {
        move_fields(f)
    }
}

/// What a frame says when read as a quit frame.
pub open spec fn decode_quit(f: Seq<u8>) -> Result<Option<Seq<char>>, DecodeError> {
    if f.len() != 128 {
        Err(DecodeError::WrongLength)
    } else if f.subrange(0, 9) != quit_id() {
        Err(DecodeError::UnknownIdentifier)
    } else {
        quit_fields(f)
    }
}

/// What a frame says, of either kind, chosen by its first nine bytes.
pub open spec fn decode_frame(f: Seq<u8>) -> Result<Content, DecodeError> {
    if f.len() != 128 {
        Err(DecodeError::WrongLength)
    } else if f.subrange(0, 9) == move_id() {
        match move_fields(f) {
            Ok(m) => Ok(Content::Move(m)),
            Err(e) => Err(e),
        }
    } else if f.subrange(0, 9) == quit_id() {
        match quit_fields(f) {
            Ok(r) => Ok(Content::Quit(r)),
            Err(e) => Err(e),
        }
    } else {
        Err(DecodeError::UnknownIdentifier)
    }
}

/// Pads `frame` with `'0'` bytes up to the frame length.
pub fn add_padding(frame: &mut Vec<u8>)
    requires
        old(frame)@.len() <= 128,
    ensures
        final(frame)@ == padded(old(frame)@),
        final(frame)@.len() == 128,
{
    let ghost start = frame@;
    while frame.len() < FRAME_LEN
        invariant
            start.len() <= frame@.len() <= 128,
            frame@ == start + Seq::new((frame@.len() - start.len()) as nat, |i: int| ZERO),
        decreases 128 - frame@.len(),
    {
        frame.push(ZERO);
        assert(frame@ =~= start + Seq::new((frame@.len() - start.len()) as nat, |i: int| ZERO));
    }
}

/// The nine identifier bytes of a quit frame, or of a move frame.
pub(crate) fn identifier(quit: bool) -> (r: Vec<u8>)
    ensures
        r@ == frame_id(quit),
{
    let mut v: Vec<u8> = Vec::new();
    v.push(67);
    v.push(104);
    v.push(101);
    v.push(115);
    v.push(115);
    if quit {
        v.push(81);
        v.push(85);
        v.push(73);
        v.push(84);
        assert(v@ =~= quit_id());
    } else {
        v.push(77);
        v.push(79);
        v.push(86);
        v.push(69);
        assert(v@ =~= move_id());
    }
    v
}

/// Whether `f` starts with the identifier of a quit frame, or of a move frame.
pub(crate) fn has_identifier(f: &[u8], quit: bool) -> (r: bool)
    requires
        f@.len() >= 9,
    ensures
        r <==> f@.subrange(0, 9) == frame_id(quit),
{
    let id = identifier(quit);
    let ghost want = frame_id(quit);
    assert(id@ == want);
    let mut i: usize = 0;
    while i < 9
        invariant
            i <= 9,
            f@.len() >= 9,
            id@ == want,
            want == frame_id(quit),
            want.len() == 9,
            forall|k: int| 0 <= k < i ==> f@[k] == id@[k],
        decreases 9 - i,
    {
        if f[i] != id[i] {
            assert(f@.subrange(0, 9)[i as int] != id@[i as int]);
            assert(f@.subrange(0, 9) != want);
            return false;
        }
        i = i + 1;
    }
    assert(f@.subrange(0, 9) =~= id@);
    true
}

/// The end of the field of `f` that starts at `i`.
pub(crate) fn find_field_end(f: &[u8], i: usize) -> (r: usize)
    requires
        i <= f@.len(),
    ensures
        r == field_end(f@, i as int),
        i <= r <= f@.len(),
        forall|k: int| i <= k < r ==> f@[k] != COLON,
{
    let mut j: usize = i;
    while j < f.len() && f[j] != COLON
        invariant
            i <= j <= f@.len(),
            field_end(f@, i as int) == field_end(f@, j as int),
            forall|k: int| i <= k < j ==> f@[k] != COLON,
        decreases f@.len() - j,
    {
        j = j + 1;
    }
    j
}

} // verus!
