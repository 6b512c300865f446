use vstd::prelude::*;

use crate::board::{Board, GameResult, PieceType, Position};
use crate::codec::{
    add_padding, content_frame, move_id, padded, quit_id, ascii_bytes, ascii_text, decode_frame, decode_move, decode_quit, field_end,
    find_field_end, has_identifier, identifier, move_fields, move_frame, move_ok, quit_fields,
    quit_frame, quit_ok, reason_ok, Content, DecodeError, MoveView, FRAME_LEN, MAX_REASON_LEN,
};
use crate::fen::{board_from_fen, board_to_fen, fen_of, lemma_fen_shape};
use crate::tokens::{
    game_result_from_string, game_result_to_string, move_from_string, move_to_string, move_token,
    result_token, COLON, ZERO,
};

verus! {

broadcast use vstd::string::group_string_axioms;

/// Relies on `String::from_utf8_lossy`: bytes that are valid UTF-8 come back
/// as that text unchanged, and each ASCII byte is one character.
#[verifier::external_body]
fn text_from_ascii(bytes: &[u8]) -> (r: String)
    requires
        forall|i: int| 0 <= i < bytes@.len() ==> bytes@[i] < 128,
    ensures
        r@ == ascii_text(bytes@),
{
    String::from_utf8_lossy(bytes).into_owned()
}

/// A move just played, the outcome it led to, and the whole board after it.
#[derive(Debug)]
pub struct MoveMessage {
    pub from: Position,
    pub to: Position,
    pub promotion_piece: Option<PieceType>,
    pub result: Option<GameResult>,
    pub new_board: Board,
}

impl View for MoveMessage {
    type V = MoveView;

    open spec fn view(&self) -> MoveView {
        (self.from, self.to, self.promotion_piece, self.result, self.new_board@)
    }
}

/// A notice that the peer ends the session, with an optional reason.
#[derive(Debug)]
pub struct QuitMessage {
    pub message: Option<String>,
}

impl View for QuitMessage {
    type V = Option<Seq<char>>;

    open spec fn view(&self) -> Option<Seq<char>> {
        match self.message {
            Some(s) => Some(s@),
            None => None,
        }
    }
}

/// A message of either kind.
#[derive(Debug)]
pub enum Message {
    Move(MoveMessage),
    Quit(QuitMessage),
}

impl View for Message {
    type V = Content;

    open spec fn view(&self) -> Content {
        match self {
            Message::Move(m) => Content::Move(m@),
            Message::Quit(q) => Content::Quit(q@),
        }
    }
}

/// Whether every byte of `b` is ASCII.
pub open spec fn all_ascii(b: Seq<u8>) -> bool {
    forall|i: int| 0 <= i < b.len() ==> b[i] < 128
}

/// Copies `f[start..end]`.
fn copy_range(f: &[u8], start: usize, end: usize) -> (r: Vec<u8>)
    requires
        start <= end <= f@.len(),
    ensures
        r@ == f@.subrange(start as int, end as int),
{
    let mut r: Vec<u8> = Vec::new();
    let mut i: usize = start;
    while i < end
        invariant
            start <= i <= end <= f@.len(),
            r@ == f@.subrange(start as int, i as int),
        decreases end - i,
    {
        r.push(f[i]);
        i = i + 1;
        assert(r@ =~= f@.subrange(start as int, i as int));
    }
    r
}

impl MoveMessage {
    /// Whether the message can be put in a frame.
    pub open spec fn valid(&self) -> bool {
        move_ok(self@)
    }

    pub fn is_valid(&self) -> (r: bool)
        ensures
            r == self.valid(),
    {
        0 <= self.from.row && self.from.row < 8 && 0 <= self.from.col && self.from.col < 8
            && 0 <= self.to.row && self.to.row < 8 && 0 <= self.to.col && self.to.col < 8
            && self.new_board.square_count() == 64
    }

    /// The frame of this message: always 128 bytes.
    pub fn to_frame(&self) -> (r: Vec<u8>)
        requires
            self.valid(),
        ensures
            r@ == move_frame(self@),
            r@.len() == 128,
    {
        let mut out = identifier(false);
        out.push(COLON);
        move_to_string(&mut out, self.from, self.to, self.promotion_piece);
        out.push(COLON);
        game_result_to_string(&mut out, self.result);
        out.push(COLON);
        board_to_fen(&mut out, &self.new_board);
        out.push(COLON);
        proof {
            lemma_fen_shape(self.new_board@);
        }
        add_padding(&mut out);
        out
    }

    /// Reads the move frame `f`.
    pub fn from_frame(f: &[u8]) -> (r: Result<MoveMessage, DecodeError>)
        ensures
            match r {
                Ok(m) => m.valid() && decode_move(f@) == Ok::<MoveView, DecodeError>(m@),
                Err(e) => decode_move(f@) == Err::<MoveView, DecodeError>(e),
            },
            f@.len() != 128 ==> r == Err::<MoveMessage, DecodeError>(DecodeError::WrongLength),
    {
        if f.len() != FRAME_LEN {
            return Err(DecodeError::WrongLength);
        }
        if !has_identifier(f, false) {
            return Err(DecodeError::UnknownIdentifier);
        }
        Self::from_fields(f)
    }

    /// Reads the fields of the 128-byte frame `f`, whatever its identifier.
    fn from_fields(f: &[u8]) -> (r: Result<MoveMessage, DecodeError>)
        requires
            f@.len() == 128,
        ensures
            match r {
                Ok(m) => m.valid() && move_fields(f@) == Ok::<MoveView, DecodeError>(m@),
                Err(e) => move_fields(f@) == Err::<MoveView, DecodeError>(e),
            },
    {
        let n = f.len();
        let e0 = find_field_end(f, 0);
        if e0 != 9 {
            return Err(DecodeError::BadFields);
        }
        let e1 = find_field_end(f, e0 + 1);
        if e1 >= n {
            return Err(DecodeError::BadFields);
        }
        let e2 = find_field_end(f, e1 + 1);
        if e2 >= n {
            return Err(DecodeError::BadFields);
        }
        let e3 = find_field_end(f, e2 + 1);
        if e3 >= n {
            return Err(DecodeError::BadFields);
        }
        if find_field_end(f, e3 + 1) != n {
            return Err(DecodeError::BadFields);
        }
        let (from, to, promotion_piece) = match move_from_string(f, e0 + 1, e1) {
            Some(mv) => mv,
            None => {
                return Err(DecodeError::InvalidMove);
            },
        };
        let result = match game_result_from_string(f, e1 + 1, e2) {
            Some(res) => res,
            None => {
                return Err(DecodeError::InvalidResult);
            },
        };
        let new_board = match board_from_fen(f, e2 + 1, e3) {
            Some(b) => b,
            None => {
                return Err(DecodeError::InvalidBoard);
            },
        };
        Ok(MoveMessage { from, to, promotion_piece, result, new_board })
    }

    /// The frame of this message as text.
    pub fn to_string(&self) -> (r: String)
        requires
            self.valid(),
        ensures
            r@ == ascii_text(move_frame(self@)),
            r@.len() == 128,
    {
        let f = self.to_frame();
        proof {
            lemma_move_frame_ascii(self@);
        }
        text_from_ascii(f.as_slice())
    }

    /// Reads a move frame given as text.
    pub fn from_string(msg_str: String) -> (r: Result<MoveMessage, DecodeError>)
        ensures
            match r {
                Ok(m) => m.valid() && decode_move(vstd::utf8::encode_utf8(msg_str@)) == Ok::<MoveView, DecodeError>(m@),
                Err(e) => decode_move(vstd::utf8::encode_utf8(msg_str@)) == Err::<MoveView, DecodeError>(e),
            },
    {
        Self::from_frame(msg_str.as_str().as_bytes())
    }
}

proof fn lemma_concat_ascii(a: Seq<u8>, b: Seq<u8>)
    requires
        all_ascii(a),
        all_ascii(b),
    ensures
        all_ascii(a + b),
{
    assert forall|i: int| 0 <= i < (a + b).len() implies (a + b)[i] < 128 by {
        if i >= a.len() {
            assert((a + b)[i] == b[i - a.len()]);
        }
    }
}

proof fn lemma_padded_ascii(s: Seq<u8>)
    requires
        all_ascii(s),
        s.len() <= 128,
    ensures
        all_ascii(padded(s)),
{
    lemma_concat_ascii(s, Seq::new((128 - s.len()) as nat, |i: int| ZERO));
}

proof fn lemma_ids_ascii()
    ensures
        all_ascii(move_id()),
        all_ascii(quit_id()),
        all_ascii(seq![COLON]),
{
}

proof fn lemma_move_frame_ascii(m: MoveView)
    requires
        move_ok(m),
    ensures
        all_ascii(move_frame(m)),
{
    lemma_fen_shape(m.4);
    lemma_ids_ascii();
    let c = seq![COLON];
    let mt = move_token(m.0, m.1, m.2);
    assert(all_ascii(mt));
    assert(all_ascii(result_token(m.3)));
    let a1 = move_id() + c;
    lemma_concat_ascii(move_id(), c);
    lemma_concat_ascii(a1, mt);
    let a2 = a1 + mt + c;
    lemma_concat_ascii(a1 + mt, c);
    lemma_concat_ascii(a2, result_token(m.3));
    let a3 = a2 + result_token(m.3) + c;
    lemma_concat_ascii(a2 + result_token(m.3), c);
    lemma_concat_ascii(a3, fen_of(m.4));
    lemma_concat_ascii(a3 + fen_of(m.4), c);
    lemma_padded_ascii(a3 + fen_of(m.4) + c);
}

/// The text of an optional string.
pub open spec fn text_view(o: Option<String>) -> Option<Seq<char>> {
    match o {
        Some(s) => Some(s@),
        None => None,
    }
}

fn reason_is_valid(s: &String) -> (r: bool)
    ensures
        r == reason_ok(s@),
{
    let t = s.as_str();
    if !t.is_ascii() {
        return false;
    }
    let b = t.as_bytes();
    assert(b@ =~= ascii_bytes(s@));
    if b.len() == 0 || b.len() > MAX_REASON_LEN {
        return false;
    }
    let mut i: usize = 0;
    while i < b.len()
        invariant
            i <= b@.len(),
            b@ == ascii_bytes(s@),
            vstd::utf8::is_ascii_chars(s@),
            forall|k: int| 0 <= k < i ==> s@[k] != ':',
        decreases b@.len() - i,
    {
        if b[i] == COLON {
            assert(s@[i as int] == ':');
            return false;
        }
        i = i + 1;
    }
    true
}

impl QuitMessage {
    /// Whether the message can be put in a frame.
    pub open spec fn valid(&self) -> bool {
        quit_ok(self@)
    }

    pub fn is_valid(&self) -> (r: bool)
        ensures
            r == self.valid(),
    {
        match &self.message {
            Some(s) => reason_is_valid(s),
            None => true,
        }
    }

    /// A quit message with the given reason, or `None` when the reason is
    /// empty, not ASCII, holds a `':'`, or is longer than 117 bytes.
    pub fn new(message: Option<String>) -> (r: Option<QuitMessage>)
        ensures
            r is Some <==> quit_ok(text_view(message)),
            r matches Some(q) ==> q@ == text_view(message),
    {
        let q = QuitMessage { message };
        if q.is_valid() {
            Some(q)
        } else {
            None
        }
    }

    /// The frame of this message: always 128 bytes.
    pub fn to_frame(&self) -> (r: Vec<u8>)
        requires
            self.valid(),
        ensures
            r@ == quit_frame(self@),
            r@.len() == 128,
    {
        let mut out = identifier(true);
        out.push(COLON);
        let ghost head = out@;
        match &self.message {
            Some(s) => {
                let t = s.as_str();
                assert(vstd::string::is_ascii(t));
                let b = t.as_bytes();
                assert(b@ =~= ascii_bytes(s@));
                let mut i: usize = 0;
                while i < b.len()
                    invariant
                        i <= b@.len(),
                        out@ == head + b@.subrange(0, i as int),
                    decreases b@.len() - i,
                {
                    out.push(b[i]);
                    i = i + 1;
                    assert(out@ =~= head + b@.subrange(0, i as int));
                }
                assert(b@.subrange(0, b@.len() as int) =~= b@);
            },
            None => {
                assert(out@ =~= head + Seq::<u8>::empty());
            },
        }
        out.push(COLON);
        add_padding(&mut out);
        out
    }

    /// Reads the quit frame `f`.
    pub fn from_frame(f: &[u8]) -> (r: Result<QuitMessage, DecodeError>)
        ensures
            match r {
                Ok(q) => q.valid() && decode_quit(f@) == Ok::<Option<Seq<char>>, DecodeError>(q@),
                Err(e) => decode_quit(f@) == Err::<Option<Seq<char>>, DecodeError>(e),
            },
            f@.len() != 128 ==> r == Err::<QuitMessage, DecodeError>(DecodeError::WrongLength),
    {
        if f.len() != FRAME_LEN {
            return Err(DecodeError::WrongLength);
        }
        if !has_identifier(f, true) {
            return Err(DecodeError::UnknownIdentifier);
        }
        Self::from_fields(f)
    }

    /// Reads the fields of the 128-byte frame `f`, whatever its identifier.
    fn from_fields(f: &[u8]) -> (r: Result<QuitMessage, DecodeError>)
        requires
            f@.len() == 128,
        ensures
            match r {
                Ok(q) => q.valid() && quit_fields(f@) == Ok::<Option<Seq<char>>, DecodeError>(q@),
                Err(e) => quit_fields(f@) == Err::<Option<Seq<char>>, DecodeError>(e),
            },
    {
        let n = f.len();
        let e0 = find_field_end(f, 0);
        if e0 != 9 {
            return Err(DecodeError::BadFields);
        }
        let e1 = find_field_end(f, e0 + 1);
        if e1 >= n {
            return Err(DecodeError::BadFields);
        }
        if find_field_end(f, e1 + 1) != n {
            return Err(DecodeError::BadFields);
        }
        if e1 == e0 + 1 {
            return Ok(QuitMessage { message: None });
        }
        let text = copy_range(f, e0 + 1, e1);
        let mut i: usize = 0;
        while i < text.len()
            invariant
                i <= text@.len(),
                forall|k: int| 0 <= k < i ==> text@[k] < 128,
                f@.len() == 128,
                e0 == 9,
                e0 == field_end(f@, 0),
                e1 == field_end(f@, e0 + 1),
                e0 + 1 < e1 < 128,
                field_end(f@, e1 + 1) == 128,
                text@ == f@.subrange(e0 + 1, e1 as int),
                forall|k: int| e0 + 1 <= k < e1 ==> f@[k] != COLON,
            decreases text@.len() - i,
        {
            if text[i] >= 128 {
                assert(!(forall|k: int| 0 <= k < text@.len() ==> text@[k] < 128));
                return Err(DecodeError::InvalidReason);
            }
            i = i + 1;
        }
        let s = text_from_ascii(text.as_slice());
        proof {
            assert forall|k: int| 0 <= k < s@.len() implies #[trigger] s@[k] != ':' by {
                assert(text@[k] == f@[e0 + 1 + k]);
            }
        }
        Ok(QuitMessage { message: Some(s) })
    }

    /// The frame of this message as text.
    pub fn to_string(&self) -> (r: String)
        requires
            self.valid(),
        ensures
            r@ == ascii_text(quit_frame(self@)),
            r@.len() == 128,
    {
        let f = self.to_frame();
        proof {
            lemma_quit_frame_ascii(self@);
        }
        text_from_ascii(f.as_slice())
    }

    /// Reads a quit frame given as text.
    pub fn from_string(msg_str: String) -> (r: Result<QuitMessage, DecodeError>)
        ensures
            match r {
                Ok(q) => q.valid() && decode_quit(vstd::utf8::encode_utf8(msg_str@)) == Ok::<Option<Seq<char>>, DecodeError>(q@),
                Err(e) => decode_quit(vstd::utf8::encode_utf8(msg_str@)) == Err::<Option<Seq<char>>, DecodeError>(e),
            },
    {
        Self::from_frame(msg_str.as_str().as_bytes())
    }
}

proof fn lemma_quit_frame_ascii(r: Option<Seq<char>>)
    requires
        quit_ok(r),
    ensures
        all_ascii(quit_frame(r)),
{
    lemma_ids_ascii();
    let c = seq![COLON];
    let text = match r {
        Some(s) => ascii_bytes(s),
        None => seq![],
    };
    assert(all_ascii(text));
    lemma_concat_ascii(quit_id(), c);
    lemma_concat_ascii(quit_id() + c, text);
    lemma_concat_ascii(quit_id() + c + text, c);
    lemma_padded_ascii(quit_id() + c + text + c);
}

impl Message {
    /// Whether the message can be put in a frame.
    pub open spec fn valid(&self) -> bool {
        match self {
            Message::Move(m) => m.valid(),
            Message::Quit(q) => q.valid(),
        }
    }

    pub fn is_valid(&self) -> (r: bool)
        ensures
            r == self.valid(),
    {
        match self {
            Message::Move(m) => m.is_valid(),
            Message::Quit(q) => q.is_valid(),
        }
    }

    /// The frame of this message: always 128 bytes.
    pub fn to_frame(&self) -> (r: Vec<u8>)
        requires
            self.valid(),
        ensures
            r@ == content_frame(self@),
            r@.len() == 128,
    {
        match self {
            Message::Move(m) => m.to_frame(),
            Message::Quit(q) => q.to_frame(),
        }
    }

    /// Reads a frame of either kind, chosen by its first nine bytes.
    pub fn from_frame(f: &[u8]) -> (r: Result<Message, DecodeError>)
        ensures
            match r {
                Ok(m) => m.valid() && decode_frame(f@) == Ok::<Content, DecodeError>(m@),
                Err(e) => decode_frame(f@) == Err::<Content, DecodeError>(e),
            },
            f@.len() != 128 ==> r == Err::<Message, DecodeError>(DecodeError::WrongLength),
            f@.len() == 128 && f@.subrange(0, 9) != move_id() && f@.subrange(0, 9) != quit_id()
                ==> r == Err::<Message, DecodeError>(DecodeError::UnknownIdentifier),
    {
        if f.len() != FRAME_LEN {
            return Err(DecodeError::WrongLength);
        }
        if has_identifier(f, false) {
            match MoveMessage::from_fields(f) {
                Ok(m) => Ok(Message::Move(m)),
                Err(e) => Err(e),
            }
        } else if has_identifier(f, true) {
            match QuitMessage::from_fields(f) {
                Ok(q) => Ok(Message::Quit(q)),
                Err(e) => Err(e),
            }
        } else {
            Err(DecodeError::UnknownIdentifier)
        }
    }

    /// The frame of this message as text.
    pub fn to_string(&self) -> (r: String)
        requires
            self.valid(),
        ensures
            r@ == ascii_text(content_frame(self@)),
            r@.len() == 128,
    {
        match self {
            Message::Move(m) => m.to_string(),
            Message::Quit(q) => q.to_string(),
        }
    }

    /// Reads a frame of either kind given as text.
    pub fn from_string(msg_str: String) -> (r: Result<Message, DecodeError>)
        ensures
            match r {
                Ok(m) => m.valid() && decode_frame(vstd::utf8::encode_utf8(msg_str@)) == Ok::<Content, DecodeError>(m@),
                Err(e) => decode_frame(vstd::utf8::encode_utf8(msg_str@)) == Err::<Content, DecodeError>(e),
            },
    {
        Self::from_frame(msg_str.as_str().as_bytes())
    }
}

} // verus!
