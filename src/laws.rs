use vstd::prelude::*;

use crate::codec::{
    content_frame, decode_frame, decode_move, decode_quit, field_end, move_frame, move_id, move_ok,
    quit_frame, quit_id, quit_ok, ascii_bytes, Content, DecodeError, MoveView,
};
use crate::fen::{fen_of, lemma_fen_round_trip, lemma_fen_shape};
use crate::tokens::{
    lemma_move_token_round_trip, lemma_result_token_round_trip, move_of_token, move_token,
    result_token, COLON, ZERO,
};

verus! {

/// Whether the content can be put in a frame.
pub open spec fn content_ok(c: Content) -> bool {
    match c {
        Content::Move(m) => move_ok(m),
        Content::Quit(r) => quit_ok(r),
    }
}

/// The field that starts at `i` ends at `j` when no `':'` comes before `j`
/// and `j` is a `':'` or the end.
proof fn lemma_field_end_at(f: Seq<u8>, i: int, j: int)
    requires
        0 <= i <= j <= f.len(),
        forall|k: int| i <= k < j ==> f[k] != COLON,
        j == f.len() || f[j] == COLON,
    ensures
        field_end(f, i) == j,
    decreases j - i,
{
    if i < j {
        lemma_field_end_at(f, i + 1, j);
    }
}

/// Decoding the frame of a valid move message gives back the same move,
/// promotion, outcome and board.
pub proof fn lemma_move_round_trip(m: MoveView)
    requires
        move_ok(m),
    ensures
        decode_move(move_frame(m)) == Ok::<MoveView, DecodeError>(m),
        decode_frame(move_frame(m)) == Ok::<Content, DecodeError>(Content::Move(m)),
{
    let c = seq![COLON];
    let id = move_id();
    let mt = move_token(m.0, m.1, m.2);
    let rt = result_token(m.3);
    let fe = fen_of(m.4);
    let n = fe.len() as int;
    lemma_fen_shape(m.4);
    lemma_fen_round_trip(m.4);
    lemma_move_token_round_trip(m.0, m.1, m.2);
    lemma_result_token_round_trip(m.3);
    let body = id + c + mt + c + rt + c + fe + c;
    let f = move_frame(m);
    assert(f == body + Seq::new((128 - body.len()) as nat, |i: int| ZERO));
    assert(f.len() == 128);
    assert(f.subrange(0, 9) =~= id);
    assert(f.subrange(10, 15) =~= mt);
    assert(f.subrange(16, 19) =~= rt);
    assert(f.subrange(20, 20 + n) =~= fe);
    assert(f[9] == COLON && f[15] == COLON && f[19] == COLON && f[20 + n] == COLON);
    assert forall|k: int| 0 <= k < 9 implies f[k] != COLON by {
        assert(f[k] == f.subrange(0, 9)[k]);
    }
    assert forall|k: int| 10 <= k < 15 implies f[k] != COLON by {
        assert(f[k] == mt[k - 10]);
    }
    assert forall|k: int| 16 <= k < 19 implies f[k] != COLON by {
        assert(f[k] == rt[k - 16]);
    }
    assert forall|k: int| 20 <= k < 20 + n implies f[k] != COLON by {
        assert(f[k] == fe[k - 20]);
    }
    assert forall|k: int| 21 + n <= k < 128 implies f[k] != COLON by {
        assert(f[k] == ZERO);
    }
    lemma_field_end_at(f, 0, 9);
    lemma_field_end_at(f, 10, 15);
    lemma_field_end_at(f, 16, 19);
    lemma_field_end_at(f, 20, 20 + n);
    lemma_field_end_at(f, 21 + n, 128);
}

/// Decoding the frame of a valid quit message gives back the same reason,
/// and an absent reason stays absent.
pub proof fn lemma_quit_round_trip(r: Option<Seq<char>>)
    requires
        quit_ok(r),
    ensures
        decode_quit(quit_frame(r)) == Ok::<Option<Seq<char>>, DecodeError>(r),
        decode_frame(quit_frame(r)) == Ok::<Content, DecodeError>(Content::Quit(r)),
{
    let c = seq![COLON];
    let id = quit_id();
    let text = match r {
        Some(s) => ascii_bytes(s),
        None => seq![],
    };
    let n = text.len() as int;
    let body = id + c + text + c;
    let f = quit_frame(r);
    assert(f == body + Seq::new((128 - body.len()) as nat, |i: int| ZERO));
    assert(f.len() == 128);
    assert(f.subrange(0, 9) =~= id);
    assert(f.subrange(10, 10 + n) =~= text);
    assert(f[9] == COLON && f[10 + n] == COLON);
    assert(id != move_id()) by {
        assert(id[5] != move_id()[5]);
    }
    assert forall|k: int| 0 <= k < 9 implies f[k] != COLON by {
        assert(f[k] == f.subrange(0, 9)[k]);
    }
    assert forall|k: int| 10 <= k < 10 + n implies f[k] != COLON by {
        assert(f[k] == text[k - 10]);
    }
    assert forall|k: int| 11 + n <= k < 128 implies f[k] != COLON by {
        assert(f[k] == ZERO);
    }
    lemma_field_end_at(f, 0, 9);
    lemma_field_end_at(f, 10, 10 + n);
    lemma_field_end_at(f, 11 + n, 128);
    match r {
        Some(s) => {
            assert(f.subrange(10, 10 + n).len() > 0);
            assert(crate::codec::ascii_text(text) =~= s);
        },
        None => {},
    }
}

/// Every valid message is encoded as exactly 128 bytes.
pub proof fn lemma_frame_length(c: Content)
    requires
        content_ok(c),
    ensures
        content_frame(c).len() == 128,
{
    match c {
        Content::Move(m) => {
            lemma_fen_shape(m.4);
        },
        Content::Quit(r) => {},
    }
}

/// A frame that is not exactly 128 bytes long is rejected for its length,
/// whichever kind it is read as.
pub proof fn lemma_wrong_length_rejected(f: Seq<u8>)
    requires
        f.len() != 128,
    ensures
        decode_frame(f) == Err::<Content, DecodeError>(DecodeError::WrongLength),
        decode_move(f) == Err::<MoveView, DecodeError>(DecodeError::WrongLength),
        decode_quit(f) == Err::<Option<Seq<char>>, DecodeError>(DecodeError::WrongLength),
{
}

/// A 128-byte frame that starts with neither identifier is rejected as
/// unrecognised.
pub proof fn lemma_unknown_identifier_rejected(f: Seq<u8>)
    requires
        f.len() == 128,
        f.subrange(0, 9) != move_id(),
        f.subrange(0, 9) != quit_id(),
    ensures
        decode_frame(f) == Err::<Content, DecodeError>(DecodeError::UnknownIdentifier),
{
}

/// Whether `c` is an ASCII letter or digit.
pub open spec fn is_alphanumeric(c: u8) -> bool {
    (48 <= c <= 57) || (65 <= c <= 90) || (97 <= c <= 122)
}

/// A move frame whose fields are laid out right, but whose five-byte move
/// field has a lower-case file letter, a rank digit outside `1`..`8`, or a
/// promotion byte that is no letter or digit, is rejected as an invalid move.
pub proof fn lemma_bad_move_token_rejected(f: Seq<u8>)
    requires
        f.len() == 128,
        f.subrange(0, 9) == move_id(),
        crate::codec::move_layout(f),
        ({
            let t = f.subrange(10, field_end(f, 10));
            &&& t.len() == 5
            &&& {
                ||| 97 <= t[0] <= 122
                ||| 97 <= t[2] <= 122
                ||| !(49 <= t[1] <= 56)
                ||| !(49 <= t[3] <= 56)
                ||| !is_alphanumeric(t[4])
            }
        }),
    ensures
        decode_frame(f) == Err::<Content, DecodeError>(DecodeError::InvalidMove),
        decode_move(f) == Err::<MoveView, DecodeError>(DecodeError::InvalidMove),
{
    let t = f.subrange(10, field_end(f, 10));
    assert(t.subrange(0, 2)[0] == t[0] && t.subrange(0, 2)[1] == t[1]);
    assert(t.subrange(2, 4)[0] == t[2] && t.subrange(2, 4)[1] == t[3]);
    assert(move_of_token(t) is None);
}

} // verus!
