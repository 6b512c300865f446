use vstd::prelude::*;

use crate::board::{Board, Color, Piece, Position, BOARD_SIZE, SQUARE_COUNT};
use crate::tokens::{char_to_piece_type, piece_letter, piece_of_letter, piece_type_to_char};

verus! {

/// The byte `'/'` that separates ranks.
pub const SLASH: u8 = 47;

/// The board letter of a piece: upper case for white, lower case for black.
pub open spec fn piece_char(p: Piece) -> u8 {
    match p.color {
        Color::White => piece_letter(p.piece_type),
        Color::Black => (piece_letter(p.piece_type) + 32) as u8,
    }
}

/// The piece that a board letter stands for, if any.
pub open spec fn piece_of_char(c: u8) -> Option<Piece> {
    if c >= 97 {
        match piece_of_letter((c - 32) as u8) {
            Some(t) => Some(Piece { piece_type: t, color: Color::Black }),
            None => None,
        }
    } else {
        match piece_of_letter(c) {
            Some(t) => Some(Piece { piece_type: t, color: Color::White }),
            None => None,
        }
    }
}

/// `n` empty squares.
pub open spec fn empties(n: nat) -> Seq<Option<Piece>> {
    Seq::new(n, |i: int| None::<Piece>)
}

/// The digit that counts `n` empty squares, or nothing when `n` is zero.
pub open spec fn count_text(n: nat) -> Seq<u8> {
    if n == 0 {
        seq![]
    } else {
        seq![(48 + n) as u8]
    }
}

/// The run-length text of the squares `s`, after `pending` empty squares
/// that have not been written yet.
pub open spec fn rank_text(s: Seq<Option<Piece>>, pending: nat) -> Seq<u8>
    decreases s.len(),
{
    if s.len() == 0 {
        count_text(pending)
    } else {
        match s[0] {
            None => rank_text(s.drop_first(), pending + 1),
            Some(p) => count_text(pending) + seq![piece_char(p)] + rank_text(s.drop_first(), 0),
        }
    }
}

/// The eight squares of row `row`, file A first.
pub open spec fn rank_of(b: Seq<Option<Piece>>, row: int) -> Seq<Option<Piece>> {
    b.subrange(row * 8, row * 8 + 8)
}

/// The ranks from row `row` down to row 0, separated by `'/'`.
pub open spec fn ranks_text(b: Seq<Option<Piece>>, row: int) -> Seq<u8>
    decreases row,
{
    if row <= 0 {
        rank_text(rank_of(b, 0), 0)
    } else {
        rank_text(rank_of(b, row), 0) + seq![SLASH] + ranks_text(b, row - 1)
    }
}

/// The placement text of a board: rank 8 first, each rank file A first.
pub open spec fn fen_of(b: Seq<Option<Piece>>) -> Seq<u8> {
    ranks_text(b, 7)
}

/// One byte of placement text read in the state (`acc`, `slashes`): `acc`
/// holds the squares read so far, from rank 8 down, and `slashes` counts the
/// rank separators read so far.
pub open spec fn place_step(acc: Seq<Option<Piece>>, slashes: nat, c: u8) -> Option<(Seq<Option<Piece>>, nat)> {
    let limit = 8 * (slashes + 1);
    if c == SLASH {
        if acc.len() == limit && slashes < 7 {
            Some((acc, slashes + 1))
        } else {
            None
        }
    } else if 49 <= c <= 56 {
        if acc.len() + (c - 48) <= limit {
            Some((acc + empties((c - 48) as nat), slashes))
        } else {
            None
        }
    } else {
        match piece_of_char(c) {
            Some(p) => if acc.len() + 1 <= limit {
                Some((acc.push(Some(p)), slashes))
            } else {
                None
            },
            None => None,
        }
    }
}

/// The state after reading all of `t` from the state (`acc`, `slashes`).
pub open spec fn place_run(acc: Seq<Option<Piece>>, slashes: nat, t: Seq<u8>) -> Option<(Seq<Option<Piece>>, nat)>
    decreases t.len(),
{
    if t.len() == 0 {
        Some((acc, slashes))
    } else {
        match place_run(acc, slashes, t.drop_last()) {
            Some((a, k)) => place_step(a, k, t.last()),
            None => None,
        }
    }
}

/// Squares listed from rank 8 down, put in row-major order from row 0 up.
pub open spec fn rows_upward(t: Seq<Option<Piece>>) -> Seq<Option<Piece>> {
    Seq::new(64, |i: int| t[(7 - i / 8) * 8 + i % 8])
}

/// The board that a placement text describes: it must read to the end with
/// seven separators and 64 squares.
pub open spec fn board_of_fen(t: Seq<u8>) -> Option<Seq<Option<Piece>>> {
    match place_run(seq![], 0, t) {
        Some((a, k)) => if k == 7 && a.len() == 64 {
            Some(rows_upward(a))
        } else {
            None
        },
        None => None,
    }
}

proof fn lemma_piece_char(p: Piece)
    ensures
        piece_of_char(piece_char(p)) == Some(p),
        !(49 <= piece_char(p) <= 56),
        piece_char(p) != SLASH,
        piece_char(p) != 58,
{
}

proof fn lemma_run_concat(acc: Seq<Option<Piece>>, k: nat, u: Seq<u8>, v: Seq<u8>)
    ensures
        place_run(acc, k, u + v) == (match place_run(acc, k, u) {
            Some((a, j)) => place_run(a, j, v),
            None => None,
        }),
    decreases v.len(),
{
    if v.len() == 0 {
        assert(u + v =~= u);
    } else {
        assert((u + v).drop_last() =~= u + v.drop_last());
        lemma_run_concat(acc, k, u, v.drop_last());
    }
}

proof fn lemma_run_single(acc: Seq<Option<Piece>>, k: nat, c: u8)
    ensures
        place_run(acc, k, seq![c]) == place_step(acc, k, c),
{
    assert(seq![c].drop_last() =~= Seq::<u8>::empty());
    assert(place_run(acc, k, Seq::<u8>::empty()) == Some((acc, k)));
    assert(seq![c].last() == c);
}

/// Reading the text of a rank's squares adds exactly those squares.
proof fn lemma_rank_reads_back(acc: Seq<Option<Piece>>, k: nat, s: Seq<Option<Piece>>, pending: nat)
    requires
        8 * k <= acc.len(),
        acc.len() + pending + s.len() <= 8 * (k + 1),
    ensures
        place_run(acc, k, rank_text(s, pending)) == Some((acc + empties(pending) + s, k)),
    decreases s.len(),
{
    if s.len() == 0 {
        if pending == 0 {
            assert(acc + empties(0) + s =~= acc);
        } else {
            lemma_run_single(acc, k, (48 + pending) as u8);
            assert(acc + empties(pending) + s =~= acc + empties(pending));
        }
    } else {
        let rest = s.drop_first();
        match s[0] {
            None => {
                lemma_rank_reads_back(acc, k, rest, pending + 1);
                assert(acc + empties(pending + 1) + rest =~= acc + empties(pending) + s);
            },
            Some(p) => {
                let mid = acc + empties(pending);
                let c = piece_char(p);
                lemma_piece_char(p);
                assert(place_run(acc, k, count_text(pending)) == Some((mid, k))) by {
                    if pending == 0 {
                        assert(mid =~= acc);
                    } else {
                        lemma_run_single(acc, k, (48 + pending) as u8);
                    }
                }
                lemma_run_concat(acc, k, count_text(pending), seq![c]);
                lemma_run_single(mid, k, c);
                lemma_run_concat(acc, k, count_text(pending) + seq![c], rank_text(rest, 0));
                lemma_rank_reads_back(mid.push(Some(p)), k, rest, 0);
                assert(mid.push(Some(p)) + empties(0) + rest =~= acc + empties(pending) + s);
            },
        }
    }
}

/// The squares of rows `row` down to 0, in that order.
pub open spec fn rows_downward(b: Seq<Option<Piece>>, row: int) -> Seq<Option<Piece>>
    decreases row,
{
    if row <= 0 {
        rank_of(b, 0)
    } else {
        rank_of(b, row) + rows_downward(b, row - 1)
    }
}

proof fn lemma_rows_downward(b: Seq<Option<Piece>>, row: int)
    requires
        0 <= row < 8,
        b.len() == 64,
    ensures
        rows_downward(b, row).len() == 8 * (row + 1),
        forall|j: int| 0 <= j < 8 * (row + 1) ==> #[trigger] rows_downward(b, row)[j] == b[(row - j / 8) * 8 + j % 8],
    decreases row,
{
    if row > 0 {
        lemma_rows_downward(b, row - 1);
        assert forall|j: int| 0 <= j < 8 * (row + 1) implies #[trigger] rows_downward(b, row)[j] == b[(row - j / 8) * 8 + j % 8] by {
            if j >= 8 {
                assert((j - 8) / 8 == j / 8 - 1);
                assert((j - 8) % 8 == j % 8);
            }
        }
    }
}

proof fn lemma_ranks_read_back(b: Seq<Option<Piece>>, acc: Seq<Option<Piece>>, row: int)
    requires
        0 <= row < 8,
        b.len() == 64,
        acc.len() == 8 * (7 - row),
    ensures
        place_run(acc, (7 - row) as nat, ranks_text(b, row)) == Some((acc + rows_downward(b, row), 7nat)),
    decreases row,
{
    let k = (7 - row) as nat;
    let rank = rank_of(b, row);
    lemma_rank_reads_back(acc, k, rank, 0);
    assert(acc + empties(0) + rank =~= acc + rank);
    if row <= 0 {
    } else {
        let after = acc + rank;
        lemma_run_concat(acc, k, rank_text(rank, 0), seq![SLASH]);
        lemma_run_single(after, k, SLASH);
        lemma_run_concat(acc, k, rank_text(rank, 0) + seq![SLASH], ranks_text(b, row - 1));
        lemma_ranks_read_back(b, after, row - 1);
        assert(after + rows_downward(b, row - 1) =~= acc + rows_downward(b, row));
    }
}

/// Reading a board's placement text gives back the same board.
pub proof fn lemma_fen_round_trip(b: Seq<Option<Piece>>)
    requires
        b.len() == 64,
    ensures
        board_of_fen(fen_of(b)) == Some(b),
{
    lemma_ranks_read_back(b, seq![], 7);
    assert(Seq::<Option<Piece>>::empty() + rows_downward(b, 7) =~= rows_downward(b, 7));
    lemma_rows_downward(b, 7);
    let d = rows_downward(b, 7);
    assert forall|i: int| 0 <= i < 64 implies #[trigger] rows_upward(d)[i] == b[i] by {
        let j = (7 - i / 8) * 8 + i % 8;
        assert(j / 8 == 7 - i / 8);
        assert(j % 8 == i % 8);
    }
    assert(rows_upward(d) =~= b);
}

pub fn piece_to_char(p: Piece) -> (r: u8)
    ensures
        r == piece_char(p),
{
    let c = piece_type_to_char(p.piece_type);
    match p.color {
        Color::White => c,
        Color::Black => c + 32,
    }
}

pub fn char_to_piece(c: u8) -> (r: Option<Piece>)
    ensures
        r == piece_of_char(c),
{
    if c >= 97 {
        match char_to_piece_type(c - 32) {
            Some(t) => Some(Piece { piece_type: t, color: Color::Black }),
            None => None,
        }
    } else {
        match char_to_piece_type(c) {
            Some(t) => Some(Piece { piece_type: t, color: Color::White }),
            None => None,
        }
    }
}

fn push_count(out: &mut Vec<u8>, n: u8)
    requires
        n <= 8,
    ensures
        final(out)@ == old(out)@ + count_text(n as nat),
{
    if n != 0 {
        out.push(48 + n);
    }
    assert(final(out)@ =~= old(out)@ + count_text(n as nat));
}

/// Appends the placement text of `board` to `out`.
pub fn board_to_fen(out: &mut Vec<u8>, board: &Board)
    requires
        board.wf(),
    ensures
        final(out)@ == old(out)@ + fen_of(board@),
{
    let ghost b = board@;
    let ghost start = out@;
    let mut r: usize = 0;
    while r < BOARD_SIZE
        invariant
            board.wf(),
            b == board@,
            r <= 8,
            r < 8 ==> out@ + ranks_text(b, 7 - r) == start + fen_of(b),
            r == 8 ==> out@ == start + fen_of(b),
        decreases 8 - r,
    {
        let row: usize = 7 - r;
        let ghost rank = rank_of(b, row as int);
        let ghost before = out@;
        let mut empty_count: u8 = 0;
        let mut col: usize = 0;
        assert(rank.subrange(0, 8) =~= rank);
        assert(out@ =~= out@ + Seq::<u8>::empty());
        while col < BOARD_SIZE
            invariant
                board.wf(),
                b == board@,
                row < 8,
                rank == rank_of(b, row as int),
                col <= 8,
                empty_count <= col,
                out@ + rank_text(rank.subrange(col as int, 8), empty_count as nat) == before + rank_text(rank, 0),
            decreases 8 - col,
        {
            let ghost rest = rank.subrange(col as int, 8);
            assert(rest.drop_first() =~= rank.subrange(col + 1, 8));
            assert(rest[0] == b[row * 8 + col]);
            match board.get(Position { row: row as i8, col: col as i8 }) {
                None => {
                    empty_count = empty_count + 1;
                },
                Some(piece) => {
                    push_count(out, empty_count);
                    empty_count = 0;
                    out.push(piece_to_char(piece));
                    assert(out@ + rank_text(rank.subrange(col + 1, 8), 0) =~= before + rank_text(rank, 0));
                },
            }
            col = col + 1;
        }
        assert(rank.subrange(8, 8) =~= Seq::<Option<Piece>>::empty());
        assert(rank.subrange(0, 8) =~= rank);
        push_count(out, empty_count);
        if row != 0 {
            out.push(SLASH);
            assert(out@ + ranks_text(b, row - 1) =~= before + ranks_text(b, row as int));
        }
        r = r + 1;
    }
}

/// Reads the placement text that spans `s[start..end]` into a board, or
/// `None` when that text describes no board.
pub fn board_from_fen(s: &[u8], start: usize, end: usize) -> (r: Option<Board>)
    requires
        start <= end <= s@.len(),
    ensures
        match r {
            Some(b) => b.wf() && board_of_fen(s@.subrange(start as int, end as int)) == Some(b@),
            None => board_of_fen(s@.subrange(start as int, end as int)) is None,
        },
{
    let ghost t = s@.subrange(start as int, end as int);
    let mut acc: Vec<Option<Piece>> = Vec::new();
    let mut slashes: usize = 0;
    let mut i: usize = start;
    while i < end
        invariant
            start <= i <= end <= s@.len(),
            t == s@.subrange(start as int, end as int),
            place_run(seq![], 0, t.subrange(0, i - start)) == Some((acc@, slashes as nat)),
            slashes <= 7,
            acc@.len() <= 8 * (slashes + 1),
        decreases end - i,
    {
        let c = s[i];
        let ghost prefix = t.subrange(0, i - start);
        assert(t.subrange(0, i + 1 - start).drop_last() =~= prefix);
        assert(t.subrange(0, i + 1 - start).last() == c);
        let limit: usize = 8 * (slashes + 1);
        let ok: bool;
        if c == SLASH {
            ok = acc.len() == limit && slashes < 7;
            if ok {
                slashes = slashes + 1;
            }
        } else if 49 <= c && c <= 56 {
            let d: usize = (c - 48) as usize;
            ok = acc.len() + d <= limit;
            if ok {
                let ghost old_acc = acc@;
                let mut n: usize = 0;
                while n < d
                    invariant
                        n <= d,
                        acc@ == old_acc + empties(n as nat),
                    decreases d - n,
                {
                    acc.push(None);
                    n = n + 1;
                    assert(acc@ =~= old_acc + empties(n as nat));
                }
            }
        } else {
            match char_to_piece(c) {
                Some(p) => {
                    ok = acc.len() + 1 <= limit;
                    if ok {
                        acc.push(Some(p));
                    }
                },
                None => {
                    ok = false;
                },
            }
        }
        if !ok {
            proof {
                lemma_none_stays(t.subrange(0, i + 1 - start), t);
            }
            return None;
        }
        i = i + 1;
    }
    assert(t.subrange(0, end - start) =~= t);
    if slashes != 7 || acc.len() != SQUARE_COUNT {
        return None;
    }
    let mut squares: Vec<Option<Piece>> = Vec::new();
    let mut j: usize = 0;
    while j < SQUARE_COUNT
        invariant
            j <= 64,
            acc@.len() == 64,
            squares@.len() == j,
            forall|x: int| 0 <= x < j ==> squares@[x] == #[trigger] rows_upward(acc@)[x],
        decreases 64 - j,
    {
        squares.push(acc[(7 - j / 8) * 8 + j % 8]);
        j = j + 1;
    }
    assert(squares@ =~= rows_upward(acc@));
    Board::from_squares(squares)
}

/// Once the text read so far describes nothing, no continuation does.
proof fn lemma_none_stays(u: Seq<u8>, t: Seq<u8>)
    requires
        u.len() <= t.len(),
        u == t.subrange(0, u.len() as int),
        place_run(seq![], 0, u) is None,
    ensures
        board_of_fen(t) is None,
{
    lemma_run_concat(seq![], 0, u, t.subrange(u.len() as int, t.len() as int));
    assert(u + t.subrange(u.len() as int, t.len() as int) =~= t);
}

proof fn lemma_rank_text_shape(s: Seq<Option<Piece>>, pending: nat)
    requires
        pending + s.len() <= 8,
    ensures
        rank_text(s, pending).len() <= s.len() + (if pending > 0 {
            1int
        } else {
            0int
        }),
        forall|k: int|
            0 <= k < rank_text(s, pending).len() ==> #[trigger] rank_text(s, pending)[k] < 128
                && rank_text(s, pending)[k] != 58,
    decreases s.len(),
{
    if s.len() > 0 {
        let rest = s.drop_first();
        match s[0] {
            None => {
                lemma_rank_text_shape(rest, pending + 1);
            },
            Some(p) => {
                lemma_rank_text_shape(rest, 0);
                let t = rank_text(s, pending);
                let head = count_text(pending) + seq![piece_char(p)];
                assert(t == head + rank_text(rest, 0));
                assert forall|k: int| 0 <= k < t.len() implies #[trigger] t[k] < 128 && t[k] != 58 by {
                    if k >= head.len() {
                        assert(t[k] == rank_text(rest, 0)[k - head.len()]);
                    }
                }
            },
        }
    }
}

proof fn lemma_ranks_text_shape(b: Seq<Option<Piece>>, row: int)
    requires
        0 <= row < 8,
        b.len() == 64,
    ensures
        ranks_text(b, row).len() <= 9 * row + 8,
        forall|k: int|
            0 <= k < ranks_text(b, row).len() ==> #[trigger] ranks_text(b, row)[k] < 128
                && ranks_text(b, row)[k] != 58,
    decreases row,
{
    let rank = rank_of(b, row);
    lemma_rank_text_shape(rank, 0);
    if row > 0 {
        lemma_ranks_text_shape(b, row - 1);
        let t = ranks_text(b, row);
        let head = rank_text(rank, 0) + seq![SLASH];
        assert(t == head + ranks_text(b, row - 1));
        assert forall|k: int| 0 <= k < t.len() implies #[trigger] t[k] < 128 && t[k] != 58 by {
            if k >= head.len() {
                assert(t[k] == ranks_text(b, row - 1)[k - head.len()]);
            } else if k < rank_text(rank, 0).len() {
                assert(t[k] == rank_text(rank, 0)[k]);
            }
        }
    }
}

/// The placement text of a board is ASCII, holds no `':'`, and is at most 71
/// bytes long.
pub proof fn lemma_fen_shape(b: Seq<Option<Piece>>)
    requires
        b.len() == 64,
    ensures
        fen_of(b).len() <= 71,
        forall|k: int| 0 <= k < fen_of(b).len() ==> #[trigger] fen_of(b)[k] < 128 && fen_of(b)[k] != 58,
{
    lemma_ranks_text_shape(b, 7);
}

} // verus!
