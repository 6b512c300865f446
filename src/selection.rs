use vstd::prelude::*;

use crate::board::{Color, GameResult, PieceType, Position};

verus! {

/// A legal move as the rules engine lists it: origin, destination, promotion.
pub type LegalMove = (Position, Position, Option<PieceType>);

/// The destinations of the moves in `moves` that start on `from`, in the
/// order the moves are listed.
pub open spec fn targets_of(moves: Seq<LegalMove>, from: Position) -> Seq<Position>
    decreases moves.len(),
{
    if moves.len() == 0 {
        seq![]
    } else {
        let rest = targets_of(moves.drop_last(), from);
        if moves.last().0 == from {
            rest.push(moves.last().1)
        } else {
            rest
        }
    }
}

/// The squares that the piece on `selected_pos` can move to.
pub fn legal_targets(moves: &[LegalMove], selected_pos: Position) -> (r: Vec<Position>)
    ensures
        r@ == targets_of(moves@, selected_pos),
{
    let mut r: Vec<Position> = Vec::new();
    let mut i: usize = 0;
    while i < moves.len()
        invariant
            i <= moves@.len(),
            r@ == targets_of(moves@.subrange(0, i as int), selected_pos),
        decreases moves@.len() - i,
    {
        let m = moves[i];
        assert(moves@.subrange(0, i + 1).drop_last() =~= moves@.subrange(0, i as int));
        if m.0 == selected_pos {
            r.push(m.1);
        }
        i = i + 1;
    }
    assert(moves@.subrange(0, moves@.len() as int) =~= moves@);
    r
}

/// What a click on a square leads to.
#[derive(Clone, Copy, Debug, PartialEq, Eq, Structural)]
pub enum SelectionStep {
    /// The click is off the board: nothing changes.
    Ignore,
    /// Play the selected piece to the clicked square and clear the selection.
    Play(Position, Position),
    /// Select the clicked square.
    Select(Position),
}

/// The step a click on `clicked` takes, with `selected` the square selected
/// before and `moves` the legal moves of the position.
pub fn handle_square_selection(selected: Option<Position>, clicked: Position, moves: &[LegalMove]) -> (r: SelectionStep)
    ensures
        !clicked.on_board() ==> r == SelectionStep::Ignore,
        clicked.on_board() ==> r == (match selected {
            Some(from) => if targets_of(moves@, from).contains(clicked) {
                SelectionStep::Play(from, clicked)
            } else {
                SelectionStep::Select(clicked)
            },
            None => SelectionStep::Select(clicked),
        }),
{
    if !clicked.is_on_board() {
        return SelectionStep::Ignore;
    }
    match selected {
        Some(from) => {
            let targets = legal_targets(moves, from);
            let mut i: usize = 0;
            while i < targets.len()
                invariant
                    i <= targets@.len(),
                    targets@ == targets_of(moves@, from),
                    forall|k: int| 0 <= k < i ==> targets@[k] != clicked,
                    clicked.on_board(),
                    selected == Some(from),
                decreases targets@.len() - i,
            {
                if targets[i] == clicked {
                    assert(targets@[i as int] == clicked);
                    return SelectionStep::Play(from, clicked);
                }
                i = i + 1;
            }
            SelectionStep::Select(clicked)
        },
        None => SelectionStep::Select(clicked),
    }
}

/// Whether a square of the board is a dark one (A1 is dark).
pub fn is_dark_square(pos: Position) -> (r: bool)
    requires
        pos.on_board(),
    ensures
        r == ((pos.row + pos.col) % 2 == 0),
{
    (pos.row + pos.col) % 2 == 0
}

/// The sentence that announces how a game ended.
pub fn game_over_text(result: GameResult) -> (r: &'static str)
    ensures
        r@ == (match result {
            GameResult::Checkmate(Color::White) => "White wins by checkmate"@,
            GameResult::Checkmate(Color::Black) => "Black wins by checkmate"@,
            GameResult::Stalemate => "Stalemate"@,
        }),
{
    match result {
        GameResult::Checkmate(Color::White) => "White wins by checkmate",
        GameResult::Checkmate(Color::Black) => "Black wins by checkmate",
        GameResult::Stalemate => "Stalemate",
    }
}

} // verus!
