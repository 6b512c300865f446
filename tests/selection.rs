use chess_link::board::{Color, GameResult, PieceType, Position};
use chess_link::selection::{
    game_over_text, handle_square_selection, is_dark_square, legal_targets, SelectionStep,
};

fn p(row: i8, col: i8) -> Position {
    Position::new(row, col)
}

fn moves() -> Vec<(Position, Position, Option<PieceType>)> {
    vec![
        (p(1, 4), p(2, 4), None),
        (p(0, 6), p(2, 5), None),
        (p(1, 4), p(3, 4), None),
        (p(6, 0), p(7, 0), Some(PieceType::Queen)),
    ]
}

#[test]
fn targets_of_one_square_in_order() {
    assert_eq!(legal_targets(&moves(), p(1, 4)), vec![p(2, 4), p(3, 4)]);
    assert_eq!(legal_targets(&moves(), p(0, 6)), vec![p(2, 5)]);
    assert!(legal_targets(&moves(), p(4, 4)).is_empty());
    assert!(legal_targets(&[], p(1, 4)).is_empty());
}

#[test]
fn clicks_select_and_play() {
    let m = moves();
    assert_eq!(handle_square_selection(None, p(8, 0), &m), SelectionStep::Ignore);
    assert_eq!(handle_square_selection(Some(p(1, 4)), p(-1, 3), &m), SelectionStep::Ignore);
    assert_eq!(handle_square_selection(None, p(1, 4), &m), SelectionStep::Select(p(1, 4)));
    assert_eq!(
        handle_square_selection(Some(p(1, 4)), p(3, 4), &m),
        SelectionStep::Play(p(1, 4), p(3, 4))
    );
    assert_eq!(
        handle_square_selection(Some(p(1, 4)), p(4, 4), &m),
        SelectionStep::Select(p(4, 4))
    );
}

#[test]
fn square_shades() {
    assert!(is_dark_square(p(0, 0)));
    assert!(!is_dark_square(p(0, 1)));
    assert!(is_dark_square(p(7, 7)));
    assert!(!is_dark_square(p(3, 4)));
}

#[test]
fn outcome_sentences() {
    assert_eq!(game_over_text(GameResult::Checkmate(Color::White)), "White wins by checkmate");
    assert_eq!(game_over_text(GameResult::Checkmate(Color::Black)), "Black wins by checkmate");
    assert_eq!(game_over_text(GameResult::Stalemate), "Stalemate");
}
