use tttxo::ask::FromInput;
use tttxo::battlefield::{Battlefield, Figure};
use tttxo::game::{complete_line, Board, Game, Mark, Player, TurnResult};

const X_: Option<Mark> = Some(Mark::X);
const O_: Option<Mark> = Some(Mark::O);
const NO: Option<Mark> = None;

fn own_figures(field: &Battlefield) -> usize {
    field.0.iter().filter(|cell| **cell == Some(Figure::Own)).count()
}

fn marks(board: &Board, mark: Mark) -> usize {
    board.0.iter().filter(|cell| **cell == Some(mark)).count()
}

#[test]
fn opposite_mark() {
    assert_eq!(Mark::X.opposite(), Mark::O);
    assert_eq!(Mark::O.opposite(), Mark::X);
}

#[test]
fn default_mark_is_x() {
    assert_eq!(Mark::default(), Mark::X);
}

#[test]
fn mark_from_str() {
    assert_eq!(Mark::from_str("x"), Ok(Mark::X));
    assert_eq!(Mark::from_str("X"), Ok(Mark::X));
    assert_eq!(Mark::from_str("o"), Ok(Mark::O));
    assert_eq!(Mark::from_str("O"), Ok(Mark::O));
    assert_eq!(Mark::from_str(""), Err(()));
    assert_eq!(Mark::from_str("0"), Err(()));
    assert_eq!(Mark::from_str("xx"), Err(()));
    assert_eq!(Mark::from_str(" x"), Err(()));
}

#[test]
fn next_player() {
    assert_eq!(Player::First.next(), Player::Second);
    assert_eq!(Player::Second.next(), Player::First);
}

#[test]
fn complete_line_wants_three_of_a_kind() {
    assert_eq!(complete_line(&[X_, X_, X_]), X_);
    assert_eq!(complete_line(&[O_, O_, O_]), O_);
    assert_eq!(complete_line(&[NO, NO, NO]), None);
    assert_eq!(complete_line(&[X_, X_, NO]), None);
    assert_eq!(complete_line(&[X_, O_, X_]), None);
    assert_eq!(complete_line(&[O_, O_, X_]), None);
    assert_eq!(complete_line(&[NO, O_, O_]), None);
}

#[test]
fn board_lines_are_rows_columns_diagonals() {
    let board = Board([X_, O_, NO, NO, X_, O_, O_, NO, X_]);
    assert_eq!(
        board.all_lines(),
        [
            [X_, O_, NO],
            [NO, X_, O_],
            [O_, NO, X_],
            [X_, NO, O_],
            [O_, X_, NO],
            [NO, O_, X_],
            [X_, X_, X_],
            [NO, X_, O_],
        ]
    );
}

#[test]
fn new_game_is_empty_and_first_moves() {
    let game = Game::new(Mark::O);
    assert_eq!(game.board().0, [NO; 9]);
    assert_eq!(game.board_repr().0, [None; 9]);
    assert_eq!(game.current_player(), Player::First);
    assert_eq!(game.current_mark(), Mark::O);
    assert_eq!(game.owner_of(Mark::O), Player::First);
    assert_eq!(game.owner_of(Mark::X), Player::Second);
}

#[test]
fn make_turn_marks_flips_and_passes_the_move() {
    let mut game = Game::new(Mark::X);
    assert_eq!(game.make_turn(4), None);
    assert_eq!(game.board().0, [NO, NO, NO, NO, X_, NO, NO, NO, NO]);
    let enemy = Some(Figure::Enemy);
    let own = Some(Figure::Own);
    assert_eq!(game.board_repr().0, [None, None, None, None, enemy, None, None, None, None]);
    assert_eq!(game.current_player(), Player::Second);
    assert_eq!(game.current_mark(), Mark::O);

    assert_eq!(game.make_turn(0), None);
    assert_eq!(game.board().0, [O_, NO, NO, NO, X_, NO, NO, NO, NO]);
    assert_eq!(game.board_repr().0, [enemy, None, None, None, own, None, None, None, None]);
    assert_eq!(game.current_player(), Player::First);
    assert_eq!(game.current_mark(), Mark::X);
}

#[test]
fn column_of_the_first_player_wins_on_the_fifth_move() {
    let mut game = Game::new(Mark::X);
    assert_eq!(game.make_turn(0), None);
    assert_eq!(game.make_turn(1), None);
    assert_eq!(game.make_turn(3), None);
    assert_eq!(game.make_turn(4), None);
    assert_eq!(game.make_turn(6), Some(TurnResult::WinOf(Player::First)));
}

#[test]
fn second_player_wins_with_their_own_mark() {
    let mut game = Game::new(Mark::O);
    assert_eq!(game.make_turn(0), None);
    assert_eq!(game.make_turn(2), None);
    assert_eq!(game.make_turn(1), None);
    assert_eq!(game.make_turn(4), None);
    assert_eq!(game.make_turn(8), None);
    assert_eq!(game.make_turn(6), Some(TurnResult::WinOf(Player::Second)));
    assert_eq!(game.owner_of(Mark::X), Player::Second);
}

#[test]
fn nine_moves_without_a_line_end_in_a_draw() {
    let mut game = Game::new(Mark::X);
    for turn in [0, 1, 2, 4, 3, 5, 7, 6] {
        assert_eq!(game.make_turn(turn), None);
    }
    assert_eq!(game.make_turn(8), Some(TurnResult::Draw));
}

#[test]
fn filling_the_gap_of_a_line_wins() {
    for (a, b, gap) in [(0, 1, 2), (3, 5, 4), (7, 8, 6), (0, 6, 3), (4, 8, 0), (2, 4, 6)] {
        let others: Vec<usize> = (0..9).filter(|i| *i != a && *i != b && *i != gap).collect();
        let mut game = Game::new(Mark::X);
        assert_eq!(game.make_turn(a), None);
        assert_eq!(game.make_turn(others[0]), None);
        assert_eq!(game.make_turn(b), None);
        assert_eq!(game.make_turn(others[1]), None);
        assert_eq!(game.make_turn(gap), Some(TurnResult::WinOf(Player::First)));
    }
}

#[test]
fn middle_row_wins() {
    let mut game = Game::new(Mark::X);
    assert_eq!(game.make_turn(3), None);
    assert_eq!(game.make_turn(0), None);
    assert_eq!(game.make_turn(4), None);
    assert_eq!(game.make_turn(1), None);
    assert_eq!(game.make_turn(5), Some(TurnResult::WinOf(Player::First)));
}

#[test]
fn three_marks_off_a_line_do_not_win() {
    let mut game = Game::new(Mark::X);
    assert_eq!(game.make_turn(0), None);
    assert_eq!(game.make_turn(1), None);
    assert_eq!(game.make_turn(4), None);
    assert_eq!(game.make_turn(2), None);
    assert_eq!(game.make_turn(5), None);
}

#[test]
fn a_line_completed_with_the_last_cell_is_a_draw() {
    let mut game = Game::new(Mark::X);
    for turn in [0, 3, 1, 4, 5, 7, 6, 8] {
        assert_eq!(game.make_turn(turn), None);
    }
    assert_eq!(game.make_turn(2), Some(TurnResult::Draw));
    assert_eq!(complete_line(&game.board().all_lines()[0]), X_);
}

#[test]
fn own_figures_are_the_moves_of_the_player_to_move() {
    let mut game = Game::new(Mark::O);
    let mut moves = [0usize, 0usize];
    let mut mover = 0;
    for turn in [4, 0, 8, 2, 1, 7, 3, 5, 6] {
        game.make_turn(turn);
        moves[mover] += 1;
        mover = 1 - mover;
        assert_eq!(own_figures(game.board_repr()), moves[mover]);
        assert_eq!(own_figures(game.board_repr()), marks(game.board(), game.current_mark()));
        let free = game.board().0.iter().filter(|cell| cell.is_none()).count();
        assert_eq!(game.board_repr().0.iter().filter(|cell| cell.is_none()).count(), free);
        assert_eq!(free, 9 - moves[0] - moves[1]);
    }
}
