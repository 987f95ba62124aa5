use tttxo::battlefield::{Battlefield, Figure};
use tttxo::strategy::{
    close_enemy_line, close_own_line, make_default_strategy, Chain, CloseEnemyLine, CloseOwnLine,
    Heuristic, RandomFree, Strategy, TakeCenterOnEmptyBoard,
};

#[allow(non_upper_case_globals)]
const __: Option<Figure> = None;
const O_: Option<Figure> = Some(Figure::Own);
const E_: Option<Figure> = Some(Figure::Enemy);

#[test]
fn test_closing_lines() {
    assert_eq!(close_own_line(([0, 1, 2], [O_, __, O_])), Some(1));
    assert_eq!(close_own_line(([0, 4, 8], [__, O_, O_])), Some(0));
    assert_eq!(close_own_line(([2, 5, 8], [O_, E_, __])), None);

    assert_eq!(close_enemy_line(([2, 4, 6], [E_, E_, __])), Some(6));
    assert_eq!(close_enemy_line(([1, 4, 7], [__, E_, E_])), Some(1));
    assert_eq!(close_enemy_line(([2, 4, 6], [E_, __, O_])), None);
}

fn count(cells: &[Option<Figure>; 3], what: Option<Figure>) -> usize {
    cells.iter().filter(|cell| **cell == what).count()
}

#[test]
fn closing_move_is_the_gap_of_every_two_and_one_line() {
    let kinds = [__, O_, E_];
    let lines = Battlefield::default().all_lines();
    for (index, _) in lines {
        for a in kinds {
            for b in kinds {
                for c in kinds {
                    let cells = [a, b, c];
                    let own = close_own_line((index, cells));
                    let enemy = close_enemy_line((index, cells));
                    let gap = cells.iter().position(|cell| cell.is_none());
                    if count(&cells, O_) == 2 && count(&cells, __) == 1 {
                        assert_eq!(own, Some(index[gap.unwrap()]));
                    } else {
                        assert_eq!(own, None);
                    }
                    if count(&cells, E_) == 2 && count(&cells, __) == 1 {
                        assert_eq!(enemy, Some(index[gap.unwrap()]));
                    } else {
                        assert_eq!(enemy, None);
                    }
                }
            }
        }
    }
}

#[test]
fn full_and_empty_lines_have_no_closing_move() {
    assert_eq!(close_own_line(([0, 1, 2], [O_, O_, O_])), None);
    assert_eq!(close_own_line(([0, 1, 2], [__, __, __])), None);
    assert_eq!(close_own_line(([0, 1, 2], [O_, __, __])), None);
    assert_eq!(close_enemy_line(([0, 1, 2], [E_, E_, E_])), None);
    assert_eq!(close_enemy_line(([0, 1, 2], [E_, E_, O_])), None);
    assert_eq!(close_own_line(([0, 1, 2], [E_, E_, __])), None);
    assert_eq!(close_enemy_line(([0, 1, 2], [O_, O_, __])), None);
}

#[test]
fn close_own_line_takes_the_first_line_in_order() {
    // column 0 and the diagonal 2-4-6 can both be closed; the column comes first
    let field = Battlefield([
        O_, E_, O_,
        O_, O_, E_,
        __, __, E_,
    ]);
    assert_eq!(CloseOwnLine.hint(&field), Some(6));
    // row 2 comes before column 1
    let field = Battlefield([
        E_, O_, E_,
        __, O_, __,
        O_, __, O_,
    ]);
    assert_eq!(CloseOwnLine.hint(&field), Some(7));
    let field = Battlefield([
        E_, __, __,
        __, O_, __,
        __, __, __,
    ]);
    assert_eq!(CloseOwnLine.hint(&field), None);
}

#[test]
fn close_enemy_line_blocks_the_first_line_in_order() {
    let field = Battlefield([
        E_, __, __,
        O_, E_, __,
        __, __, __,
    ]);
    assert_eq!(CloseEnemyLine.hint(&field), Some(8));
    let field = Battlefield([
        __, E_, E_,
        __, __, E_,
        __, __, __,
    ]);
    assert_eq!(CloseEnemyLine.hint(&field), Some(0));
    assert_eq!(CloseEnemyLine.hint(&Battlefield::default()), None);
}

#[test]
fn centre_is_taken_only_on_an_empty_board() {
    assert_eq!(TakeCenterOnEmptyBoard.hint(&Battlefield::default()), Some(4));
    let mut field = Battlefield::default();
    field.0[8] = E_;
    assert_eq!(TakeCenterOnEmptyBoard.hint(&field), None);
    let mut field = Battlefield::default();
    field.0[0] = O_;
    assert_eq!(TakeCenterOnEmptyBoard.hint(&field), None);
}

#[test]
fn or_follows_the_first_rule_that_speaks() {
    // both rules speak: the first is heard
    let both = Battlefield([
        O_, O_, __,
        E_, E_, __,
        __, __, __,
    ]);
    assert_eq!(CloseOwnLine.hint(&both), Some(2));
    assert_eq!(CloseEnemyLine.hint(&both), Some(5));
    assert_eq!(CloseOwnLine.or(CloseEnemyLine).hint(&both), Some(2));
    assert_eq!(CloseEnemyLine.or(CloseOwnLine).hint(&both), Some(5));
    // only the second speaks
    let second = Battlefield([
        O_, __, __,
        E_, E_, __,
        __, __, __,
    ]);
    assert_eq!(CloseOwnLine.or(CloseEnemyLine).hint(&second), Some(5));
    // only the first speaks
    assert_eq!(CloseEnemyLine.or(CloseOwnLine).hint(&second), Some(5));
    // neither speaks
    let neither = Battlefield([
        O_, __, __,
        E_, __, __,
        __, __, __,
    ]);
    assert_eq!(CloseOwnLine.or(CloseEnemyLine).hint(&neither), None);
    assert_eq!(
        CloseOwnLine.or(CloseEnemyLine).or(TakeCenterOnEmptyBoard).hint(&Battlefield::default()),
        Some(4)
    );
}

#[test]
fn otherwise_asks_the_strategy_only_when_the_rule_is_silent() {
    let field = Battlefield([
        E_, E_, __,
        O_, O_, E_,
        E_, O_, O_,
    ]);
    let mut chain = CloseEnemyLine.otherwise(RandomFree::new());
    assert_eq!(chain.guide(&field), 2);
    let field = Battlefield([
        E_, O_, __,
        O_, O_, E_,
        E_, E_, O_,
    ]);
    let mut chain = TakeCenterOnEmptyBoard.otherwise(RandomFree::new());
    assert_eq!(chain.guide(&field), 2);
}

#[test]
fn random_free_picks_a_free_cell() {
    let field = Battlefield([
        E_, __, O_,
        O_, E_, __,
        __, O_, E_,
    ]);
    let mut strategy = RandomFree::new();
    let mut seen = [false; 9];
    for _ in 0..400 {
        let turn = strategy.guide(&field);
        assert!(turn == 1 || turn == 5 || turn == 6);
        seen[turn] = true;
    }
    assert!(seen[1] && seen[5] && seen[6]);
}

#[test]
fn random_free_takes_the_last_free_cell() {
    let mut cells = [O_; 9];
    cells[3] = None;
    let field = Battlefield(cells);
    let mut strategy = RandomFree::new();
    for _ in 0..20 {
        assert_eq!(strategy.guide(&field), 3);
    }
}

#[test]
fn default_strategy_opens_in_the_centre() {
    let mut strategy = make_default_strategy();
    for _ in 0..50 {
        assert_eq!(strategy.guide(&Battlefield::default()), 4);
    }
}

#[test]
fn default_strategy_wins_before_it_blocks() {
    let field = Battlefield([
        O_, O_, __,
        E_, E_, __,
        __, __, __,
    ]);
    let mut strategy = make_default_strategy();
    assert_eq!(strategy.guide(&field), 2);
}

#[test]
fn default_strategy_blocks_before_it_plays_at_random() {
    let field = Battlefield([
        O_, __, __,
        E_, E_, __,
        __, __, __,
    ]);
    let mut strategy = make_default_strategy();
    for _ in 0..20 {
        assert_eq!(strategy.guide(&field), 5);
    }
}

#[test]
fn default_strategy_never_moves_into_an_occupied_cell() {
    let fields = [
        Battlefield([E_, __, __, __, __, __, __, __, __]),
        Battlefield([E_, __, __, __, O_, __, __, __, E_]),
        Battlefield([E_, O_, E_, __, O_, __, __, E_, __]),
        Battlefield([E_, O_, E_, E_, O_, O_, O_, E_, __]),
        Battlefield([__, __, __, __, E_, __, __, __, __]),
    ];
    let mut strategy = make_default_strategy();
    for field in fields.iter() {
        for _ in 0..100 {
            let turn = strategy.guide(field);
            assert!(turn < 9);
            assert_eq!(field.0[turn], None);
        }
    }
}
