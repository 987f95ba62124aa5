//! The computer player: rules that may suggest a move, and strategies that
//! always make one.

use rand::rngs::ThreadRng;
use rand::seq::SliceRandom;
use vstd::prelude::*;
use vstd::seq_lib::lemma_seq_contains_after_push;
use crate::battlefield::{
    has_free_cell, is_free, is_untouched, line, Battlefield, Figure, IndexedLine,
};
use crate::counting::occurrences;

verus! {

/// Whether `cells` holds a figure of `who` everywhere but in cell `gap`, which
/// is free.
pub open spec fn is_gap(cells: Seq<Option<Figure>>, who: Figure, gap: int) -> bool {
    &&& 0 <= gap < 3
    &&& cells[gap] is None
    &&& forall|k: int| 0 <= k < 3 && k != gap ==> cells[k] == Some(who)
}

/// The board cell that would complete `line` for `who`, if one cell is all
/// that is missing.
pub open spec fn closing_move(line: IndexedLine, who: Figure) -> Option<usize> {
    if is_gap(line.1@, who, 0) {
        Some(line.0@[0])
    } else if is_gap(line.1@, who, 1) {
        Some(line.0@[1])
    } else if is_gap(line.1@, who, 2) {
        Some(line.0@[2])
    } else {
        None
    }
}

/// A line has a closing move for `who` exactly when it holds two figures of
/// `who` and one free cell, in whatever order; the move is then the board
/// index of that one free cell.
pub proof fn lemma_closing_move_fills_the_gap(line: IndexedLine, who: Figure)
    ensures
        closing_move(line, who) is Some <==> occurrences(line.1@, Some(who)) == 2 && occurrences(
            line.1@,
            None,
        ) == 1,
        closing_move(line, who) matches Some(index) ==> forall|k: int|
            0 <= k < 3 && line.1@[k] is None ==> line.0@[k] == index,
{
    let cells = line.1@;
    reveal_with_fuel(occurrences, 4);
    assert(cells.drop_last().len() == 2);
    assert(cells.drop_last().drop_last().len() == 1);
    assert(cells.drop_last().drop_last().drop_last().len() == 0);
    assert(cells.drop_last().last() == cells[1]);
    assert(cells.drop_last().drop_last().last() == cells[0]);
}

fn closing_cell(line: IndexedLine, who: Figure) -> (hint: Option<usize>)
    ensures
        hint == closing_move(line, who),
{
    let (index, cells) = line;
    match (cells[0], cells[1], cells[2]) {
        (None, Some(b), Some(c)) if b == who && c == who => Some(index[0]),
        (Some(a), None, Some(c)) if a == who && c == who => Some(index[1]),
        (Some(a), Some(b), None) if a == who && b == who => Some(index[2]),
        _ => None,
    }
}

/// The cell that completes a line of the player to move.
pub fn close_own_line(line: IndexedLine) -> (hint: Option<usize>)
    ensures
        hint == closing_move(line, Figure::Own),
{
    closing_cell(line, Figure::Own)
}

/// The cell that keeps the opponent from completing a line.
pub fn close_enemy_line(line: IndexedLine) -> (hint: Option<usize>)
    ensures
        hint == closing_move(line, Figure::Enemy),
{
    closing_cell(line, Figure::Enemy)
}

/// The closing move for `who` on the first line, from line `from` on, that
/// has one.
pub open spec fn first_closing_move(
    field: Seq<Option<Figure>>,
    who: Figure,
    from: int,
) -> Option<usize>
    decreases 8 - from,
{
    if from < 0 || from >= 8 {
        None
    } else {
        match closing_move(line(field, from), who) {
            Some(index) => Some(index),
            None => first_closing_move(field, who, from + 1),
        }
    }
}

/// A rule that looks at the board and may suggest a move. What it suggests
/// depends on the board alone, and the cell it names is free.
pub trait Heuristic: Sized {
    /// The move that the rule suggests on `field`, if any.
    spec fn advice(&self, field: Seq<Option<Figure>>) -> Option<usize>;

    /// Check the battlefield for presence of possibilities of good turn
    /// and return the index corresponding to this turn if there is one.
    /// The cell with returned index (if it is present) should be empty
    fn hint(&mut self, field: &Battlefield) -> (hint: Option<usize>)
        ensures
            hint == old(self).advice(field@),
            hint matches Some(index) ==> is_free(field@, index as int),
            *final(self) == *old(self),
    ;
}

/// Ways to put rules together. Every heuristic has them.
pub trait Chain: Heuristic {
    /// Chain two heuristics. Apply first heuristic
    /// and, if it fails, apply second heuristic
    fn or<H: Heuristic>(self, second: H) -> (chain: Or<Self, H>)
        ensures
            chain.first == self,
            chain.second == second,
    {
        Or { first: self, second }
    }

    /// Chain heuristic with a strategy.
    /// If heuristic fails to supply a hint, use guidance of strategy instead
    fn otherwise<S: Strategy>(self, strategy: S) -> (chain: Otherwise<Self, S>)
        ensures
            chain.heuristic == self,
            chain.strategy == strategy,
    {
        Otherwise { heuristic: self, strategy }
    }
}

impl<T: Heuristic> Chain for T {
}

/// Suggests the move that wins at once.
pub struct CloseOwnLine;

impl Heuristic for CloseOwnLine {
    open spec fn advice(&self, field: Seq<Option<Figure>>) -> Option<usize> {
        first_closing_move(field, Figure::Own, 0)
    }

    fn hint(&mut self, field: &Battlefield) -> (hint: Option<usize>) {
        let lines = field.all_lines();
        let mut n: usize = 0;
        while n < 8
            invariant
                n <= 8,
                forall|m: int| 0 <= m < 8 ==> lines@[m] == line(field@, m),
                first_closing_move(field@, Figure::Own, 0) == first_closing_move(
                    field@,
                    Figure::Own,
                    n as int,
                ),
            decreases 8 - n,
        {
            if let Some(index) = close_own_line(lines[n]) {
                return Some(index);
            }
            n += 1;
        }
        None
    }
}

/// Suggests the move that keeps the opponent from winning at once.
pub struct CloseEnemyLine;

impl Heuristic for CloseEnemyLine {
    open spec fn advice(&self, field: Seq<Option<Figure>>) -> Option<usize> {
        first_closing_move(field, Figure::Enemy, 0)
    }

    fn hint(&mut self, field: &Battlefield) -> (hint: Option<usize>) {
        let lines = field.all_lines();
        let mut n: usize = 0;
        while n < 8
            invariant
                n <= 8,
                forall|m: int| 0 <= m < 8 ==> lines@[m] == line(field@, m),
                first_closing_move(field@, Figure::Enemy, 0) == first_closing_move(
                    field@,
                    Figure::Enemy,
                    n as int,
                ),
            decreases 8 - n,
        {
            if let Some(index) = close_enemy_line(lines[n]) {
                return Some(index);
            }
            n += 1;
        }
        None
    }
}

/// Suggests the centre as the opening move.
pub struct TakeCenterOnEmptyBoard;

impl Heuristic for TakeCenterOnEmptyBoard {
    open spec fn advice(&self, field: Seq<Option<Figure>>) -> Option<usize> {
        if is_untouched(field) {
            Some(4)
        } else {
            None
        }
    }

    fn hint(&mut self, field: &Battlefield) -> (hint: Option<usize>) {
        let mut i: usize = 0;
        while i < 9
            invariant
                i <= 9,
                forall|j: int| 0 <= j < i ==> field@[j] is None,
            decreases 9 - i,
        {
            if field.0[i].is_some() {
                return None;
            }
            i += 1;
        }
        Some(4)
    }
}

/// Two rules in order of preference.
pub struct Or<H1, H2> {
    pub first: H1,
    pub second: H2,
}

impl<H1, H2> Heuristic for Or<H1, H2> where H1: Heuristic, H2: Heuristic {
    open spec fn advice(&self, field: Seq<Option<Figure>>) -> Option<usize> {
        match self.first.advice(field) {
            Some(index) => Some(index),
            None => self.second.advice(field),
        }
    }

    fn hint(&mut self, field: &Battlefield) -> (hint: Option<usize>) {
        match self.first.hint(field) {
            Some(index) => Some(index),
            None => self.second.hint(field),
        }
    }
}

/// A rule that always makes a move, as long as a cell is free.
pub trait Strategy {
    /// What holds of the strategy between two moves.
    spec fn inv(&self) -> bool;

    /// Whether `turn` is a move that the strategy may make on `field`.
    spec fn may_guide(&self, field: Seq<Option<Figure>>, turn: usize) -> bool;

    /// Inspect the battlefield and return the index corresponding to turn.
    /// The cell with returned index (if it is present) should be empty
    fn guide(&mut self, field: &Battlefield) -> (turn: usize)
        requires
            old(self).inv(),
            has_free_cell(field@),
        ensures
            final(self).inv(),
            old(self).may_guide(field@, turn),
            is_free(field@, turn as int),
    ;
}

/// A rule with a strategy to fall back on.
pub struct Otherwise<H, S> {
    pub heuristic: H,
    pub strategy: S,
}

impl<H: Heuristic, S: Strategy> Strategy for Otherwise<H, S> {
    open spec fn inv(&self) -> bool {
        self.strategy.inv()
    }

    open spec fn may_guide(&self, field: Seq<Option<Figure>>, turn: usize) -> bool {
        match self.heuristic.advice(field) {
            Some(index) => turn == index,
            None => self.strategy.may_guide(field, turn),
        }
    }

    fn guide(&mut self, field: &Battlefield) -> (turn: usize) {
        match self.heuristic.hint(field) {
            Some(index) => index,
            None => self.strategy.guide(field),
        }
    }
}

/// `rand::rngs::ThreadRng`, the handle to a thread's random number generator.
/// It is carried along and handed to `rand`; nothing is known of its inside.
#[verifier::external_type_specification]
#[verifier::external_body]
pub struct ExThreadRng(rand::rngs::ThreadRng);

/// `rand::thread_rng` hands out the calling thread's generator, which is
/// seeded from the operating system when the thread first asks for it.
/// Nothing is claimed of the generator.
pub assume_specification[ rand::thread_rng ]() -> (rng: ThreadRng)
;

/// `rand::seq::SliceRandom::choose` on the slice of `places`, with the chosen
/// element copied out. The claim is what the method's source shows whatever the
/// generator yields: no choice from an empty slice, and otherwise one of the
/// slice's elements.
#[verifier::external_body]
fn choose_place(places: &Vec<usize>, rng: &mut ThreadRng) -> (choice: Option<usize>)
    ensures
        choice is None <==> places@.len() == 0,
        choice matches Some(place) ==> places@.contains(place),
{
    places.choose(rng).copied()
}

/// Moves into a free cell picked at random.
pub struct RandomFree {
    rng: ThreadRng,
    places: Vec<usize>,
}

impl RandomFree {
    /// A strategy that draws from the calling thread's generator.
    pub fn new() -> (strategy: Self)
        ensures
            strategy.inv(),
    {
        Self { rng: rand::thread_rng(), places: Vec::with_capacity(9) }
    }
}

impl Strategy for RandomFree {
    /// Between two moves the list of candidate cells is empty.
    closed spec fn inv(&self) -> bool {
        self.places@.len() == 0
    }

    open spec fn may_guide(&self, field: Seq<Option<Figure>>, turn: usize) -> bool {
        is_free(field, turn as int)
    }

    fn guide(&mut self, field: &Battlefield) -> (turn: usize) {
        let mut i: usize = 0;
        while i < 9
            invariant
                i <= 9,
                forall|place: usize|
                    #[trigger] self.places@.contains(place) <==> place < i && is_free(
                        field@,
                        place as int,
                    ),
            decreases 9 - i,
        {
            let free = field.0[i].is_none();
            assert(free == is_free(field@, i as int));
            if free {
                let ghost before = self.places@;
                self.places.push(i);
                proof {
                    assert forall|place: usize|
                        #[trigger] self.places@.contains(place) <==> place < i + 1 && is_free(
                            field@,
                            place as int,
                        ) by {
                        lemma_seq_contains_after_push(before, i, place);
                    }
                }
            }
            i += 1;
        }
        proof {
            let free = choose|cell: int| is_free(field@, cell);
            assert(self.places@.contains(free as usize));
        }
        let turn = choose_place(&self.places, &mut self.rng).expect("no free cells on battlefield");
        self.places.clear();
        turn
    }
}

/// The computer player's way of choosing a move.
pub type DefaultStrategy = Otherwise<
    Or<Or<CloseOwnLine, CloseEnemyLine>, TakeCenterOnEmptyBoard>,
    RandomFree,
>;

/// Whether the computer player may answer `field` with `turn`: it completes a
/// line of its own if it can, else it closes a line that the opponent is about
/// to complete, else it opens in the centre, else it moves into any free cell.
pub open spec fn default_policy(field: Seq<Option<Figure>>, turn: usize) -> bool {
    match first_closing_move(field, Figure::Own, 0) {
        Some(index) => turn == index,
        None => match first_closing_move(field, Figure::Enemy, 0) {
            Some(index) => turn == index,
            None => if is_untouched(field) {
                turn == 4
            } else {
                is_free(field, turn as int)
            },
        },
    }
}

/// The computer player: win if a move wins, else keep the opponent from
/// winning, else open in the centre, else move at random.
pub fn make_default_strategy() -> (strategy: DefaultStrategy)
    ensures
        strategy.inv(),
        forall|field: Seq<Option<Figure>>, turn: usize|
            #[trigger] strategy.may_guide(field, turn) <==> default_policy(field, turn),
{
    CloseOwnLine.or(CloseEnemyLine).or(TakeCenterOnEmptyBoard).otherwise(RandomFree::new())
}

/// The closing move that the scan of the lines returns belongs to the first
/// line, in their order, that has one; the scan returns nothing when no line
/// has one.
pub proof fn lemma_first_closing_move(field: Seq<Option<Figure>>, who: Figure, from: int)
    requires
        0 <= from <= 8,
    ensures
        match first_closing_move(field, who, from) {
            Some(index) => exists|n: int|
                from <= n < 8 && #[trigger] closing_move(line(field, n), who) == Some(index)
                    && forall|m: int|
                    from <= m < n ==> #[trigger] closing_move(line(field, m), who) is None,
            None => forall|n: int|
                from <= n < 8 ==> #[trigger] closing_move(line(field, n), who) is None,
        },
    decreases 8 - from,
{
    if from < 8 {
        lemma_first_closing_move(field, who, from + 1);
        match closing_move(line(field, from), who) {
            Some(index) => {
                assert(closing_move(line(field, from), who) == Some(index));
            },
            None => {
                match first_closing_move(field, who, from + 1) {
                    Some(index) => {
                        let n = choose|n: int|
                            from + 1 <= n < 8 && #[trigger] closing_move(line(field, n), who)
                                == Some(index) && forall|m: int|
                                from + 1 <= m < n ==> #[trigger] closing_move(
                                    line(field, m),
                                    who,
                                ) is None;
                        assert forall|m: int| from <= m < n implies #[trigger] closing_move(
                            line(field, m),
                            who,
                        ) is None by {
                            if m > from {
                            }
                        }
                    },
                    None => {},
                }
            },
        }
    }
}

/// A closing move goes into a free cell of the board.
pub proof fn lemma_closing_move_is_free(field: Seq<Option<Figure>>, who: Figure, n: int)
    requires
        0 <= n < 8,
    ensures
        closing_move(line(field, n), who) matches Some(index) ==> is_free(field, index as int),
{
}

/// A chain of two rules follows the first rule whenever that one suggests a
/// move, whatever the second would say, and follows the second only when the
/// first suggests nothing.
pub proof fn lemma_or_prefers_first<H1: Heuristic, H2: Heuristic>(
    chain: Or<H1, H2>,
    field: Seq<Option<Figure>>,
)
    ensures
        chain.first.advice(field) is Some ==> chain.advice(field) == chain.first.advice(field),
        chain.first.advice(field) is None ==> chain.advice(field) == chain.second.advice(field),
{
}

/// A rule with a strategy behind it makes the rule's move whenever the rule
/// suggests one, and otherwise any move that the strategy may make.
pub proof fn lemma_otherwise_prefers_heuristic<H: Heuristic, S: Strategy>(
    chain: Otherwise<H, S>,
    field: Seq<Option<Figure>>,
    turn: usize,
)
    ensures
        chain.heuristic.advice(field) matches Some(index) ==> (chain.may_guide(field, turn) <==> turn
            == index),
        chain.heuristic.advice(field) is None ==> (chain.may_guide(field, turn)
            <==> chain.strategy.may_guide(field, turn)),
{
}

/// Whatever state the computer player is in, the moves it may make are those
/// of [`default_policy`].
pub proof fn lemma_default_strategy_follows_policy(
    strategy: DefaultStrategy,
    field: Seq<Option<Figure>>,
    turn: usize,
)
    ensures
        strategy.may_guide(field, turn) <==> default_policy(field, turn),
{
}

/// The computer player never moves into an occupied cell.
pub proof fn lemma_default_policy_moves_into_free_cell(field: Seq<Option<Figure>>, turn: usize)
    requires
        default_policy(field, turn),
    ensures
        is_free(field, turn as int),
{
    lemma_first_closing_move(field, Figure::Own, 0);
    lemma_first_closing_move(field, Figure::Enemy, 0);
    assert forall|n: int, who: Figure| 0 <= n < 8 && #[trigger] closing_move(line(field, n), who)
        == Some(turn) implies is_free(field, turn as int) by {
        lemma_closing_move_is_free(field, who, n);
    }
}

/// On a board without a figure the computer player moves into the centre.
pub proof fn lemma_default_policy_opens_in_centre(field: Seq<Option<Figure>>, turn: usize)
    requires
        is_untouched(field),
    ensures
        default_policy(field, turn) <==> turn == 4,
{
    lemma_first_closing_move(field, Figure::Own, 0);
    lemma_first_closing_move(field, Figure::Enemy, 0);
    assert forall|n: int, who: Figure| 0 <= n < 8 implies #[trigger] closing_move(
        line(field, n),
        who,
    ) is None by {
        let cells = line(field, n).1@;
        assert(cells[0] is None && cells[1] is None && cells[2] is None);
    }
}

} // verus!
