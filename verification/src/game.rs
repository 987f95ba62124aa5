//! The game itself: whose turn it is, where the marks stand, and when it ends.

use vstd::prelude::*;
use crate::ask::{is_letter, reads_letter, FromInput};
use crate::battlefield::{flipped, line_cells, Battlefield, Figure};
use crate::counting::{
    lemma_occurrences_everywhere, lemma_occurrences_matching, lemma_occurrences_nowhere,
    lemma_occurrences_update, occurrences,
};

verus! {

/// The mark that a player puts down.
#[derive(Debug, PartialEq, Eq, Clone, Copy, Structural)]
pub enum Mark {
    X,
    O,
}

impl Default for Mark {
    fn default() -> (mark: Mark)
        ensures
            mark == Mark::X,
    {
        Mark::X
    }
}

impl Mark {
    /// The mark of the other player.
    pub open spec fn spec_opposite(self) -> Mark {
        match self {
            Mark::X => Mark::O,
            Mark::O => Mark::X,
        }
    }

    /// The mark of the other player.
    #[verifier::when_used_as_spec(spec_opposite)]
    pub fn opposite(self) -> (mark: Mark)
        ensures
            mark == self.spec_opposite(),
    {
        match self {
            Mark::X => Mark::O,
            Mark::O => Mark::X,
        }
    }
}

impl FromInput for Mark {
    open spec fn parsed(text: Seq<char>) -> Option<Mark> {
        if is_letter(text, 'x', 'X') {
            Some(Mark::X)
        } else if is_letter(text, 'o', 'O') {
            Some(Mark::O)
        } else {
            None
        }
    }

    fn from_str(line: &str) -> (value: Result<Mark, ()>) {
        if reads_letter(line, 'x', 'X') {
            Ok(Mark::X)
        } else if reads_letter(line, 'o', 'O') {
            Ok(Mark::O)
        } else {
            Err(())
        }
    }
}

/// The three cells of line `n` of a board of marks; the lines are numbered as
/// in [`line_cells`].
pub open spec fn mark_line(cells: Seq<Option<Mark>>, n: int) -> Seq<Option<Mark>> {
    let (i, j, k) = line_cells(n);
    seq![cells[i], cells[j], cells[k]]
}

/// The mark that fills all three cells, if one does.
pub open spec fn line_owner(cells: Seq<Option<Mark>>) -> Option<Mark> {
    if cells[0] is Some && cells[1] == cells[0] && cells[2] == cells[0] {
        cells[0]
    } else {
        None
    }
}

/// The owner of the first completed line from line `from` on.
pub open spec fn first_complete_line(cells: Seq<Option<Mark>>, from: int) -> Option<Mark>
    decreases 8 - from,
{
    if from < 0 || from >= 8 {
        None
    } else {
        match line_owner(mark_line(cells, from)) {
            Some(mark) => Some(mark),
            None => first_complete_line(cells, from + 1),
        }
    }
}

/// The mark whose completed line is met first when the rows, then the columns,
/// then the diagonals are looked through.
pub open spec fn winner(cells: Seq<Option<Mark>>) -> Option<Mark> {
    first_complete_line(cells, 0)
}

/// The board with the marks as the players put them down.
pub struct Board(pub [Option<Mark>; 9]);

impl View for Board {
    type V = Seq<Option<Mark>>;

    open spec fn view(&self) -> Seq<Option<Mark>> {
        self.0@
    }
}

impl Default for Board {
    fn default() -> (board: Board)
        ensures
            forall|i: int| 0 <= i < 9 ==> board@[i] is None,
    {
        Board([None; 9])
    }
}

impl Board {
    /// The three rows, the three columns and the two diagonals, in this order.
    pub fn all_lines(&self) -> (lines: [[Option<Mark>; 3]; 8])
        ensures
            forall|n: int| 0 <= n < 8 ==> lines@[n]@ =~= mark_line(self@, n),
    {
        let c = self.0;
        [
            [c[0], c[1], c[2]],
            [c[3], c[4], c[5]],
            [c[6], c[7], c[8]],
            [c[0], c[3], c[6]],
            [c[1], c[4], c[7]],
            [c[2], c[5], c[8]],
            [c[0], c[4], c[8]],
            [c[2], c[4], c[6]],
        ]
    }
}

/// The mark that holds the whole line, if one does.
pub fn complete_line(line: &[Option<Mark>; 3]) -> (owner: Option<Mark>)
    ensures
        owner == line_owner(line@),
{
    match (line[0], line[1], line[2]) {
        (Some(Mark::X), Some(Mark::X), Some(Mark::X)) => Some(Mark::X),
        (Some(Mark::O), Some(Mark::O), Some(Mark::O)) => Some(Mark::O),
        _ => None,
    }
}

/// One of the two players, named by who began.
#[derive(Debug, PartialEq, Eq, Clone, Copy, Structural)]
pub enum Player {
    First,
    Second,
}

impl Player {
    /// The player who moves after this one.
    pub open spec fn spec_next(self) -> Player {
        match self {
            Player::First => Player::Second,
            Player::Second => Player::First,
        }
    }

    /// The player who moves after this one.
    #[verifier::when_used_as_spec(spec_next)]
    pub fn next(self) -> (player: Player)
        ensures
            player == self.spec_next(),
    {
        match self {
            Player::First => Player::Second,
            Player::Second => Player::First,
        }
    }
}

/// How a game ends.
#[derive(Debug, PartialEq, Eq, Clone, Copy, Structural)]
pub enum TurnResult {
    WinOf(Player),
    Draw,
}

/// A cell of the board of marks as the player with mark `mover` sees it.
pub open spec fn seen_by(cell: Option<Mark>, mover: Mark) -> Option<Figure> {
    match cell {
        Some(mark) => Some(
            if mark == mover {
                Figure::Own
            } else {
                Figure::Enemy
            },
        ),
        None => None,
    }
}

/// What a game is at any moment.
pub struct GameState {
    /// The marks on the board.
    pub board: Seq<Option<Mark>>,
    /// The board as the player to move sees it.
    pub field: Seq<Option<Figure>>,
    /// The player to move.
    pub current_player: Player,
    /// The mark of the player who began.
    pub first_player_mark: Mark,
}

impl GameState {
    /// A game before the first move.
    pub open spec fn start(first_player_mark: Mark) -> GameState {
        GameState {
            board: Seq::new(9, |i: int| None),
            field: Seq::new(9, |i: int| None),
            current_player: Player::First,
            first_player_mark,
        }
    }

    /// The mark of `player`.
    pub open spec fn mark_of(self, player: Player) -> Mark {
        match player {
            Player::First => self.first_player_mark,
            Player::Second => self.first_player_mark.opposite(),
        }
    }

    /// The mark that the next move puts down.
    pub open spec fn current_mark(self) -> Mark {
        self.mark_of(self.current_player)
    }

    /// The player who plays `mark`.
    pub open spec fn owner_of(self, mark: Mark) -> Player {
        if self.first_player_mark == mark {
            Player::First
        } else {
            Player::Second
        }
    }

    /// How many moves `player` has made.
    pub open spec fn moves_of(self, player: Player) -> nat {
        occurrences(self.board, Some(self.mark_of(player)))
    }

    /// How many cells are free.
    pub open spec fn free_cells(self) -> nat {
        occurrences(self.board, None)
    }

    /// What holds of every game, whatever has been played: the two boards
    /// show the same position, and the players have moved in turn.
    pub open spec fn wf(self) -> bool {
        &&& self.board.len() == 9
        &&& self.field.len() == 9
        &&& forall|i: int| 0 <= i < 9 ==> self.field[i] == seen_by(self.board[i], self.current_mark())
        &&& self.moves_of(Player::First) == self.moves_of(Player::Second) + match self.current_player {
            Player::First => 0nat,
            Player::Second => 1nat,
        }
    }

    /// Whether a move into cell `turn` is possible.
    pub open spec fn allows(self, turn: usize) -> bool {
        turn < 9 && self.board[turn as int] is None
    }

    /// The game after the player to move has moved into cell `turn`.
    pub open spec fn after_turn(self, turn: usize) -> GameState {
        GameState {
            board: self.board.update(turn as int, Some(self.current_mark())),
            field: flipped(self.field.update(turn as int, Some(Figure::Own))),
            current_player: self.current_player.next(),
            first_player_mark: self.first_player_mark,
        }
    }

    /// The game after the moves `turns`, made one after the other.
    pub open spec fn after_turns(self, turns: Seq<usize>) -> GameState
        decreases turns.len(),
    {
        if turns.len() == 0 {
            self
        } else {
            self.after_turns(turns.drop_last()).after_turn(turns.last())
        }
    }

    /// Whether each of the moves `turns`, made one after the other, goes into
    /// a cell that is free when it is made.
    pub open spec fn allows_all(self, turns: Seq<usize>) -> bool
        decreases turns.len(),
    {
        turns.len() == 0 || (self.allows_all(turns.drop_last()) && self.after_turns(
            turns.drop_last(),
        ).allows(turns.last()))
    }

    /// What a move reports that has led to this position: a draw when it
    /// filled the board, else the win of whoever owns the first completed
    /// line, else nothing.
    pub open spec fn outcome(self) -> Option<TurnResult> {
        if self.free_cells() == 0 {
            Some(TurnResult::Draw)
        } else {
            match winner(self.board) {
                Some(mark) => Some(TurnResult::WinOf(self.owner_of(mark))),
                None => None,
            }
        }
    }
}

/// A game of two players on nine cells.
pub struct Game {
    board: Board,
    board_repr: Battlefield,
    current_player: Player,
    first_player_mark: Mark,
    free_cells: usize,
}

impl View for Game {
    type V = GameState;

    closed spec fn view(&self) -> GameState {
        GameState {
            board: self.board@,
            field: self.board_repr@,
            current_player: self.current_player,
            first_player_mark: self.first_player_mark,
        }
    }
}

impl Game {
    /// What every game that was made by [`Game::new`] and played by
    /// [`Game::make_turn`] keeps.
    pub closed spec fn wf(&self) -> bool {
        &&& self@.wf()
        &&& self.free_cells == self@.free_cells()
    }

    /// A game that keeps its rules is, seen as a state, as every game is.
    pub proof fn lemma_wf_state(&self)
        requires
            self.wf(),
        ensures
            self@.wf(),
    {
    }

    /// The marks on the board.
    pub fn board(&self) -> (board: &Board)
        ensures
            board@ == self@.board,
    {
        &self.board
    }

    /// The board as the player to move sees it.
    pub fn board_repr(&self) -> (field: &Battlefield)
        ensures
            field@ == self@.field,
    {
        &self.board_repr
    }

    /// The player to move.
    pub fn current_player(&self) -> (player: Player)
        ensures
            player == self@.current_player,
    {
        self.current_player
    }

    /// A game before the first move, in which the player who begins plays
    /// `first_player_mark`.
    pub fn new(first_player_mark: Mark) -> (game: Game)
        ensures
            game.wf(),
            game@ == GameState::start(first_player_mark),
    {
        let game = Game {
            board: Board::default(),
            board_repr: Battlefield::default(),
            current_player: Player::First,
            first_player_mark,
            free_cells: 9,
        };
        proof {
            let start = GameState::start(first_player_mark);
            assert(game@.board =~= start.board);
            assert(game@.field =~= start.field);
            lemma_start_wf(first_player_mark);
        }
        game
    }

    /// The mark that the next move puts down.
    pub fn current_mark(&self) -> (mark: Mark)
        ensures
            mark == self@.current_mark(),
    {
        match self.current_player {
            Player::First => self.first_player_mark,
            Player::Second => self.first_player_mark.opposite(),
        }
    }

    /// The player who plays `mark`.
    pub fn owner_of(&self, mark: Mark) -> (player: Player)
        ensures
            player == self@.owner_of(mark),
    {
        if self.first_player_mark == mark {
            Player::First
        } else {
            Player::Second
        }
    }

    /// Make turn into specified location.
    /// If this turn completes the line, return the winner, otherwise return None.
    /// The cell must be on the board and free.
    pub fn make_turn(&mut self, turn: usize) -> (outcome: Option<TurnResult>)
        requires
            old(self).wf(),
            old(self)@.allows(turn),
        ensures
            final(self).wf(),
            final(self)@ == old(self)@.after_turn(turn),
            outcome == final(self)@.outcome(),
    {
        proof {
            lemma_after_turn_wf(self@, turn);
            lemma_occurrences_nowhere(self@.board, None);
            lemma_occurrences_update(self@.board, turn as int, Some(self@.current_mark()), None);
        }
        let mark = self.current_mark();
        self.board_repr.apply_move(turn);
        self.board.0[turn] = Some(mark);
        self.board_repr.flip_all();
        self.current_player = self.current_player.next();

        self.free_cells -= 1;
        assert(self@.board =~= old(self)@.after_turn(turn).board);
        assert(self@.field =~= old(self)@.after_turn(turn).field);
        if self.free_cells == 0 {
            return Some(TurnResult::Draw);
        }
        let lines = self.board.all_lines();
        let mut n: usize = 0;
        while n < 8
            invariant
                n <= 8,
                forall|m: int| 0 <= m < 8 ==> lines@[m]@ =~= mark_line(self.board@, m),
                winner(self.board@) == first_complete_line(self.board@, n as int),
                self.wf(),
                self@ == old(self)@.after_turn(turn),
                self@.free_cells() != 0,
            decreases 8 - n,
        {
            if let Some(mark) = complete_line(&lines[n]) {
                return Some(TurnResult::WinOf(self.owner_of(mark)));
            }
            n += 1;
        }
        None
    }
}

/// A game before the first move is as every game is.
pub proof fn lemma_start_wf(first_player_mark: Mark)
    ensures
        GameState::start(first_player_mark).wf(),
        GameState::start(first_player_mark).free_cells() == 9,
{
    let start = GameState::start(first_player_mark);
    lemma_occurrences_everywhere(start.board, None);
    lemma_occurrences_nowhere(start.board, Some(first_player_mark));
    lemma_occurrences_nowhere(start.board, Some(first_player_mark.opposite()));
}

/// A move into a free cell leaves the game as every game is, with one free
/// cell less.
pub proof fn lemma_after_turn_wf(state: GameState, turn: usize)
    requires
        state.wf(),
        state.allows(turn),
    ensures
        state.after_turn(turn).wf(),
        state.after_turn(turn).free_cells() + 1 == state.free_cells(),
{
    let after = state.after_turn(turn);
    let mark = state.current_mark();
    lemma_occurrences_update(state.board, turn as int, Some(mark), None);
    lemma_occurrences_update(state.board, turn as int, Some(mark), Some(mark));
    lemma_occurrences_update(state.board, turn as int, Some(mark), Some(mark.opposite()));
    assert forall|i: int| 0 <= i < 9 implies after.field[i] == seen_by(
        after.board[i],
        after.current_mark(),
    ) by {
        assert(state.field[i] == seen_by(state.board[i], mark));
    }
}

/// Whether line `n` of `cells` holds `mark` twice and is free in its third
/// cell, which is cell `gap` of the board.
pub open spec fn lacks_only(cells: Seq<Option<Mark>>, n: int, mark: Mark, gap: int) -> bool {
    let (i, j, k) = line_cells(n);
    ||| gap == i && cells[i] is None && cells[j] == Some(mark) && cells[k] == Some(mark)
    ||| gap == j && cells[j] is None && cells[i] == Some(mark) && cells[k] == Some(mark)
    ||| gap == k && cells[k] is None && cells[i] == Some(mark) && cells[j] == Some(mark)
}

/// The owner that the scan of the lines returns is the owner of the first
/// completed line, in their order; the scan returns nothing when no line is
/// complete.
pub proof fn lemma_first_complete_line(cells: Seq<Option<Mark>>, from: int)
    requires
        0 <= from <= 8,
    ensures
        match first_complete_line(cells, from) {
            Some(mark) => exists|n: int|
                from <= n < 8 && #[trigger] line_owner(mark_line(cells, n)) == Some(mark)
                    && forall|m: int|
                    from <= m < n ==> #[trigger] line_owner(mark_line(cells, m)) is None,
            None => forall|n: int|
                from <= n < 8 ==> #[trigger] line_owner(mark_line(cells, n)) is None,
        },
    decreases 8 - from,
{
    if from < 8 {
        lemma_first_complete_line(cells, from + 1);
        match line_owner(mark_line(cells, from)) {
            Some(mark) => {
                assert(line_owner(mark_line(cells, from)) == Some(mark));
            },
            None => {
                match first_complete_line(cells, from + 1) {
                    Some(mark) => {
                        let n = choose|n: int|
                            from + 1 <= n < 8 && #[trigger] line_owner(mark_line(cells, n))
                                == Some(mark) && forall|m: int|
                                from + 1 <= m < n ==> #[trigger] line_owner(
                                    mark_line(cells, m),
                                ) is None;
                        assert forall|m: int| from <= m < n implies #[trigger] line_owner(
                            mark_line(cells, m),
                        ) is None by {
                            if m > from {
                            }
                        }
                    },
                    None => {},
                }
            },
        }
    }
}

/// In every game the player to move sees as many figures of their own as
/// they have made moves, as many of the opponent's as the opponent has made
/// moves, and as many free cells as the board of marks has.
pub proof fn lemma_perspective_counts(state: GameState)
    requires
        state.wf(),
    ensures
        occurrences(state.field, Some(Figure::Own)) == state.moves_of(state.current_player),
        occurrences(state.field, Some(Figure::Enemy)) == state.moves_of(
            state.current_player.next(),
        ),
        occurrences(state.field, None) == state.free_cells(),
{
    let own = state.current_mark();
    lemma_occurrences_matching(state.field, Some(Figure::Own), state.board, Some(own));
    lemma_occurrences_matching(
        state.field,
        Some(Figure::Enemy),
        state.board,
        Some(own.opposite()),
    );
    lemma_occurrences_matching(state.field, None, state.board, None);
}

/// After any move the figures that the next player sees as their own are as
/// many as the moves that this player has made, and the two players' numbers
/// of moves differ as their turns do.
pub proof fn lemma_flip_follows_turns(state: GameState, turn: usize)
    requires
        state.wf(),
        state.allows(turn),
    ensures
        ({
            let after = state.after_turn(turn);
            &&& occurrences(after.field, Some(Figure::Own)) == after.moves_of(after.current_player)
            &&& after.moves_of(state.current_player) == state.moves_of(state.current_player) + 1
            &&& after.moves_of(after.current_player) == state.moves_of(after.current_player)
            &&& after.moves_of(Player::First) == after.moves_of(Player::Second)
                + match after.current_player {
                Player::First => 0nat,
                Player::Second => 1nat,
            }
        }),
{
    let mark = state.current_mark();
    lemma_after_turn_wf(state, turn);
    lemma_perspective_counts(state.after_turn(turn));
    lemma_occurrences_update(state.board, turn as int, Some(mark), Some(mark));
    lemma_occurrences_update(state.board, turn as int, Some(mark), Some(mark.opposite()));
}

/// Moves that each go into a free cell leave the game as every game is, and
/// each takes one free cell.
pub proof fn lemma_after_turns_wf(state: GameState, turns: Seq<usize>)
    requires
        state.wf(),
        state.allows_all(turns),
    ensures
        state.after_turns(turns).wf(),
        state.after_turns(turns).free_cells() + turns.len() == state.free_cells(),
    decreases turns.len(),
{
    if turns.len() > 0 {
        lemma_after_turns_wf(state, turns.drop_last());
        lemma_after_turn_wf(state.after_turns(turns.drop_last()), turns.last());
    }
}

/// Of moves that each go into a free cell, the first `k` do so too.
pub proof fn lemma_allows_all_prefix(state: GameState, turns: Seq<usize>, k: int)
    requires
        state.allows_all(turns),
        0 <= k <= turns.len(),
    ensures
        state.allows_all(turns.take(k)),
    decreases turns.len() - k,
{
    if k == turns.len() {
        assert(turns.take(k) =~= turns);
    } else {
        lemma_allows_all_prefix(state, turns, k + 1);
        assert(turns.take(k + 1).drop_last() =~= turns.take(k));
    }
}

/// A game in which the last move reported nothing has a free cell left.
pub proof fn lemma_unfinished_game_has_free_cell(state: GameState)
    requires
        state.wf(),
        state.outcome() is None,
    ensures
        exists|turn: usize| state.allows(turn),
{
    lemma_occurrences_nowhere(state.board, None);
    let cell = choose|i: int| 0 <= i < 9 && state.board[i] == None::<Mark>;
    assert(state.allows(cell as usize));
}

/// Nine moves fill the board: the ninth reports a draw, and none of the eight
/// before it reports anything unless it leaves a completed line.
pub proof fn lemma_nine_turns_end_in_draw(first_player_mark: Mark, turns: Seq<usize>)
    requires
        turns.len() == 9,
        GameState::start(first_player_mark).allows_all(turns),
    ensures
        GameState::start(first_player_mark).after_turns(turns).outcome() == Some(
            TurnResult::Draw,
        ),
        forall|k: int|
            1 <= k < 9 && winner(
                #[trigger] GameState::start(first_player_mark).after_turns(turns.take(k)).board,
            ) is None ==> GameState::start(first_player_mark).after_turns(
                turns.take(k),
            ).outcome() is None,
{
    let start = GameState::start(first_player_mark);
    lemma_start_wf(first_player_mark);
    lemma_after_turns_wf(start, turns);
    assert forall|k: int| 1 <= k < 9 implies #[trigger] start.after_turns(
        turns.take(k),
    ).free_cells() > 0 by {
        lemma_allows_all_prefix(start, turns, k);
        lemma_after_turns_wf(start, turns.take(k));
    }
}

/// A move into the one free cell of a line that holds the mover's mark twice
/// wins the game for the mover, unless it fills the last free cell of the
/// board, and unless the opponent already holds a completed line that is met
/// before any of the mover's when the lines are looked through.
pub proof fn lemma_completing_a_line_wins(state: GameState, line: int, turn: usize)
    requires
        state.wf(),
        state.allows(turn),
        0 <= line < 8,
        lacks_only(state.board, line, state.current_mark(), turn as int),
        state.free_cells() >= 2,
        forall|j: int|
            0 <= j < line && #[trigger] line_owner(mark_line(state.board, j)) == Some(
                state.current_mark().opposite(),
            ) ==> exists|k: int|
                0 <= k < j && #[trigger] line_owner(mark_line(state.after_turn(turn).board, k))
                    == Some(state.current_mark()),
    ensures
        state.after_turn(turn).outcome() == Some(TurnResult::WinOf(state.current_player)),
{
    let mark = state.current_mark();
    let after = state.after_turn(turn);
    lemma_after_turn_wf(state, turn);
    lemma_first_complete_line(after.board, 0);
    assert(line_owner(mark_line(after.board, line)) == Some(mark));
    let first = choose|n: int|
        0 <= n < 8 && #[trigger] line_owner(mark_line(after.board, n)) == winner(after.board)
            && forall|m: int| 0 <= m < n ==> #[trigger] line_owner(mark_line(after.board, m)) is None;
    if winner(after.board) != Some(mark) {
        assert(line_owner(mark_line(after.board, first)) == Some(mark.opposite()));
        assert(line_owner(mark_line(state.board, first)) == Some(mark.opposite()));
        assert(first < line);
        let k = choose|k: int|
            0 <= k < first && #[trigger] line_owner(mark_line(after.board, k)) == Some(mark);
        assert(false);
    }
}

} // verus!
