//! One round of the game between a person at the keyboard and the computer.

use vstd::prelude::*;
use crate::ask::{
    ask_value_or_default, is_letter, read_value_validated, reading_or_default, reads_letter, trim,
    trimmed, Answer, FromInput,
};
use crate::battlefield::{has_free_cell, is_free};
use crate::game::{Board, Game, GameState, Mark, Player, TurnResult};
use crate::strategy::{default_policy, make_default_strategy, DefaultStrategy, Strategy};

verus! {

/// The keys of a numeric keypad in the order of the cells of the board.
pub const NUMPAD: [usize; 9] = [7, 8, 9, 4, 5, 6, 1, 2, 3];

/// The cell that lies where `key` lies on a numeric keypad.
pub open spec fn numpad_index(key: int) -> int {
    3 * (2 - (key - 1) / 3) + (key - 1) % 3
}

/// The cell that lies where `key` lies on a numeric keypad; `key` is one of
/// the keys 1 to 9.
pub fn numpad_to_idx(key: usize) -> (idx: usize)
    requires
        1 <= key <= 9,
    ensures
        idx == numpad_index(key as int),
        idx < 9,
        NUMPAD@[idx as int] == key,
{
    let mut idx: usize = 0;
    while idx < 8 && NUMPAD[idx] != key
        invariant
            idx <= 8,
            forall|i: int| 0 <= i < idx ==> NUMPAD@[i] != key,
        decreases 8 - idx,
    {
        idx += 1;
    }
    idx
}

/// Whether `digits` is a decimal numeral.
pub open spec fn is_decimal(digits: Seq<char>) -> bool {
    digits.len() > 0 && forall|i: int| 0 <= i < digits.len() ==> '0' <= #[trigger] digits[i] <= '9'
}

/// The number that the decimal numeral `digits` stands for.
pub open spec fn decimal_value(digits: Seq<char>) -> nat
    decreases digits.len(),
{
    if digits.len() == 0 {
        0
    } else {
        (10 * decimal_value(digits.drop_last()) + (digits.last() as u32 - '0' as u32)) as nat
    }
}

/// The number that `text` stands for: a decimal numeral, with or without a
/// plus sign before it, that is not too large for a `usize`.
pub open spec fn parsed_number(text: Seq<char>) -> Option<usize> {
    let digits = if text.len() > 0 && text[0] == '+' {
        text.drop_first()
    } else {
        text
    };
    if is_decimal(digits) && decimal_value(digits) <= usize::MAX {
        Some(decimal_value(digits) as usize)
    } else {
        None
    }
}

/// `str::parse` to a `usize`, as the standard library reads integers: an
/// optional plus sign followed by nothing but the digits 0 to 9, at least one
/// of them; anything else, and a number that does not fit, is an error, which
/// is handed on as `None`.
#[verifier::external_body]
fn parse_number(line: &str) -> (number: Option<usize>)
    ensures
        number == parsed_number(line@),
{
    line.parse::<usize>().ok()
}

/// What the player answers when asked for a move.
#[derive(Debug, PartialEq, Eq, Clone, Copy, Structural)]
pub enum UserReaction {
    Turn(usize),
    Quit,
}

impl FromInput for UserReaction {
    open spec fn parsed(text: Seq<char>) -> Option<UserReaction> {
        match parsed_number(text) {
            Some(turn) => Some(UserReaction::Turn(turn)),
            None => if is_letter(text, 'q', 'Q') {
                Some(UserReaction::Quit)
            } else {
                None
            },
        }
    }

    fn from_str(line: &str) -> (value: Result<UserReaction, ()>) {
        match parse_number(line) {
            Some(turn) => Ok(UserReaction::Turn(turn)),
            None => if reads_letter(line, 'q', 'Q') {
                Ok(UserReaction::Quit)
            } else {
                Err(())
            },
        }
    }
}

/// Whether the player may answer `reaction` on `board`: to quit is always
/// possible, a move must name a key from 1 to 9 whose cell is free.
pub open spec fn is_valid_reaction(reaction: UserReaction, board: Seq<Option<Mark>>) -> bool {
    match reaction {
        UserReaction::Quit => true,
        UserReaction::Turn(key) => 1 <= key <= 9 && board[numpad_index(key as int)] is None,
    }
}

/// A reaction with the key of a move replaced by the cell that the key stands
/// for.
pub open spec fn in_cells(reaction: UserReaction) -> UserReaction {
    match reaction {
        UserReaction::Quit => UserReaction::Quit,
        UserReaction::Turn(key) => UserReaction::Turn(numpad_index(key as int) as usize),
    }
}

/// What becomes of `text` when a move on `board` is wanted.
pub open spec fn reading_user_turn(text: Seq<char>, board: Seq<Option<Mark>>) -> Result<
    UserReaction,
    &'static str,
> {
    match UserReaction::parsed(text) {
        Some(reaction) => if is_valid_reaction(reaction, board) {
            Ok(in_cells(reaction))
        } else {
            Err("Invalid turn")
        },
        None => Err("Invalid input"),
    }
}

/// Read the player's move from the whole of `text`: `q` to leave, or the key
/// of a free cell. The move is handed back as the number of its cell.
pub fn read_user_turn(text: &str, field: &Board) -> (reply: Result<UserReaction, &'static str>)
    ensures
        reply == reading_user_turn(text@, field@),
{
    let valid = |input: &UserReaction| -> (valid: bool)
        ensures
            valid == is_valid_reaction(*input, field@),
        {
            match input {
                UserReaction::Quit => true,
                UserReaction::Turn(turn) => *turn > 0 && *turn <= 9 && field.0[numpad_to_idx(
                    *turn,
                )].is_none(),
            }
        };
    match read_value_validated(text, "Invalid input", valid, "Invalid turn") {
        Ok(UserReaction::Turn(key)) => Ok(UserReaction::Turn(numpad_to_idx(key))),
        Ok(UserReaction::Quit) => Ok(UserReaction::Quit),
        Err(message) => Err(message),
    }
}

/// Read the player's move from `line` without the white space around it.
pub fn ask_user_turn(line: &str, field: &Board) -> (reply: Result<UserReaction, &'static str>)
    ensures
        reply == reading_user_turn(trimmed(line@), field@),
{
    read_user_turn(trim(line), field)
}

/// Read the mark that the player wants to play; an empty line means X.
pub fn ask_user_mark(line: &str) -> (reply: Result<Mark, &'static str>)
    ensures
        reply == reading_or_default(trimmed(line@), Mark::X, "Invalid figure"),
{
    ask_value_or_default(line, Mark::default(), "Invalid figure")
}

/// Read whether the player wants to begin; an empty line means yes.
pub fn ask_if_makes_first_turn(line: &str) -> (reply: Result<Answer, &'static str>)
    ensures
        reply == reading_or_default(trimmed(line@), Answer::Yes, "Invalid input"),
{
    ask_value_or_default(line, Answer::default(), "Invalid input")
}

/// What is shown for a cell: the mark that stands in it, or else the key that
/// the player presses to move into it.
pub open spec fn cell_symbol(cell: Option<Mark>, key: usize) -> char {
    match cell {
        Some(Mark::X) => 'X',
        Some(Mark::O) => 'O',
        None => ('0' as u32 + key) as char,
    }
}

/// The picture of a board: three lines of three cells, each line ended by a
/// line feed.
pub open spec fn board_text(board: Seq<Option<Mark>>) -> Seq<char> {
    Seq::new(
        12,
        |at: int|
            if at % 4 == 3 {
                '\n'
            } else {
                cell_symbol(board[3 * (at / 4) + at % 4], NUMPAD@[3 * (at / 4) + at % 4])
            },
    )
}

/// `String::push` of the standard library, which appends one character to the
/// end of the string.
#[verifier::external_body]
fn push_char(text: &mut String, symbol: char)
    ensures
        final(text)@ == old(text)@.push(symbol),
{
    text.push(symbol)
}

/// The picture of `board` that is shown to the player.
pub fn render_game_board(board: &Board) -> (text: String)
    ensures
        text@ == board_text(board@),
{
    let mut text = String::new();
    let mut cell: usize = 0;
    while cell < 9
        invariant
            cell <= 9,
            text@.len() == cell + cell / 3,
            forall|at: int| 0 <= at < text@.len() ==> text@[at] == board_text(board@)[at],
        decreases 9 - cell,
    {
        let symbol = match board.0[cell] {
            Some(Mark::X) => 'X',
            Some(Mark::O) => 'O',
            None => ('0' as u8 + NUMPAD[cell] as u8) as char,
        };
        push_char(&mut text, symbol);
        if cell % 3 == 2 {
            push_char(&mut text, '\n');
        }
        cell += 1;
    }
    text
}

/// How a round ended for the player at the keyboard.
#[derive(Debug, PartialEq, Eq, Clone, Copy, Structural)]
pub enum GameResult {
    Win,
    Lose,
    Draw,
}

impl GameResult {
    /// The words in which the player is told.
    pub fn message(&self) -> (text: &'static str)
        ensures
            text == match self {
                GameResult::Win => "You win!",
                GameResult::Lose => "You lose",
                GameResult::Draw => "Draw",
            },
    {
        match self {
            GameResult::Win => "You win!",
            GameResult::Lose => "You lose",
            GameResult::Draw => "Draw",
        }
    }
}

/// How a round ended.
#[derive(Debug, PartialEq, Eq, Clone, Copy, Structural)]
pub enum SessionResult {
    Finished(GameResult),
    Aborted,
}

/// What the end of a game means to the player `user`.
pub open spec fn session_result(outcome: Option<TurnResult>, user: Player) -> Option<
    SessionResult,
> {
    match outcome {
        Some(TurnResult::WinOf(player)) => Some(
            SessionResult::Finished(
                if player == user {
                    GameResult::Win
                } else {
                    GameResult::Lose
                },
            ),
        ),
        Some(TurnResult::Draw) => Some(SessionResult::Finished(GameResult::Draw)),
        None => None,
    }
}

/// What a round is at any moment.
pub struct SessionState {
    /// The player at the keyboard.
    pub user_player: Player,
    /// The game that is played.
    pub game: GameState,
}

impl SessionState {
    /// A round before the first move: the player at the keyboard begins if
    /// they asked to, and plays `user_mark`.
    pub open spec fn start(makes_first_turn: Answer, user_mark: Mark) -> SessionState {
        match makes_first_turn {
            Answer::Yes => SessionState {
                user_player: Player::First,
                game: GameState::start(user_mark),
            },
            Answer::No => SessionState {
                user_player: Player::Second,
                game: GameState::start(user_mark.opposite()),
            },
        }
    }

    /// Whether the next move is that of the player at the keyboard.
    pub open spec fn user_to_move(self) -> bool {
        self.user_player == self.game.current_player
    }

    /// Whether the round can go on with `reaction`: when the player at the
    /// keyboard is to move, their reaction is there, and a move goes into a
    /// free cell; when the computer is to move, there is no reaction, and a
    /// cell is free.
    pub open spec fn awaits(self, reaction: Option<UserReaction>) -> bool {
        if self.user_to_move() {
            match reaction {
                Some(UserReaction::Turn(turn)) => self.game.allows(turn),
                Some(UserReaction::Quit) => true,
                None => false,
            }
        } else {
            reaction is None && exists|turn: usize| self.game.allows(turn)
        }
    }

    /// The round after the move into cell `turn`, and what that move reports.
    pub open spec fn after_turn(self, turn: usize) -> (SessionState, Option<SessionResult>) {
        let game = self.game.after_turn(turn);
        (
            SessionState { user_player: self.user_player, game },
            session_result(game.outcome(), self.user_player),
        )
    }

    /// Whether the round can go on from here with `reaction`, to `after`,
    /// reporting `result`: the player at the keyboard leaves or makes their
    /// move, the computer makes a move that its policy allows.
    pub open spec fn may_become(
        self,
        reaction: Option<UserReaction>,
        after: SessionState,
        result: Option<SessionResult>,
    ) -> bool {
        match reaction {
            Some(UserReaction::Quit) => after == self && result == Some(SessionResult::Aborted),
            Some(UserReaction::Turn(turn)) => (after, result) == self.after_turn(turn),
            None => exists|turn: usize|
                default_policy(self.game.field, turn) && #[trigger] self.after_turn(turn) == (
                    after,
                    result,
                ),
        }
    }
}

/// A round between the player at the keyboard and the computer.
pub struct GameSession {
    user_player: Player,
    game: Game,
    ai: DefaultStrategy,
}

impl View for GameSession {
    type V = SessionState;

    closed spec fn view(&self) -> SessionState {
        SessionState { user_player: self.user_player, game: self.game@ }
    }
}

impl GameSession {
    /// What every round keeps that was begun by [`GameSession::new_session`]
    /// and played by [`GameSession::make_turn`].
    pub closed spec fn wf(&self) -> bool {
        self.game.wf() && self.ai.inv()
    }

    /// In a round that keeps its rules the game is, seen as a state, as
    /// every game is.
    pub proof fn lemma_wf_state(&self)
        requires
            self.wf(),
        ensures
            self@.game.wf(),
    {
        self.game.lemma_wf_state();
    }

    /// Begin a round in which the player at the keyboard moves first or
    /// second, as they answered, and plays `user_mark`.
    pub fn new_session(makes_first_turn: Answer, user_mark: Mark) -> (session: GameSession)
        ensures
            session.wf(),
            session@ == SessionState::start(makes_first_turn, user_mark),
    {
        let user_player = if makes_first_turn.into() {
            Player::First
        } else {
            Player::Second
        };
        let first_player_mark = if let Player::First = user_player {
            user_mark
        } else {
            user_mark.opposite()
        };
        let game = Game::new(first_player_mark);
        let ai = make_default_strategy();
        GameSession { user_player, game, ai }
    }

    /// The game that is played.
    pub fn game(&self) -> (game: &Game)
        ensures
            game@ == self@.game,
            self.wf() ==> game.wf(),
    {
        &self.game
    }

    /// The player at the keyboard.
    pub fn user_player(&self) -> (player: Player)
        ensures
            player == self@.user_player,
    {
        self.user_player
    }

    /// Whether the next move is that of the player at the keyboard.
    pub fn user_to_move(&self) -> (user: bool)
        ensures
            user == self@.user_to_move(),
    {
        self.user_player == self.game.current_player()
    }

    /// Go on with the round: with the reaction of the player at the keyboard
    /// when it is their move, else with a move of the computer.
    pub fn make_turn(&mut self, reaction: Option<UserReaction>) -> (result: Option<SessionResult>)
        requires
            old(self).wf(),
            old(self)@.awaits(reaction),
        ensures
            final(self).wf(),
            old(self)@.may_become(reaction, final(self)@, result),
    {
        let outcome = match reaction {
            Some(UserReaction::Turn(idx)) => self.game.make_turn(idx),
            Some(UserReaction::Quit) => {
                return Some(SessionResult::Aborted);
            },
            None => {
                proof {
                    self.game.lemma_wf_state();
                    lemma_free_cell_is_seen(self.game@);
                }
                let turn = self.ai.guide(self.game.board_repr());
                proof {
                    lemma_seen_free_cell_is_free(self.game@, turn);
                }
                let outcome = self.game.make_turn(turn);
                assert(old(self)@.after_turn(turn) == (
                    self@,
                    session_result(outcome, self.user_player),
                ));
                outcome
            },
        };
        match outcome {
            Some(TurnResult::WinOf(player)) => Some(
                SessionResult::Finished(
                    if player == self.user_player {
                        GameResult::Win
                    } else {
                        GameResult::Lose
                    },
                ),
            ),
            Some(TurnResult::Draw) => Some(SessionResult::Finished(GameResult::Draw)),
            None => None,
        }
    }
}

/// Where the board of marks has a free cell, the player to move sees one.
pub proof fn lemma_free_cell_is_seen(game: GameState)
    requires
        game.wf(),
        exists|turn: usize| game.allows(turn),
    ensures
        has_free_cell(game.field),
{
    let turn = choose|turn: usize| game.allows(turn);
    assert(is_free(game.field, turn as int));
}

/// A cell that the player to move sees as free is free on the board of marks.
pub proof fn lemma_seen_free_cell_is_free(game: GameState, turn: usize)
    requires
        game.wf(),
        is_free(game.field, turn as int),
    ensures
        game.allows(turn),
{
}

} // verus!
