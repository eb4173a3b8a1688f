//! The game session: whose turn it is, what a line of input does to the
//! round, and how a round ends or starts again.

use crate::board::{
    after_place, empty_grid, full, lemma_place_adds_mark, marks, place, render_grid, won, Board,
    BoardUpdateError, Grid, TileState,
};
use crate::play::{parse_play, parsed, ParsePlayError, ParsedPlay, Play};
use std::collections::HashMap;
use vstd::prelude::*;
use vstd::string::*;

verus! {

broadcast use vstd::std_specs::hash::group_hash_axioms;

/// Where a session stands.
#[derive(Copy, Clone, PartialEq, Eq, Structural, Debug)]
pub enum GameState {
    /// A round is being played.
    Running,
    /// The session is over; nothing follows.
    WillExit,
    /// The round ended with a finished line.
    Won,
    /// The round ended with a full board and no finished line.
    Tied,
}

/// What a line of input did to the round.
#[derive(Debug)]
pub enum TurnOutcome {
    /// The line was a quit keyword.
    Quit,
    /// The mark was placed and the round goes on with the other player.
    Moved,
    /// The mark was placed and finished a line.
    Won,
    /// The mark was placed, filled the board and finished no line.
    Tied,
    /// The line was a move that the board refused.
    Refused(BoardUpdateError),
    /// The line was no move.
    Unreadable(ParsePlayError),
}

/// The mathematical model of a session.
pub struct GameView {
    pub state: GameState,
    pub board: Grid,
    pub move_count: nat,
    pub players: Map<u32, Seq<char>>,
}

/// The mark of the player who makes move number `move_count`.
pub open spec fn mark_for(move_count: nat) -> TileState {
    if move_count % 2 == 0 {
        TileState::Ex
    } else {
        TileState::Oh
    }
}

/// The number, 1 or 2, of the player who makes move number `move_count`.
pub open spec fn player_for(move_count: nat) -> nat {
    move_count % 2 + 1
}

/// The line is one of the two quit keywords.
pub open spec fn is_quit(input: Seq<char>) -> bool {
    input == seq!['q'] || input == seq!['e', 'x', 'i', 't']
}

/// The answer accepts a rematch.
pub open spec fn is_yes(answer: Seq<char>) -> bool {
    answer == seq!['y'] || answer == seq!['y', 'e', 's']
}

impl GameView {
    /// A session before its first move: nobody has given a name yet.
    pub open spec fn initial() -> GameView {
        GameView {
            state: GameState::Running,
            board: empty_grid(),
            move_count: 0,
            players: Map::empty(),
        }
    }

    /// The session at the start of a new round: the names stay.
    pub open spec fn fresh(self) -> GameView {
        GameView { state: GameState::Running, board: empty_grid(), move_count: 0, ..self }
    }

    /// The session after it was told to end.
    pub open spec fn ended(self) -> GameView {
        GameView { state: GameState::WillExit, ..self }
    }

    /// The session after the player whose turn it is has chosen column `x`,
    /// row `y`. A refused placement changes nothing; a placement that ends
    /// the round leaves the move counter as it is.
    pub open spec fn after_move(self, x: int, y: int) -> GameView {
        match place(self.board, x, y, mark_for(self.move_count)) {
            Err(_) => self,
            Ok(g) => if won(g) {
                GameView { state: GameState::Won, board: g, ..self }
            } else if full(g) {
                GameView { state: GameState::Tied, board: g, ..self }
            } else {
                GameView { board: g, move_count: self.move_count + 1, ..self }
            },
        }
    }

    /// The session after a line that is no quit keyword.
    pub open spec fn after_move_input(self, input: Seq<char>) -> GameView {
        match parse_play(input) {
            ParsedPlay::Coordinate { x, y } => self.after_move(x as int, y as int),
            _ => self,
        }
    }

    /// The session after a line of input at the move prompt.
    pub open spec fn after_input(self, input: Seq<char>) -> GameView {
        if is_quit(input) {
            self.ended()
        } else {
            self.after_move_input(input)
        }
    }

    /// The session after the answer to the question for a rematch.
    pub open spec fn after_answer(self, answer: Seq<char>) -> GameView {
        if is_yes(answer) {
            self.fresh()
        } else {
            self.ended()
        }
    }

    /// The session after a line of input, whatever its state: a move prompt
    /// while the round runs, the question for a rematch once it has ended,
    /// and nothing any more after the session is over.
    pub open spec fn after_line(self, line: Seq<char>) -> GameView {
        match self.state {
            GameState::Running => self.after_input(line),
            GameState::Won | GameState::Tied => self.after_answer(line),
            GameState::WillExit => self,
        }
    }

    /// The session after player `player_id` has given `name`: the first
    /// name given stays.
    pub open spec fn with_player(self, player_id: u32, name: Seq<char>) -> GameView {
        if self.players.contains_key(player_id) {
            self
        } else {
            GameView { players: self.players.insert(player_id, name), ..self }
        }
    }
}

/// What the board answers to the line `input` in the session `before`, if
/// the line is a move at all.
pub open spec fn attempt(before: GameView, input: Seq<char>) -> Option<
    Result<Grid, BoardUpdateError>,
> {
    match parse_play(input) {
        ParsedPlay::Coordinate { x, y } => Some(
            place(before.board, x as int, y as int, mark_for(before.move_count)),
        ),
        _ => None,
    }
}

/// What `outcome` says of a line that is no quit keyword, read in the
/// session `before`.
pub open spec fn describes_move(outcome: TurnOutcome, before: GameView, input: Seq<char>) -> bool {
    match outcome {
        TurnOutcome::Quit => false,
        TurnOutcome::Unreadable(e) => parsed(Err(e)) == parse_play(input),
        TurnOutcome::Refused(e) => attempt(before, input) == Some(
            Err::<Grid, BoardUpdateError>(e),
        ),
        TurnOutcome::Moved => attempt(before, input) matches Some(Ok(g)) && !won(g) && !full(g),
        TurnOutcome::Won => attempt(before, input) matches Some(Ok(g)) && won(g),
        TurnOutcome::Tied => attempt(before, input) matches Some(Ok(g)) && !won(g) && full(g),
    }
}

/// What `outcome` says of a line of input at the move prompt, read in the
/// session `before`.
pub open spec fn describes(outcome: TurnOutcome, before: GameView, input: Seq<char>) -> bool {
    if is_quit(input) {
        outcome is Quit
    } else {
        describes_move(outcome, before, input)
    }
}

/// One round: the board and the number of moves that were made on it and
/// did not end the round.
struct Round {
    board: Board,
    move_count: u32,
}

impl Round {
    /// No more moves were counted than the board holds marks.
    #[verifier::type_invariant]
    spec fn counts_agree(self) -> bool {
        self.move_count <= marks(self.board@)
    }

    fn new() -> (round: Round)
        ensures
            round.board@ == empty_grid(),
            round.move_count == 0,
    {
        Round { board: Board::default(), move_count: 0 }
    }

    fn place(&mut self, x: usize, y: usize, mark: TileState) -> (res: Result<
        (),
        BoardUpdateError,
    >)
        requires
            mark != TileState::Empty,
        ensures
            final(self).move_count == old(self).move_count,
            final(self).board@ == after_place(old(self).board@, x as int, y as int, mark),
            match place(old(self).board@, x as int, y as int, mark) {
                Ok(g) => res is Ok && final(self).move_count < marks(g),
                Err(e) => res == Err::<(), BoardUpdateError>(e),
            },
    {
        proof {
            use_type_invariant(&*self);
            self.board.lemma_shape();
        }
        let mut board = self.board;
        let res = board.update(x, y, mark);
        proof {
            if res is Ok {
                lemma_place_adds_mark(self.board@, x as int, y as int, mark);
            }
        }
        self.board = board;
        res
    }

    fn advance(&mut self)
        requires
            old(self).move_count < marks(old(self).board@),
        ensures
            final(self).move_count == old(self).move_count + 1,
            final(self).board@ == old(self).board@,
    {
        self.move_count += 1;
    }

    fn restart(&mut self)
        ensures
            final(self).move_count == 0,
            final(self).board@ == empty_grid(),
    {
        self.move_count = 0;
        self.board = Board::default();
    }
}

/// One session of the game: the state of the round, the round itself, and
/// the names that the players gave.
pub struct Game {
    state: GameState,
    round: Round,
    players: HashMap<u32, String>,
}

impl View for Game {
    type V = GameView;

    closed spec fn view(&self) -> GameView {
        GameView {
            state: self.state,
            board: self.round.board@,
            move_count: self.round.move_count as nat,
            players: self.players@.map_values(|name: String| name@),
        }
    }
}

impl Default for Game {
    fn default() -> (game: Game)
        ensures
            game@ == GameView::initial(),
    {
        let game = Game {
            state: GameState::Running,
            round: Round::new(),
            players: HashMap::new(),
        };
        assert(game.players@.map_values(|name: String| name@) =~= Map::<u32, Seq<char>>::empty());
        game
    }
}

fn same_text(a: &str, b: &str) -> (res: bool)
    ensures
        res == (a@ == b@),
{
    let left = String::from_str(a);
    let right = String::from_str(b);
    left == right
}

impl Game {
    /// Where the session stands.
    pub fn state(&self) -> (state: GameState)
        ensures
            state == self@.state,
    {
        self.state
    }

    /// How many moves were made in this round and did not end it.
    pub fn move_count(&self) -> (n: u32)
        ensures
            n == self@.move_count,
    {
        self.round.move_count
    }

    /// The board of this round.
    pub fn board(&self) -> (board: &Board)
        ensures
            board@ == self@.board,
    {
        &self.round.board
    }

    /// The number of the player whose turn it is: 1 on even move counts, 2
    /// on odd ones.
    pub fn player_id(&self) -> (id: u32)
        ensures
            id == player_for(self@.move_count),
    {
        self.round.move_count % 2 + 1
    }

    /// The mark of the player whose turn it is: `Ex` on even move counts,
    /// `Oh` on odd ones.
    pub fn calc_next_tile_state(&self) -> (mark: TileState)
        ensures
            mark == mark_for(self@.move_count),
    {
        if self.round.move_count % 2 == 0 {
            TileState::Ex
        } else {
            TileState::Oh
        }
    }

    /// The name that player `player_id` gave, if any.
    pub fn get_player(&self, player_id: u32) -> (name: Option<String>)
        ensures
            match name {
                Some(n) => self@.players.contains_key(player_id) && n@ == self@.players[player_id],
                None => !self@.players.contains_key(player_id),
            },
    {
        match self.players.get(&player_id) {
            Some(n) => Some(n.clone()),
            None => None,
        }
    }

    /// Stores `name` for player `player_id`, unless that player has a name.
    pub fn register_player(&mut self, player_id: u32, name: String)
        ensures
            final(self)@ == old(self)@.with_player(player_id, name@),
    {
        if !self.players.contains_key(&player_id) {
            self.players.insert(player_id, name);
            assert(self.players@.map_values(|name: String| name@) =~= old(self).players@.map_values(
                |name: String| name@,
            ).insert(player_id, name@));
        }
    }

    /// Starts a new round: an empty board, no move made, the names kept.
    pub fn reset(&mut self)
        ensures
            final(self)@ == old(self)@.fresh(),
    {
        self.round.restart();
        self.state = GameState::Running;
    }

    /// Whether `answer` accepts a rematch: it does if it is `y` or `yes`.
    pub fn confirm(answer: &str) -> (res: bool)
        ensures
            res == is_yes(answer@),
    {
        proof {
            reveal_strlit("y");
            reveal_strlit("yes");
            assert("y"@ =~= seq!['y']);
            assert("yes"@ =~= seq!['y', 'e', 's']);
        }
        same_text(answer, "y") || same_text(answer, "yes")
    }

    /// Reads `input` as a move of the player whose turn it is and applies
    /// it. A line that is no move, or a move that the board refuses, changes
    /// nothing. A move that finishes a line wins the round, one that fills
    /// the board without doing so ties it; any other counts as one move.
    pub fn on_move_input(&mut self, input: &str) -> (outcome: TurnOutcome)
        ensures
            final(self)@ == old(self)@.after_move_input(input@),
            describes_move(outcome, old(self)@, input@),
    {
        match Play::from_str(input) {
            Ok(play) => {
                let mark = self.calc_next_tile_state();
                match self.round.place(play.x, play.y, mark) {
                    Ok(_) => {
                        if self.round.board.any_row_won() {
                            self.state = GameState::Won;
                            return TurnOutcome::Won;
                        }
                        if self.round.board.full() {
                            self.state = GameState::Tied;
                            return TurnOutcome::Tied;
                        }
                        self.round.advance();
                        TurnOutcome::Moved
                    },
                    Err(e) => TurnOutcome::Refused(e),
                }
            },
            Err(e) => TurnOutcome::Unreadable(e),
        }
    }

    /// Takes one line of input at the move prompt: a quit keyword (`q` or
    /// `exit`) ends the session, anything else is read as a move.
    pub fn update(&mut self, input: &str) -> (outcome: TurnOutcome)
        ensures
            final(self)@ == old(self)@.after_input(input@),
            describes(outcome, old(self)@, input@),
    {
        proof {
            reveal_strlit("q");
            reveal_strlit("exit");
            assert("q"@ =~= seq!['q']);
            assert("exit"@ =~= seq!['e', 'x', 'i', 't']);
        }
        if same_text(input, "q") || same_text(input, "exit") {
            self.state = GameState::WillExit;
            TurnOutcome::Quit
        } else {
            self.on_move_input(input)
        }
    }

    /// Closes a round with the answer to the question for a rematch: `y` or
    /// `yes` starts a new round, anything else ends the session.
    pub fn on_end(&mut self, answer: &str)
        ensures
            final(self)@ == old(self)@.after_answer(answer@),
    {
        if Game::confirm(answer) {
            self.reset()
        } else {
            self.state = GameState::WillExit;
        }
    }

    /// Closes a won round with the answer to the question for a rematch.
    pub fn on_win(&mut self, answer: &str)
        ensures
            final(self)@ == old(self)@.after_answer(answer@),
    {
        self.on_end(answer)
    }

    /// Closes a tied round with the answer to the question for a rematch.
    pub fn on_tie(&mut self, answer: &str)
        ensures
            final(self)@ == old(self)@.after_answer(answer@),
    {
        self.on_end(answer)
    }

    /// Takes one line of input in whatever state the session is: while the
    /// round runs the line is a move or a quit keyword, and what it did is
    /// handed back; after a round has ended it is the answer to the question
    /// for a rematch; once the session is over it is ignored.
    pub fn step(&mut self, line: &str) -> (outcome: Option<TurnOutcome>)
        ensures
            final(self)@ == old(self)@.after_line(line@),
            match outcome {
                Some(o) => old(self)@.state == GameState::Running && describes(
                    o,
                    old(self)@,
                    line@,
                ),
                None => old(self)@.state != GameState::Running,
            },
    {
        match self.state {
            GameState::Running => Some(self.update(line)),
            GameState::Won => {
                self.on_win(line);
                None
            },
            GameState::Tied => {
                self.on_tie(line);
                None
            },
            GameState::WillExit => None,
        }
    }

    /// The board of this round as text.
    pub fn render(&self) -> (text: String)
        ensures
            text@ == render_grid(self@.board),
    {
        self.round.board.render()
    }
}

/// The mark goes by the parity of the move count: the first move of a round
/// places `Ex`, the next `Oh`, and so on in turn; player 1 has the even
/// counts and player 2 the odd ones. A new round starts at count 0 again.
pub proof fn lemma_turns_alternate(n: nat, session: GameView)
    ensures
        mark_for(0) == TileState::Ex,
        mark_for(1) == TileState::Oh,
        mark_for(n) == if n % 2 == 0 {
            TileState::Ex
        } else {
            TileState::Oh
        },
        mark_for(n) != TileState::Empty,
        mark_for(n + 1) != mark_for(n),
        mark_for(n + 2) == mark_for(n),
        player_for(n) == if n % 2 == 0 {
            1nat
        } else {
            2nat
        },
        session.fresh().move_count == 0,
        mark_for(session.fresh().move_count) == TileState::Ex,
{
}

/// A move that the board accepts and that does not end the round counts as
/// one move; any other line leaves the move count as it was.
pub proof fn lemma_move_count_steps(session: GameView, input: Seq<char>)
    ensures
        session.after_input(input).move_count == session.move_count
            || session.after_input(input).move_count == session.move_count + 1,
        session.after_input(input).move_count == session.move_count + 1 ==> session.after_input(
            input,
        ).state == session.state,
        session.after_input(input).players == session.players,
{
}

/// After a round was won or tied, the answer `y` (and `yes`) leads back to
/// a running round with an empty board and no move made, and the names stay;
/// any other answer ends the session and changes nothing else.
pub proof fn lemma_rematch(session: GameView, answer: Seq<char>)
    requires
        session.state == GameState::Won || session.state == GameState::Tied,
    ensures
        is_yes(seq!['y']),
        is_yes(seq!['y', 'e', 's']),
        is_yes(answer) ==> session.after_line(answer) == (GameView {
            state: GameState::Running,
            board: empty_grid(),
            move_count: 0,
            players: session.players,
        }),
        !is_yes(answer) ==> session.after_line(answer) == (GameView {
            state: GameState::WillExit,
            ..session
        }),
{
}

/// Once the session is over, no line changes it.
pub proof fn lemma_exit_is_final(session: GameView, line: Seq<char>)
    requires
        session.state == GameState::WillExit,
    ensures
        session.after_line(line) == session,
{
}

} // verus!
