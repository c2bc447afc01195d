//! The loop that drives one game to its result: ply by ply it asks the engine
//! whether the game is over or a draw can be declared, and otherwise lets the
//! agent of the side to move choose among the legal moves.

use vstd::pervasive::runtime_assert;
use vstd::prelude::*;
use crate::agent::Agent;
use crate::board::{Color, Move};
use crate::engine::legal_moves;
use crate::game::{
    can_declare_draw_in, can_make_move_in, law_declared_draw_is_the_result, moves_of, result_of,
    Action, GameResult, GameState,
};

verus! {

/// The most plies that the simulator plays in one game.
///
/// A draw can be declared once a hundred plies have gone by without a pawn
/// move, a capture or a change of castling rights. Pawns move at most 96
/// times in a game, at most 30 pieces are captured and castling rights change
/// at most 4 times, so a game in which the draw is declared as soon as it can
/// be is over after 130 such plies and 131 stretches of 100 others.
pub const PLY_LIMIT: usize = 13_230;

/// What the simulator does at the start of a ply.
#[derive(Clone, Copy, Debug, PartialEq, Eq, Structural)]
pub enum NextStep {
    /// The game is over: report its result.
    Report(GameResult),
    /// The game is open and a draw can be declared: declare it.
    DeclareDraw,
    /// The game goes on: ask the agent of this side for a move.
    Ask(Color),
}

/// What the simulator does at the start of a ply, given what the engine says
/// of the game: a result comes before a draw that can be declared, and that
/// before the move of the side whose turn it is.
pub open spec fn next_step_of(
    result: Option<GameResult>,
    draw_claimable: bool,
    side_to_move: Color,
) -> NextStep {
    match result {
        Some(result) => NextStep::Report(result),
        None => if draw_claimable {
            NextStep::DeclareDraw
        } else {
            NextStep::Ask(side_to_move)
        },
    }
}

/// Decides what to do at the start of a ply from what the engine says of the
/// game.
pub fn next_step(result: Option<GameResult>, draw_claimable: bool, side_to_move: Color) -> (step:
    NextStep)
    ensures
        step == next_step_of(result, draw_claimable, side_to_move),
{
    match result {
        Some(result) => NextStep::Report(result),
        None => if draw_claimable {
            NextStep::DeclareDraw
        } else {
            NextStep::Ask(side_to_move)
        },
    }
}

/// Whether the simulator may take `action` in the game that `before`
/// records: a declaration of a draw where one can be declared, and a legal
/// move where none can and the game is open.
pub open spec fn follows(before: Seq<Action>, action: Action) -> bool {
    match action {
        Action::MakeMove(mv) => !can_declare_draw_in(before) && can_make_move_in(before, mv),
        Action::DeclareDraw => can_declare_draw_in(before),
        _ => false,
    }
}

/// Whether `record` is the record `start` continued by the simulator: every
/// action after those of `start` is one that the simulator may take at that
/// point.
pub open spec fn is_played_from(start: Seq<Action>, record: Seq<Action>) -> bool {
    &&& start.len() <= record.len()
    &&& record.take(start.len() as int) == start
    &&& forall|k: int|
        start.len() <= k < record.len() ==> follows(record.take(k), #[trigger] record[k])
}

/// Whether `result` is what the simulator reports of a game that it took
/// from `start` to `record`: the result that the engine gives the record,
/// or a draw that the simulator declares on its own after `PLY_LIMIT` moves
/// in a game that is still open.
pub open spec fn concludes(start: Seq<Action>, record: Seq<Action>, result: GameResult) -> bool {
    ||| result_of(record) == Some(result)
    ||| {
        &&& result_of(record).is_none()
        &&& !can_declare_draw_in(record)
        &&& record.len() == start.len() + PLY_LIMIT
        &&& result == GameResult::DrawDeclared
    }
}

/// Whether a game played by the simulator from the initial position can end
/// with `result`.
pub open spec fn is_result_of_a_game(result: GameResult) -> bool {
    exists|record: Seq<Action>|
        is_played_from(Seq::empty(), record) && #[trigger] concludes(
            Seq::empty(),
            record,
            result,
        )
}

/// A record has one result: what the simulator reports of a game is decided
/// by where the game began and what was done in it.
pub proof fn law_a_record_has_one_result(
    start: Seq<Action>,
    record: Seq<Action>,
    first: GameResult,
    second: GameResult,
)
    requires
        concludes(start, record, first),
        concludes(start, record, second),
    ensures
        first == second,
{
}

/// One more action that the simulator may take keeps the record one that it
/// played.
proof fn lemma_played_one_more(start: Seq<Action>, record: Seq<Action>, action: Action)
    requires
        is_played_from(start, record),
        follows(record, action),
    ensures
        is_played_from(start, record.push(action)),
{
    let longer = record.push(action);
    assert(longer.take(start.len() as int) =~= record.take(start.len() as int));
    assert forall|k: int| start.len() <= k < longer.len() implies follows(
        longer.take(k),
        #[trigger] longer[k],
    ) by {
        if k < record.len() {
            assert(longer.take(k) =~= record.take(k));
            assert(follows(record.take(k), record[k]));
        } else {
            assert(longer.take(k) =~= record);
        }
    }
}

/// Borrows each of the moves, in order.
fn borrow_each(moves: &Vec<Move>) -> (refs: Vec<&Move>)
    ensures
        refs@.len() == moves@.len(),
        forall|i: int| 0 <= i < moves@.len() ==> *(#[trigger] refs@[i]) == moves@[i],
{
    let mut refs: Vec<&Move> = Vec::new();
    let mut i: usize = 0;
    while i < moves.len()
        invariant
            i <= moves@.len(),
            refs@.len() == i,
            forall|j: int| 0 <= j < i ==> *(#[trigger] refs@[j]) == moves@[j],
        decreases moves@.len() - i,
    {
        refs.push(&moves[i]);
        i += 1;
    }
    refs
}

/// Plays `game` on to its end, `white` and `black` choosing the moves of
/// their sides, and returns the result with the finished game.
///
/// At the start of each ply the simulator does what `next_step` says of the
/// game: it reports the result of a game that is over, declares a draw as
/// soon as one can be declared, and otherwise has the agent of the side to
/// move pick one of the legal moves and makes that move. No agent is asked
/// once the game is over, and none is asked to choose among no moves. After
/// `PLY_LIMIT` moves the simulator calls the game a draw.
///
/// An agent that hands back a move that it was not given breaks its
/// contract; the simulator stops the program there.
pub fn play_on<W: Agent, B: Agent>(game: GameState, white: W, black: B) -> (end: (
    GameResult,
    GameState,
))
    ensures
        is_played_from(game@, end.1@),
        concludes(game@, end.1@, end.0),
{
    let mut current = game;
    let mut white = white;
    let mut black = black;
    let mut plies: usize = 0;
    proof {
        assert(game@.take(game@.len() as int) =~= game@);
    }
    loop
        invariant
            plies <= PLY_LIMIT,
            is_played_from(game@, current@),
            current@.len() == game@.len() + plies,
        decreases PLY_LIMIT - plies,
    {
        let board = current.current_position();
        let step = next_step(current.result(), current.can_declare_draw(), board.side_to_move);
        let side = match step {
            NextStep::Report(result) => {
                return (result, current);
            },
            NextStep::DeclareDraw => {
                proof {
                    lemma_played_one_more(game@, current@, Action::DeclareDraw);
                    law_declared_draw_is_the_result(current@);
                }
                current.declare_draw();
                return (GameResult::DrawDeclared, current);
            },
            NextStep::Ask(side) => side,
        };
        if plies == PLY_LIMIT {
            return (GameResult::DrawDeclared, current);
        }
        let moves = current.legal_moves();
        let move_refs = borrow_each(&moves);
        let chosen = match side {
            Color::White => white.pick_move(&board, move_refs),
            Color::Black => black.pick_move(&board, move_refs),
        };
        proof {
            let i = choose|i: int| 0 <= i < move_refs@.len() && move_refs@[i] == chosen;
            assert(moves@[i] == *chosen);
            assert(moves@.contains(*chosen));
            lemma_played_one_more(game@, current@, Action::MakeMove(*chosen));
        }
        let made = current.make_move(chosen);
        runtime_assert(made);
        plies += 1;
    }
}

/// Plays one game from the initial position, `white` and `black` choosing
/// the moves of their sides, and returns its result.
pub fn play_game<W: Agent, B: Agent>(white: W, black: B) -> (result: GameResult)
    ensures
        is_result_of_a_game(result),
{
    let end = play_on(GameState::new(), white, black);
    proof {
        assert(concludes(Seq::empty(), end.1@, end.0));
    }
    end.0
}

/// A record that the simulator played holds no action but moves and
/// declarations of a draw; each move was legal in an open game when it was
/// made, so the legal moves to choose from were not empty; and a declaration
/// ends the game.
pub proof fn law_moves_are_chosen_among_legal_moves(
    start: Seq<Action>,
    record: Seq<Action>,
    k: int,
)
    requires
        is_played_from(start, record),
        start.len() <= k < record.len(),
    ensures
        match record[k] {
            Action::MakeMove(mv) => {
                &&& result_of(record.take(k)).is_none()
                &&& legal_moves(moves_of(record.take(k))).len() > 0
                &&& legal_moves(moves_of(record.take(k))).contains(mv)
            },
            Action::DeclareDraw => {
                &&& result_of(record.take(k + 1)) == Some(GameResult::DrawDeclared)
                &&& k == record.len() - 1
            },
            _ => false,
        },
{
    assert(follows(record.take(k), record[k]));
    if record[k] == Action::DeclareDraw {
        law_declared_draw_is_the_result(record.take(k));
        assert(record.take(k + 1) =~= record.take(k).push(Action::DeclareDraw));
        if k < record.len() - 1 {
            assert(follows(record.take(k + 1), record[k + 1]));
        }
    }
}

} // verus!
