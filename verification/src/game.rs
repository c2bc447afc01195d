//! A game of chess as the sequence of actions taken since the initial
//! position, kept by the rules engine and read through contracts that speak of
//! that sequence alone.

use vstd::prelude::*;
use crate::board::{Board, Color, Move};
use crate::engine::{
    draw_claimable, engine_actions, engine_can_declare_draw, engine_current_position, engine_declare_draw,
    engine_legal_moves, engine_make_move, engine_new, engine_result, fen_after, game_actions,
    in_check, legal_moves, starts_at_initial_position,
};

verus! {

/// How a game ended.
#[derive(Clone, Copy, Debug, PartialEq, Eq, Structural)]
pub enum GameResult {
    WhiteCheckmates,
    WhiteResigns,
    BlackCheckmates,
    BlackResigns,
    Stalemate,
    DrawAccepted,
    DrawDeclared,
}

/// One entry in the record of a game.
#[derive(Clone, Copy, Debug, PartialEq, Eq, Structural)]
pub enum Action {
    MakeMove(Move),
    OfferDraw(Color),
    AcceptDraw,
    DeclareDraw,
    Resign(Color),
}

/// The moves among the actions, in the order they were made.
pub open spec fn moves_of(actions: Seq<Action>) -> Seq<Move>
    decreases actions.len(),
{
    if actions.len() == 0 {
        Seq::empty()
    } else {
        match actions.last() {
            Action::MakeMove(mv) => moves_of(actions.drop_last()).push(mv),
            _ => moves_of(actions.drop_last()),
        }
    }
}

/// The side that has to move after `moves` from the initial position: White
/// moves first and the sides alternate.
pub open spec fn side_to_move_after(moves: Seq<Move>) -> Color {
    if moves.len() % 2 == 0 {
        Color::White
    } else {
        Color::Black
    }
}

/// The result of the game that `actions` record, `None` while it is open.
///
/// A side without a legal move is checkmated if it is in check and
/// stalemated if not. Otherwise the last action decides: an accepted or
/// declared draw or a resignation ends the game, anything else leaves it
/// open.
pub open spec fn result_of(actions: Seq<Action>) -> Option<GameResult> {
    let moves = moves_of(actions);
    result_given(legal_moves(moves).len() == 0, in_check(moves), actions)
}

/// The result of the game that `actions` record, given whether the side to
/// move is without a legal move (`stuck`) and whether it is in check
/// (`checked`).
pub open spec fn result_given(stuck: bool, checked: bool, actions: Seq<Action>) -> Option<
    GameResult,
> {
    if stuck {
        if !checked {
            Some(GameResult::Stalemate)
        } else if side_to_move_after(moves_of(actions)) == Color::White {
            Some(GameResult::BlackCheckmates)
        } else {
            Some(GameResult::WhiteCheckmates)
        }
    } else if actions.len() == 0 {
        None
    } else {
        match actions.last() {
            Action::AcceptDraw => Some(GameResult::DrawAccepted),
            Action::DeclareDraw => Some(GameResult::DrawDeclared),
            Action::Resign(Color::White) => Some(GameResult::WhiteResigns),
            Action::Resign(Color::Black) => Some(GameResult::BlackResigns),
            _ => None,
        }
    }
}

/// Whether a draw can be declared in the game that `actions` record: the
/// game is open and the position has repeated or gone stale.
pub open spec fn can_declare_draw_in(actions: Seq<Action>) -> bool {
    result_of(actions).is_none() && draw_claimable(moves_of(actions))
}

/// Whether `mv` can be made in the game that `actions` record: the game is
/// open and the move is legal for the side to move.
pub open spec fn can_make_move_in(actions: Seq<Action>, mv: Move) -> bool {
    result_of(actions).is_none() && legal_moves(moves_of(actions)).contains(mv)
}

/// A move appended to the record is appended to its moves.
pub proof fn lemma_moves_of_push_move(actions: Seq<Action>, mv: Move)
    ensures
        moves_of(actions.push(Action::MakeMove(mv))) == moves_of(actions).push(mv),
{
    assert(actions.push(Action::MakeMove(mv)).drop_last() =~= actions);
}

/// A declared draw leaves the moves of the record as they were.
pub proof fn lemma_moves_of_push_declaration(actions: Seq<Action>)
    ensures
        moves_of(actions.push(Action::DeclareDraw)) == moves_of(actions),
{
    assert(actions.push(Action::DeclareDraw).drop_last() =~= actions);
}

/// A move passes the turn to the other side.
pub proof fn law_a_move_passes_the_turn(actions: Seq<Action>, mv: Move)
    ensures
        side_to_move_after(moves_of(actions.push(Action::MakeMove(mv)))) == side_to_move_after(
            moves_of(actions),
        ).opponent(),
{
    lemma_moves_of_push_move(actions, mv);
}

/// While a game is open, the side to move has a legal move.
pub proof fn law_open_game_has_legal_moves(actions: Seq<Action>)
    requires
        result_of(actions).is_none(),
    ensures
        legal_moves(moves_of(actions)).len() > 0,
{
}

/// Declaring a draw where one can be declared ends the game as a declared
/// draw.
pub proof fn law_declared_draw_is_the_result(actions: Seq<Action>)
    requires
        can_declare_draw_in(actions),
    ensures
        result_of(actions.push(Action::DeclareDraw)) == Some(GameResult::DrawDeclared),
{
    lemma_moves_of_push_declaration(actions);
}

/// A game in progress or finished, from the initial position.
pub struct GameState {
    engine: chess::Game,
}

impl View for GameState {
    type V = Seq<Action>;

    /// The actions taken so far, oldest first.
    closed spec fn view(&self) -> Seq<Action> {
        game_actions(self.engine)
    }
}

impl GameState {
    #[verifier::type_invariant]
    spec fn from_initial_position(self) -> bool {
        starts_at_initial_position(self.engine)
    }

    /// A game at the initial position, White to move.
    pub fn new() -> (game: GameState)
        ensures
            game@ == Seq::<Action>::empty(),
    {
        GameState { engine: engine_new() }
    }

    /// The actions taken so far, oldest first.
    pub fn actions(&self) -> (actions: Vec<Action>)
        ensures
            actions@ == self@,
    {
        engine_actions(&self.engine)
    }

    /// The result of the game, `None` while it is open.
    pub fn result(&self) -> (result: Option<GameResult>)
        ensures
            result == result_of(self@),
    {
        proof {
            use_type_invariant(self);
        }
        engine_result(&self.engine)
    }

    /// Whether a draw can be declared now.
    pub fn can_declare_draw(&self) -> (claimable: bool)
        ensures
            claimable == can_declare_draw_in(self@),
    {
        proof {
            use_type_invariant(self);
        }
        engine_can_declare_draw(&self.engine)
    }

    /// Declares a draw if one can be declared, and says whether it did.
    pub fn declare_draw(&mut self) -> (declared: bool)
        ensures
            declared == can_declare_draw_in(old(self)@),
            final(self)@ == if declared {
                old(self)@.push(Action::DeclareDraw)
            } else {
                old(self)@
            },
    {
        proof {
            use_type_invariant(&*self);
        }
        engine_declare_draw(&mut self.engine)
    }

    /// The legal moves of the side to move, in the engine's order.
    pub fn legal_moves(&self) -> (moves: Vec<Move>)
        ensures
            moves@ == legal_moves(moves_of(self@)),
            forall|i: int| 0 <= i < moves@.len() ==> (#[trigger] moves@[i]).on_board(),
    {
        proof {
            use_type_invariant(self);
        }
        engine_legal_moves(&self.engine)
    }

    /// The position on the board now.
    pub fn current_position(&self) -> (board: Board)
        ensures
            board.side_to_move == side_to_move_after(moves_of(self@)),
            board.fen@ == fen_after(moves_of(self@)),
    {
        proof {
            use_type_invariant(self);
        }
        engine_current_position(&self.engine)
    }

    /// Makes `mv` if the game is open and the move is legal, and says whether
    /// it did. A move that is not made leaves the game as it was.
    pub fn make_move(&mut self, mv: &Move) -> (made: bool)
        ensures
            made == (mv.on_board() && can_make_move_in(old(self)@, *mv)),
            final(self)@ == if made {
                old(self)@.push(Action::MakeMove(*mv))
            } else {
                old(self)@
            },
    {
        proof {
            use_type_invariant(&*self);
        }
        if mv.is_on_board() {
            engine_make_move(&mut self.engine, mv)
        } else {
            false
        }
    }
}

} // verus!
