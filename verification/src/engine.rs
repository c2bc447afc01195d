//! The boundary to the rules engine, the `chess` crate.
//!
//! Nothing in this file is proved. It declares the engine's game type, names
//! what the engine computes from a sequence of moves, and wraps each engine
//! call that the library makes in a function whose contract restates what the
//! engine's source does.

use vstd::prelude::*;
use crate::board::{Board, Color, Move, Piece};
use crate::game::{moves_of, result_given, result_of, side_to_move_after, Action, GameResult};

verus! {

/// The engine's record of a game: a starting position and the actions taken
/// since.
#[verifier::external_type_specification]
#[verifier::external_body]
pub struct ExEngineGame(chess::Game);

/// The actions that an engine game holds, oldest first (`chess::Game::actions`).
pub uninterp spec fn game_actions(game: chess::Game) -> Seq<Action>;

/// Whether an engine game was started from the initial position of chess.
pub uninterp spec fn starts_at_initial_position(game: chess::Game) -> bool;

/// The legal moves, in the engine's order, in the position that `moves` lead
/// to from the initial position (`chess::MoveGen::new_legal`).
pub uninterp spec fn legal_moves(moves: Seq<Move>) -> Seq<Move>;

/// Whether the side to move is in check in the position that `moves` lead to
/// from the initial position (`chess::Board::checkers` is not empty).
pub uninterp spec fn in_check(moves: Seq<Move>) -> bool;

/// Whether, after `moves` from the initial position, the position has occurred
/// three times or a hundred plies have passed without a pawn move, a capture
/// or a change of castling rights (the test of `chess::Game::can_declare_draw`
/// on a game that has no result).
pub uninterp spec fn draw_claimable(moves: Seq<Move>) -> bool;

/// The position that `moves` lead to from the initial position, in
/// Forsyth-Edwards notation as the engine prints it (`Display` of
/// `chess::Board`).
pub uninterp spec fn fen_after(moves: Seq<Move>) -> Seq<char>;

/// `chess::Game::new`: a game at the initial position with no action taken.
#[verifier::external_body]
pub(crate) fn engine_new() -> (game: chess::Game)
    ensures
        game_actions(game) == Seq::<Action>::empty(),
        starts_at_initial_position(game),
{
    chess::Game::new()
}

/// `chess::Game::actions`: the actions taken so far, oldest first.
#[verifier::external_body]
pub(crate) fn engine_actions(game: &chess::Game) -> (actions: Vec<Action>)
    ensures
        actions@ == game_actions(*game),
{
    game.actions().iter().map(|action| match *action {
        chess::Action::MakeMove(m) => Action::MakeMove(Move {
            source: m.get_source().to_int(),
            dest: m.get_dest().to_int(),
            promotion: m.get_promotion().map(|p| Piece::ALL[p.to_index()]),
        }),
        chess::Action::OfferDraw(c) => Action::OfferDraw(Color::ALL[c.to_index()]),
        chess::Action::AcceptDraw => Action::AcceptDraw,
        chess::Action::DeclareDraw => Action::DeclareDraw,
        chess::Action::Resign(c) => Action::Resign(Color::ALL[c.to_index()]),
    }).collect()
}

/// `chess::Game::result`: checkmate or stalemate where the side to move has
/// no legal move, else what the last action says.
#[verifier::external_body]
pub(crate) fn engine_result(game: &chess::Game) -> (result: Option<GameResult>)
    requires
        starts_at_initial_position(*game),
    ensures
        result == result_given(
            legal_moves(moves_of(game_actions(*game))).len() == 0,
            in_check(moves_of(game_actions(*game))),
            game_actions(*game),
        ),
{
    game.result().map(|r| match r {
        chess::GameResult::WhiteCheckmates => GameResult::WhiteCheckmates,
        chess::GameResult::WhiteResigns => GameResult::WhiteResigns,
        chess::GameResult::BlackCheckmates => GameResult::BlackCheckmates,
        chess::GameResult::BlackResigns => GameResult::BlackResigns,
        chess::GameResult::Stalemate => GameResult::Stalemate,
        chess::GameResult::DrawAccepted => GameResult::DrawAccepted,
        chess::GameResult::DrawDeclared => GameResult::DrawDeclared,
    })
}

/// `chess::Game::can_declare_draw`: false once the game has a result, else
/// the engine's test for repetition and for the fifty-move rule.
#[verifier::external_body]
pub(crate) fn engine_can_declare_draw(game: &chess::Game) -> (claimable: bool)
    requires
        starts_at_initial_position(*game),
    ensures
        claimable == (result_of(game_actions(*game)).is_none() && draw_claimable(
            moves_of(game_actions(*game)),
        )),
{
    game.can_declare_draw()
}

/// `chess::Game::declare_draw`: appends the declaration where a draw can be
/// declared, and says whether it did.
#[verifier::external_body]
pub(crate) fn engine_declare_draw(game: &mut chess::Game) -> (declared: bool)
    requires
        starts_at_initial_position(*old(game)),
    ensures
        declared == (result_of(game_actions(*old(game))).is_none() && draw_claimable(
            moves_of(game_actions(*old(game))),
        )),
        game_actions(*final(game)) == if declared {
            game_actions(*old(game)).push(Action::DeclareDraw)
        } else {
            game_actions(*old(game))
        },
        starts_at_initial_position(*final(game)),
    no_unwind
{
    game.declare_draw()
}

/// `chess::MoveGen::new_legal` on `chess::Game::current_position`: the legal
/// moves of the side to move, each between two squares of the board.
#[verifier::external_body]
pub(crate) fn engine_legal_moves(game: &chess::Game) -> (moves: Vec<Move>)
    requires
        starts_at_initial_position(*game),
    ensures
        moves@ == legal_moves(moves_of(game_actions(*game))),
        forall|i: int| 0 <= i < moves@.len() ==> (#[trigger] moves@[i]).on_board(),
{
    chess::MoveGen::new_legal(&game.current_position()).map(|m| Move {
        source: m.get_source().to_int(),
        dest: m.get_dest().to_int(),
        promotion: m.get_promotion().map(|p| Piece::ALL[p.to_index()]),
    }).collect()
}

/// `chess::Game::current_position`, as the side to move and the position's
/// notation. White moves first and the sides alternate.
#[verifier::external_body]
pub(crate) fn engine_current_position(game: &chess::Game) -> (board: Board)
    requires
        starts_at_initial_position(*game),
    ensures
        board.side_to_move == side_to_move_after(moves_of(game_actions(*game))),
        board.fen@ == fen_after(moves_of(game_actions(*game))),
{
    let position = game.current_position();
    Board {
        side_to_move: Color::ALL[position.side_to_move().to_index()],
        fen: format!("{}", position),
    }
}

/// `chess::Game::make_move`: appends the move where the game has no result
/// and the move is among the legal ones, and says whether it did.
#[verifier::external_body]
pub(crate) fn engine_make_move(game: &mut chess::Game, mv: &Move) -> (made: bool)
    requires
        starts_at_initial_position(*old(game)),
        mv.on_board(),
    ensures
        made == (result_of(game_actions(*old(game))).is_none() && legal_moves(
            moves_of(game_actions(*old(game))),
        ).contains(*mv)),
        game_actions(*final(game)) == if made {
            game_actions(*old(game)).push(Action::MakeMove(*mv))
        } else {
            game_actions(*old(game))
        },
        starts_at_initial_position(*final(game)),
    no_unwind
{
    game.make_move(chess::ChessMove::new(
        chess::ALL_SQUARES[mv.source as usize],
        chess::ALL_SQUARES[mv.dest as usize],
        mv.promotion.map(|p| match p {
            Piece::Pawn => chess::Piece::Pawn,
            Piece::Knight => chess::Piece::Knight,
            Piece::Bishop => chess::Piece::Bishop,
            Piece::Rook => chess::Piece::Rook,
            Piece::Queen => chess::Piece::Queen,
            Piece::King => chess::Piece::King,
        }),
    ))
}

} // verus!
