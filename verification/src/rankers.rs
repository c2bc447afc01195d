//! Two rankers that look at nothing but the direction of a move: one likes to
//! advance towards the opponent, the other to retreat.

use vstd::prelude::*;
use crate::agent::{is_best_ranked, law_single_best_move_is_chosen, RankMove};
use crate::board::{law_mirror_negates_rank_shift, Board, Color, Move};

verus! {

/// The number of ranks that `mv` advances towards the opponent of `side`:
/// White advances by climbing, Black by descending.
pub open spec fn forward_shift(side: Color, mv: Move) -> int {
    match side {
        Color::White => mv.rank_shift(),
        Color::Black => -mv.rank_shift(),
    }
}

/// The number of ranks that `chess_move` advances towards the opponent of the
/// side to move.
fn oriented_shift(board: &Board, chess_move: &Move) -> (shift: i64)
    ensures
        shift == forward_shift(board.side_to_move, *chess_move),
{
    let rank_shift: i64 = chess_move.dest_rank() as i64 - chess_move.source_rank() as i64;
    match board.side_to_move {
        Color::White => rank_shift,
        Color::Black => -rank_shift,
    }
}

/// The ranker that prefers the move that advances furthest.
#[derive(Clone, Copy, Debug)]
pub struct MoveForward;

impl RankMove for MoveForward {
    open spec fn score(&self, board: Board, mv: Move) -> i64 {
        forward_shift(board.side_to_move, mv) as i64
    }

    fn rank_move(&mut self, board: &Board, chess_move: &Move) -> (rank: i64)
        ensures
            rank == forward_shift(board.side_to_move, *chess_move),
    {
        oriented_shift(board, chess_move)
    }
}

/// The ranker that prefers the move that retreats furthest.
#[derive(Clone, Copy, Debug)]
pub struct MoveBackward;

impl RankMove for MoveBackward {
    open spec fn score(&self, board: Board, mv: Move) -> i64 {
        (-forward_shift(board.side_to_move, mv)) as i64
    }

    fn rank_move(&mut self, board: &Board, chess_move: &Move) -> (rank: i64)
        ensures
            rank == -forward_shift(board.side_to_move, *chess_move),
    {
        -oriented_shift(board, chess_move)
    }
}

/// Where one move advances further than every other, `MoveForward` plays it.
pub proof fn law_furthest_advance_is_played(
    board: Board,
    moves: Seq<&Move>,
    furthest: int,
    chosen: &Move,
)
    requires
        0 <= furthest < moves.len(),
        forall|i: int|
            0 <= i < moves.len() && i != furthest ==> forward_shift(
                board.side_to_move,
                *#[trigger] moves[i],
            ) < forward_shift(board.side_to_move, *moves[furthest]),
        is_best_ranked(MoveForward, board, moves, chosen),
    ensures
        chosen == moves[furthest],
{
    law_single_best_move_is_chosen(MoveForward, board, moves, furthest, chosen);
}

/// Where one move retreats further than every other, `MoveBackward` plays
/// it.
pub proof fn law_furthest_retreat_is_played(
    board: Board,
    moves: Seq<&Move>,
    furthest: int,
    chosen: &Move,
)
    requires
        0 <= furthest < moves.len(),
        forall|i: int|
            0 <= i < moves.len() && i != furthest ==> forward_shift(
                board.side_to_move,
                *#[trigger] moves[i],
            ) > forward_shift(board.side_to_move, *moves[furthest]),
        is_best_ranked(MoveBackward, board, moves, chosen),
    ensures
        chosen == moves[furthest],
{
    law_single_best_move_is_chosen(MoveBackward, board, moves, furthest, chosen);
}

/// `mirrored` is `moves` seen from the other side of the board: as long, and
/// move for move the mirror image.
pub open spec fn is_mirror_image(moves: Seq<&Move>, mirrored: Seq<&Move>) -> bool {
    &&& mirrored.len() == moves.len()
    &&& forall|i: int|
        0 <= i < moves.len() ==> (#[trigger] moves[i]).on_board() && *mirrored[i]
            == moves[i].mirrored()
}

/// Where two rankers score two sequences of moves alike, position by
/// position, a position holds a best move of one exactly when it holds a best
/// move of the other.
proof fn lemma_equal_scores_equal_best<A: RankMove, B: RankMove>(
    first: A,
    first_board: Board,
    first_moves: Seq<&Move>,
    second: B,
    second_board: Board,
    second_moves: Seq<&Move>,
    i: int,
)
    requires
        first_moves.len() == second_moves.len(),
        0 <= i < first_moves.len(),
        forall|k: int|
            #![trigger first_moves[k]]
            #![trigger second_moves[k]]
            0 <= k < first_moves.len() ==> first.score(first_board, *first_moves[k])
                == second.score(second_board, *second_moves[k]),
    ensures
        is_best_ranked(first, first_board, first_moves, first_moves[i]) <==> is_best_ranked(
            second,
            second_board,
            second_moves,
            second_moves[i],
        ),
{
    assert(first_moves.contains(first_moves[i]));
    assert(second_moves.contains(second_moves[i]));
    if is_best_ranked(first, first_board, first_moves, first_moves[i]) {
        assert forall|k: int| 0 <= k < second_moves.len() implies second.score(
            second_board,
            *#[trigger] second_moves[k],
        ) <= second.score(second_board, *second_moves[i]) by {
            assert(first.score(first_board, *first_moves[k]) <= first.score(
                first_board,
                *first_moves[i],
            ));
        }
    }
    if is_best_ranked(second, second_board, second_moves, second_moves[i]) {
        assert forall|k: int| 0 <= k < first_moves.len() implies first.score(
            first_board,
            *#[trigger] first_moves[k],
        ) <= first.score(first_board, *first_moves[i]) by {
            assert(second.score(second_board, *second_moves[k]) <= second.score(
                second_board,
                *second_moves[i],
            ));
        }
    }
}

/// Where a ranker scores all the moves alike, each of them is a best move.
proof fn lemma_among_equals_all_are_best<R: RankMove>(
    ranker: R,
    board: Board,
    moves: Seq<&Move>,
    i: int,
)
    requires
        0 <= i < moves.len(),
        forall|k: int|
            0 <= k < moves.len() ==> ranker.score(board, *#[trigger] moves[k]) == ranker.score(
                board,
                *moves[i],
            ),
    ensures
        is_best_ranked(ranker, board, moves, moves[i]),
{
    assert(moves.contains(moves[i]));
}

/// What one ranker likes the other dislikes by as much.
pub proof fn law_backward_negates_forward(board: Board, mv: Move)
    ensures
        MoveBackward.score(board, mv) == -MoveForward.score(board, mv),
{
}

/// Forward means towards the opponent for either side: reflect the position
/// (the other side to move, every rank counted from the other end) and each
/// ranker scores the reflected move as it scored the move.
pub proof fn law_scores_survive_reflection(board: Board, reflected: Board, mv: Move)
    requires
        mv.on_board(),
        reflected.side_to_move == board.side_to_move.opponent(),
    ensures
        MoveForward.score(reflected, mv.mirrored()) == MoveForward.score(board, mv),
        MoveBackward.score(reflected, mv.mirrored()) == MoveBackward.score(board, mv),
{
    law_mirror_negates_rank_shift(mv);
}

/// Give the move to the other side, or mirror it, but not both, and the two
/// rankers change places.
pub proof fn law_half_reflection_exchanges_rankers(board: Board, reflected: Board, mv: Move)
    requires
        mv.on_board(),
        reflected.side_to_move == board.side_to_move.opponent(),
    ensures
        MoveForward.score(reflected, mv) == MoveBackward.score(board, mv),
        MoveBackward.score(reflected, mv) == MoveForward.score(board, mv),
        MoveForward.score(board, mv.mirrored()) == MoveBackward.score(board, mv),
        MoveBackward.score(board, mv.mirrored()) == MoveForward.score(board, mv),
{
    law_mirror_negates_rank_shift(mv);
}

/// On the reflected position one ranker scores the reflected move as the
/// other scores the move exactly when the move stays on its rank.
pub proof fn law_reflection_exchanges_rankers_on_level_moves(
    board: Board,
    reflected: Board,
    mv: Move,
)
    requires
        mv.on_board(),
        reflected.side_to_move == board.side_to_move.opponent(),
    ensures
        MoveForward.score(reflected, mv.mirrored()) == MoveBackward.score(board, mv)
            <==> mv.rank_shift() == 0,
        MoveBackward.score(reflected, mv.mirrored()) == MoveForward.score(board, mv)
            <==> mv.rank_shift() == 0,
{
    law_mirror_negates_rank_shift(mv);
}

/// A ranker's best moves on the reflected position are the reflections of
/// its best moves.
pub proof fn law_best_moves_survive_reflection(
    board: Board,
    reflected: Board,
    moves: Seq<&Move>,
    mirrored: Seq<&Move>,
    i: int,
)
    requires
        reflected.side_to_move == board.side_to_move.opponent(),
        is_mirror_image(moves, mirrored),
        0 <= i < moves.len(),
    ensures
        is_best_ranked(MoveForward, reflected, mirrored, mirrored[i]) <==> is_best_ranked(
            MoveForward,
            board,
            moves,
            moves[i],
        ),
        is_best_ranked(MoveBackward, reflected, mirrored, mirrored[i]) <==> is_best_ranked(
            MoveBackward,
            board,
            moves,
            moves[i],
        ),
{
    assert forall|k: int| 0 <= k < moves.len() implies MoveForward.score(reflected, *mirrored[k])
        == MoveForward.score(board, *moves[k]) && MoveBackward.score(reflected, *mirrored[k])
        == MoveBackward.score(board, *moves[k]) by {
        law_scores_survive_reflection(board, reflected, *moves[k]);
    }
    lemma_equal_scores_equal_best(MoveForward, reflected, mirrored, MoveForward, board, moves, i);
    lemma_equal_scores_equal_best(MoveBackward, reflected, mirrored, MoveBackward, board, moves, i);
}

/// Where all the moves advance by the same number of ranks, the best moves of
/// one ranker on the reflected position are the reflections of the best moves
/// of the other.
pub proof fn law_reflection_exchanges_best_moves_among_equals(
    board: Board,
    reflected: Board,
    moves: Seq<&Move>,
    mirrored: Seq<&Move>,
    i: int,
)
    requires
        reflected.side_to_move == board.side_to_move.opponent(),
        is_mirror_image(moves, mirrored),
        0 <= i < moves.len(),
        forall|j: int, k: int|
            0 <= j < moves.len() && 0 <= k < moves.len() ==> (#[trigger] moves[j]).rank_shift()
                == (#[trigger] moves[k]).rank_shift(),
    ensures
        is_best_ranked(MoveForward, reflected, mirrored, mirrored[i]) <==> is_best_ranked(
            MoveBackward,
            board,
            moves,
            moves[i],
        ),
        is_best_ranked(MoveBackward, reflected, mirrored, mirrored[i]) <==> is_best_ranked(
            MoveForward,
            board,
            moves,
            moves[i],
        ),
{
    assert forall|k: int| 0 <= k < moves.len() implies moves[k].rank_shift()
        == moves[i].rank_shift() && #[trigger] mirrored[k].rank_shift()
        == mirrored[i].rank_shift() by {
        law_mirror_negates_rank_shift(*moves[k]);
        law_mirror_negates_rank_shift(*moves[i]);
    }
    lemma_among_equals_all_are_best(MoveForward, reflected, mirrored, i);
    lemma_among_equals_all_are_best(MoveBackward, reflected, mirrored, i);
    lemma_among_equals_all_are_best(MoveForward, board, moves, i);
    lemma_among_equals_all_are_best(MoveBackward, board, moves, i);
}

} // verus!
