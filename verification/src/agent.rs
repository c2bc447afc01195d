//! Agents: strategies that choose one of the legal moves. A ranker scores
//! single moves and becomes an agent that plays a move of the highest score,
//! with ties broken at random.

use vstd::prelude::*;
use crate::board::{Board, Move};
use crate::chance::{random_tiebreak, shuffle_moves};

verus! {

/// A strategy that selects one move from the legal moves of a position.
pub trait Agent: std::fmt::Debug + Clone {
    /// Chooses one of `moves`, which must not be empty.
    fn pick_move<'moves>(&mut self, board: &Board, moves: Vec<&'moves Move>) -> (chosen:
        &'moves Move)
        requires
            moves@.len() > 0,
        ensures
            moves@.contains(chosen),
    ;
}

/// A strategy that scores a single move in a position.
pub trait RankMove: std::fmt::Debug + Clone {
    /// The score that this ranker gives to `mv` in the position `board`. It
    /// depends on the position and the move alone.
    spec fn score(&self, board: Board, mv: Move) -> i64;

    /// Scores `chess_move`. Whatever the ranker notes for itself while doing
    /// so, the scores it gives stay the same.
    fn rank_move(&mut self, board: &Board, chess_move: &Move) -> (rank: i64)
        ensures
            rank == old(self).score(*board, *chess_move),
            forall|b: Board, m: Move| #[trigger] final(self).score(b, m) == old(self).score(b, m),
    ;
}

/// Whether `chosen` is one of `moves` and no move among them scores higher
/// with `ranker` in the position `board`.
pub open spec fn is_best_ranked<R: RankMove>(
    ranker: R,
    board: Board,
    moves: Seq<&Move>,
    chosen: &Move,
) -> bool {
    &&& moves.contains(chosen)
    &&& forall|i: int|
        0 <= i < moves.len() ==> ranker.score(board, *#[trigger] moves[i]) <= ranker.score(
            board,
            *chosen,
        )
}

/// Where one move scores higher than every other, that move is the best
/// ranked.
pub proof fn law_single_best_move_is_chosen<R: RankMove>(
    ranker: R,
    board: Board,
    moves: Seq<&Move>,
    best: int,
    chosen: &Move,
)
    requires
        0 <= best < moves.len(),
        forall|i: int|
            0 <= i < moves.len() && i != best ==> ranker.score(board, *#[trigger] moves[i])
                < ranker.score(board, *moves[best]),
        is_best_ranked(ranker, board, moves, chosen),
    ensures
        chosen == moves[best],
{
    let i = choose|i: int| 0 <= i < moves.len() && moves[i] == chosen;
    assert(ranker.score(board, *moves[best]) <= ranker.score(board, *chosen));
}

/// The order of composite keys: by rank first, by tiebreak among equal ranks.
pub open spec fn key_le(a: (i64, i64), b: (i64, i64)) -> bool {
    a.0 < b.0 || (a.0 == b.0 && a.1 <= b.1)
}

/// Whether `best` is the position that an ascending stable sort of `keys`
/// would put last: no key is greater than the one at `best`, and no key after
/// it is equal to it.
pub open spec fn is_last_greatest(keys: Seq<(i64, i64)>, best: int) -> bool {
    &&& 0 <= best < keys.len()
    &&& forall|i: int| 0 <= i < keys.len() ==> key_le(#[trigger] keys[i], keys[best])
    &&& forall|i: int| best < i < keys.len() ==> #[trigger] keys[i] != keys[best]
}

/// Whether `order` lists the positions of `keys` as an ascending stable sort
/// leaves them: every position once, keys ascending, and positions of equal
/// keys in their first order.
pub open spec fn is_stable_ascending_order(keys: Seq<(i64, i64)>, order: Seq<int>) -> bool {
    &&& order.len() == keys.len()
    &&& forall|p: int| 0 <= p < order.len() ==> 0 <= #[trigger] order[p] < keys.len()
    &&& forall|i: int| 0 <= i < keys.len() ==> #[trigger] order.contains(i)
    &&& forall|p: int, q: int|
        0 <= p < q < order.len() ==> key_le(keys[#[trigger] order[p]], keys[#[trigger] order[q]])
    &&& forall|p: int, q: int|
        0 <= p < q < order.len() && keys[#[trigger] order[p]] == keys[#[trigger] order[q]]
            ==> order[p] < order[q]
}

/// Sort the keys ascending, keeping equal keys in their order, and the key
/// that comes last is the one that `select_best` finds.
pub proof fn law_best_is_last_in_sorted_order(keys: Seq<(i64, i64)>, order: Seq<int>, best: int)
    requires
        is_stable_ascending_order(keys, order),
        is_last_greatest(keys, best),
    ensures
        order.last() == best,
{
    let last = order.len() - 1;
    let winner = order[last];
    assert(order.contains(best));
    let p = choose|p: int| 0 <= p < order.len() && order[p] == best;
    assert(key_le(keys[winner], keys[best]));
    if p < last {
        assert(key_le(keys[order[p]], keys[order[last]]));
        assert(keys[winner] == keys[best]);
        assert(order[p] < order[last]);
    }
}

/// The position of the greatest composite key; of the last one where
/// several are equal and greatest.
pub fn select_best(keys: &Vec<(i64, i64)>) -> (best: usize)
    requires
        keys@.len() > 0,
    ensures
        is_last_greatest(keys@, best as int),
{
    let mut best: usize = 0;
    let mut i: usize = 1;
    while i < keys.len()
        invariant
            1 <= i <= keys@.len(),
            is_last_greatest(keys@.take(i as int), best as int),
        decreases keys@.len() - i,
    {
        let candidate = keys[i];
        let leader = keys[best];
        let ghost seen = keys@.take(i as int);
        let ghost grown = keys@.take(i + 1);
        proof {
            assert forall|j: int| 0 <= j < i implies #[trigger] grown[j] == seen[j] by {}
        }
        if candidate.0 > leader.0 || (candidate.0 == leader.0 && candidate.1 >= leader.1) {
            proof {
                assert forall|j: int| 0 <= j < grown.len() implies key_le(
                    #[trigger] grown[j],
                    grown[i as int],
                ) by {
                    if j < i {
                        assert(key_le(seen[j], seen[best as int]));
                    }
                }
            }
            best = i;
        } else {
            proof {
                assert forall|j: int| 0 <= j < grown.len() implies key_le(
                    #[trigger] grown[j],
                    grown[best as int],
                ) by {
                    if j < i {
                        assert(key_le(seen[j], seen[best as int]));
                    }
                }
                assert forall|j: int| best < j < grown.len() implies #[trigger] grown[j]
                    != grown[best as int] by {
                    if j < i {
                        assert(seen[j] != seen[best as int]);
                    }
                }
            }
        }
        i += 1;
    }
    proof {
        assert(keys@.take(keys@.len() as int) =~= keys@);
    }
    best
}

/// Two sequences that hold the same moves, each as often, are of one length
/// and each move of one is a move of the other.
proof fn lemma_same_moves(given: Seq<&Move>, shuffled: Seq<&Move>)
    requires
        shuffled.to_multiset() == given.to_multiset(),
    ensures
        shuffled.len() == given.len(),
        forall|m: &Move| shuffled.contains(m) <==> given.contains(m),
{
    given.to_multiset_ensures();
    shuffled.to_multiset_ensures();
    assert forall|m: &Move| shuffled.contains(m) <==> given.contains(m) by {
        assert(shuffled.contains(m) <==> shuffled.to_multiset().count(m) > 0);
        assert(given.contains(m) <==> given.to_multiset().count(m) > 0);
    }
}

/// Every ranker is an agent: it plays a move of the highest score.
///
/// The moves are shuffled, each gets a composite key of its score and a
/// random tiebreak, and the move with the greatest key is played.
impl<T: RankMove> Agent for T {
    fn pick_move<'moves>(&mut self, board: &Board, moves: Vec<&'moves Move>) -> (chosen:
        &'moves Move)
        ensures
            is_best_ranked(*old(self), *board, moves@, chosen),
            forall|b: Board, m: Move| #[trigger] final(self).score(b, m) == old(self).score(b, m),
    {
        let ghost given = moves@;
        let mut moves = moves;
        shuffle_moves(&mut moves);
        proof {
            lemma_same_moves(given, moves@);
        }
        let mut keys: Vec<(i64, i64)> = Vec::new();
        let mut i: usize = 0;
        while i < moves.len()
            invariant
                i <= moves@.len(),
                keys@.len() == i,
                forall|j: int|
                    0 <= j < i ==> (#[trigger] keys@[j]).0 == old(self).score(*board, *moves@[j]),
                forall|b: Board, m: Move| #[trigger] self.score(b, m) == old(self).score(b, m),
            decreases moves@.len() - i,
        {
            let rank = self.rank_move(board, moves[i]);
            let tiebreak = random_tiebreak();
            keys.push((rank, tiebreak));
            i += 1;
        }
        let best = select_best(&keys);
        let chosen = moves[best];
        proof {
            assert(moves@.contains(chosen));
            assert forall|k: int| 0 <= k < given.len() implies old(self).score(
                *board,
                *#[trigger] given[k],
            ) <= old(self).score(*board, *chosen) by {
                assert(given.contains(given[k]));
                let j = choose|j: int| 0 <= j < moves@.len() && moves@[j] == given[k];
                assert(key_le(keys@[j], keys@[best as int]));
            }
        }
        chosen
    }
}

/// The agent that plays any legal move, each with the same chance.
#[derive(Clone, Copy, Debug)]
pub struct RandomAgent;

impl Agent for RandomAgent {
    fn pick_move<'moves>(&mut self, board: &Board, moves: Vec<&'moves Move>) -> (chosen:
        &'moves Move) {
        let ghost given = moves@;
        let mut moves = moves;
        shuffle_moves(&mut moves);
        proof {
            lemma_same_moves(given, moves@);
        }
        let chosen = moves[0];
        proof {
            assert(moves@.contains(chosen));
        }
        chosen
    }
}

} // verus!
