//! A series of games between two players who change sides after every game,
//! and its tally in half points: two for a win, one for a draw, none for a
//! loss.

use vstd::prelude::*;
use crate::agent::Agent;
use crate::game::GameResult;
use crate::simulator::{is_result_of_a_game, play_game};

verus! {

/// Whether the first player has the white pieces in the game with this
/// index: in the first game and then in every other one.
pub open spec fn first_player_is_white(game_index: int) -> bool {
    game_index % 2 == 0
}

/// The half points that a result is worth to the first player: two where
/// that player's side won, one for any draw, none where it lost.
pub open spec fn half_points(result: GameResult, first_player_is_white: bool) -> nat {
    match result {
        GameResult::WhiteCheckmates | GameResult::BlackResigns => if first_player_is_white {
            2
        } else {
            0
        },
        GameResult::BlackCheckmates | GameResult::WhiteResigns => if first_player_is_white {
            0
        } else {
            2
        },
        GameResult::Stalemate | GameResult::DrawAccepted | GameResult::DrawDeclared => 1,
    }
}

/// The half points of the first player over a series with these results,
/// the players changing sides after every game.
pub open spec fn total_half_points(results: Seq<GameResult>) -> nat
    decreases results.len(),
{
    if results.len() == 0 {
        0
    } else {
        total_half_points(results.drop_last()) + half_points(
            results.last(),
            first_player_is_white(results.len() - 1),
        )
    }
}

/// The half points that `result` is worth to the first player.
pub fn score_game(result: GameResult, first_player_is_white: bool) -> (points: u64)
    ensures
        points == half_points(result, first_player_is_white),
{
    match result {
        GameResult::WhiteCheckmates | GameResult::BlackResigns => if first_player_is_white {
            2
        } else {
            0
        },
        GameResult::BlackCheckmates | GameResult::WhiteResigns => if first_player_is_white {
            0
        } else {
            2
        },
        GameResult::Stalemate | GameResult::DrawAccepted | GameResult::DrawDeclared => 1,
    }
}

/// What a result gives to one player it takes from the other: seen from the
/// two sides, the half points of a game add up to two.
pub proof fn law_a_game_is_worth_two_half_points(result: GameResult)
    ensures
        half_points(result, true) + half_points(result, false) == 2,
{
}

/// The first player's share lies between nothing and everything: at most two
/// half points a game.
pub proof fn law_total_is_at_most_two_a_game(results: Seq<GameResult>)
    ensures
        total_half_points(results) <= 2 * results.len(),
    decreases results.len(),
{
    if results.len() > 0 {
        law_total_is_at_most_two_a_game(results.drop_last());
    }
}

/// Changing sides cancels what the colours are worth: where the two games of
/// every pair end alike, the first player gets half of the half points,
/// whatever White's advantage.
pub proof fn law_changing_sides_cancels_the_colours(results: Seq<GameResult>)
    requires
        results.len() % 2 == 0,
        forall|k: int|
            0 <= k && 2 * k + 1 < results.len() ==> #[trigger] results[2 * k] == results[2 * k
                + 1],
    ensures
        total_half_points(results) == results.len(),
    decreases results.len(),
{
    if results.len() > 0 {
        let n = results.len() as int;
        let once = results.drop_last();
        let twice = once.drop_last();
        assert forall|k: int| 0 <= k && 2 * k + 1 < twice.len() implies #[trigger] twice[2 * k]
            == twice[2 * k + 1] by {
            assert(results[2 * k] == results[2 * k + 1]);
        }
        law_changing_sides_cancels_the_colours(twice);
        let k = (n - 2) / 2;
        assert(results[2 * k] == results[2 * k + 1]);
        assert(once.last() == results[n - 2]);
        assert(first_player_is_white(n - 2) && !first_player_is_white(n - 1));
        assert(total_half_points(once) == total_half_points(twice) + half_points(
            once.last(),
            true,
        ));
        assert(total_half_points(results) == total_half_points(once) + half_points(
            results.last(),
            false,
        ));
        law_a_game_is_worth_two_half_points(results[n - 1]);
    }
}

/// A series of drawn games gives the first player half of the half points.
pub proof fn law_all_draws_share_evenly(results: Seq<GameResult>)
    requires
        forall|i: int|
            0 <= i < results.len() ==> half_points(#[trigger] results[i], true) == 1,
    ensures
        total_half_points(results) == results.len(),
    decreases results.len(),
{
    if results.len() > 0 {
        let earlier = results.drop_last();
        assert forall|i: int| 0 <= i < earlier.len() implies half_points(
            #[trigger] earlier[i],
            true,
        ) == 1 by {
            assert(earlier[i] == results[i]);
        }
        law_all_draws_share_evenly(earlier);
        assert(half_points(results[results.len() - 1], true) == 1);
    }
}

/// The results of a series of games, in the order they were played.
#[derive(Debug)]
pub struct Tally {
    results: Vec<GameResult>,
}

impl View for Tally {
    type V = Seq<GameResult>;

    /// The results of the games, in the order they were played.
    closed spec fn view(&self) -> Seq<GameResult> {
        self.results@
    }
}

impl Tally {
    #[verifier::type_invariant]
    spec fn countable(self) -> bool {
        self.results@.len() <= u32::MAX
    }

    /// The tally of a series in which no game has been played.
    pub fn new() -> (tally: Tally)
        ensures
            tally@ == Seq::<GameResult>::empty(),
    {
        Tally { results: Vec::new() }
    }

    /// The tally with the result of the next game of the series added.
    pub fn with(self, result: GameResult) -> (tally: Tally)
        requires
            self@.len() < u32::MAX,
        ensures
            tally@ == self@.push(result),
    {
        let mut results = self.results;
        results.push(result);
        Tally { results }
    }

    /// The number of games played.
    pub fn games(&self) -> (n: u32)
        ensures
            n == self@.len(),
    {
        proof {
            use_type_invariant(self);
        }
        self.results.len() as u32
    }

    /// The results of the games, in the order they were played.
    pub fn results(&self) -> (results: &Vec<GameResult>)
        ensures
            results@ == self@,
    {
        &self.results
    }

    /// The first player's half points: two for each win and one for each
    /// draw. Divided by twice the number of games it is the first player's
    /// rate of success, from 0 to 1.
    pub fn half_points(&self) -> (points: u64)
        ensures
            points == total_half_points(self@),
            points <= 2 * self@.len(),
    {
        proof {
            use_type_invariant(self);
        }
        let mut points: u64 = 0;
        let mut i: usize = 0;
        while i < self.results.len()
            invariant
                i <= self.results@.len() <= u32::MAX,
                points == total_half_points(self.results@.take(i as int)),
                points <= 2 * i,
            decreases self.results@.len() - i,
        {
            proof {
                assert(self.results@.take(i + 1).drop_last() =~= self.results@.take(i as int));
            }
            points += score_game(self.results[i], i % 2 == 0);
            i += 1;
        }
        proof {
            assert(self.results@.take(i as int) =~= self.results@);
        }
        points
    }
}

/// Plays `n` games between two players and returns the tally of the first.
///
/// The first player has the white pieces in the first game and the players
/// change sides after every game. Each game is played by fresh copies of the
/// two agents.
pub fn play_n_games<P1: Agent, P2: Agent>(n: u32, player_one: P1, player_two: P2) -> (tally: Tally)
    ensures
        tally@.len() == n,
        forall|i: int| 0 <= i < n ==> is_result_of_a_game(#[trigger] tally@[i]),
{
    let mut tally = Tally::new();
    let mut i: u32 = 0;
    while i < n
        invariant
            i <= n,
            tally@.len() == i,
            forall|k: int| 0 <= k < i ==> is_result_of_a_game(#[trigger] tally@[k]),
        decreases n - i,
    {
        let one = player_one.clone();
        let two = player_two.clone();
        let result = if i % 2 == 0 {
            play_game(one, two)
        } else {
            play_game(two, one)
        };
        tally = tally.with(result);
        i += 1;
    }
    tally
}

} // verus!
