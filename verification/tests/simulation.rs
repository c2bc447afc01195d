use chess_arena::agent::{Agent, RandomAgent};
use chess_arena::board::{Board, Color, Move};
use chess_arena::game::{Action, GameResult, GameState};
use chess_arena::rankers::{MoveBackward, MoveForward};
use chess_arena::simulator::{next_step, play_game, play_on, NextStep, PLY_LIMIT};
use chess_arena::tournament::{play_n_games, score_game, Tally};

const RESULTS: [GameResult; 7] = [
    GameResult::WhiteCheckmates,
    GameResult::WhiteResigns,
    GameResult::BlackCheckmates,
    GameResult::BlackResigns,
    GameResult::Stalemate,
    GameResult::DrawAccepted,
    GameResult::DrawDeclared,
];

fn at(name: &str) -> u8 {
    let bytes = name.as_bytes();
    (bytes[1] - b'1') * 8 + (bytes[0] - b'a')
}

fn ply(text: &str) -> Move {
    Move::new(at(&text[0..2]), at(&text[2..4]), None)
}

fn game_of(line: &[&str]) -> GameState {
    let mut game = GameState::new();
    for text in line {
        assert!(game.make_move(&ply(text)), "{} was refused", text);
    }
    game
}

/// Replays a finished game and checks every step against the engine.
fn check_record(start: usize, end: &GameState, result: GameResult) -> usize {
    let actions = end.actions();
    let mut replay = GameState::new();
    let mut moves = 0;
    for (k, action) in actions.iter().enumerate() {
        match action {
            Action::MakeMove(mv) => {
                if k >= start {
                    assert_eq!(replay.result(), None);
                    assert!(!replay.can_declare_draw());
                    let legal = replay.legal_moves();
                    assert!(!legal.is_empty());
                    assert!(legal.contains(mv));
                    let mover = if moves % 2 == 0 { Color::White } else { Color::Black };
                    assert_eq!(replay.current_position().side_to_move, mover);
                }
                assert!(replay.make_move(mv));
                moves += 1;
            }
            Action::DeclareDraw => {
                assert!(k >= start);
                assert_eq!(k, actions.len() - 1);
                assert!(replay.can_declare_draw());
                assert!(replay.declare_draw());
            }
            other => panic!("the simulator does not take {:?}", other),
        }
    }
    assert_eq!(replay.actions(), actions);
    assert!(actions.len() - start <= PLY_LIMIT + 1);
    assert_eq!(end.result(), Some(result));
    moves
}

#[derive(Clone, Debug)]
struct Unasked;

impl Agent for Unasked {
    fn pick_move<'moves>(&mut self, _board: &Board, _moves: Vec<&'moves Move>) -> &'moves Move {
        panic!("no agent is asked once the game is over")
    }
}

#[derive(Clone, Debug)]
struct FirstListed {
    side: Color,
    asked: usize,
}

impl Agent for FirstListed {
    fn pick_move<'moves>(&mut self, board: &Board, moves: Vec<&'moves Move>) -> &'moves Move {
        assert_eq!(board.side_to_move, self.side);
        assert!(!moves.is_empty());
        self.asked += 1;
        moves[0]
    }
}

#[derive(Clone, Debug)]
struct TwoLines {
    as_white: Vec<Move>,
    as_black: Vec<Move>,
    next: usize,
}

impl Agent for TwoLines {
    fn pick_move<'moves>(&mut self, board: &Board, moves: Vec<&'moves Move>) -> &'moves Move {
        let wanted = match board.side_to_move {
            Color::White => self.as_white[self.next],
            Color::Black => self.as_black[self.next],
        };
        self.next += 1;
        moves.into_iter().find(|m| **m == wanted).expect("the scripted move is legal")
    }
}

#[derive(Clone, Debug)]
struct Scripted {
    line: Vec<Move>,
    next: usize,
}

impl Agent for Scripted {
    fn pick_move<'moves>(&mut self, _board: &Board, moves: Vec<&'moves Move>) -> &'moves Move {
        let wanted = self.line[self.next];
        self.next += 1;
        moves.into_iter().find(|m| **m == wanted).expect("the scripted move is legal")
    }
}

#[test]
fn a_game_of_random_moves_ends_with_a_result() {
    let (result, end) = play_on(GameState::new(), RandomAgent, RandomAgent);
    assert!(RESULTS.contains(&result));
    let moves = check_record(0, &end, result);
    assert!(moves <= PLY_LIMIT);
    assert!(moves >= 4);
}

#[test]
fn play_game_gives_one_of_the_results() {
    let result = play_game(RandomAgent, RandomAgent);
    assert!(RESULTS.contains(&result));
    assert!(!matches!(
        result,
        GameResult::WhiteResigns | GameResult::BlackResigns | GameResult::DrawAccepted
    ));
}

#[test]
fn a_finished_game_is_reported_without_asking_an_agent() {
    let mated = game_of(&["f2f3", "e7e5", "g2g4", "d8h4"]);
    let (result, end) = play_on(mated, Unasked, Unasked);
    assert_eq!(result, GameResult::BlackCheckmates);
    assert_eq!(end.actions().len(), 4);
    assert!(end.legal_moves().is_empty());
}

#[test]
fn a_stalemate_is_reported_without_asking_an_agent() {
    let stuck = game_of(&[
        "e2e3", "a7a5", "d1h5", "a8a6", "h5a5", "h7h5", "h2h4", "a6h6", "a5c7", "f7f6", "c7d7",
        "e8f7", "d7b7", "d8d3", "b7b8", "d3h7", "b8c8", "f7g6", "c8e6",
    ]);
    let (result, end) = play_on(stuck, Unasked, Unasked);
    assert_eq!(result, GameResult::Stalemate);
    assert_eq!(end.actions().len(), 19);
}

#[test]
fn a_draw_is_declared_as_soon_as_it_can_be() {
    let repeated = game_of(&[
        "b1c3", "g8f6", "c3b1", "f6g8", "b1c3", "g8f6", "c3b1", "f6g8",
    ]);
    let (result, end) = play_on(repeated, Unasked, Unasked);
    assert_eq!(result, GameResult::DrawDeclared);
    assert_eq!(end.actions().len(), 9);
    assert_eq!(end.actions()[8], Action::DeclareDraw);
    assert_eq!(end.result(), Some(GameResult::DrawDeclared));
}

#[test]
fn a_declared_draw_is_reported_again() {
    let mut drawn = game_of(&[
        "b1c3", "g8f6", "c3b1", "f6g8", "b1c3", "g8f6", "c3b1", "f6g8",
    ]);
    assert!(drawn.declare_draw());
    let (result, end) = play_on(drawn, Unasked, Unasked);
    assert_eq!(result, GameResult::DrawDeclared);
    assert_eq!(end.actions().len(), 9);
}

#[test]
fn scripted_agents_play_the_scholars_mate() {
    let white = Scripted { line: vec![ply("e2e4"), ply("d1h5"), ply("f1c4"), ply("h5f7")], next: 0 };
    let black = Scripted { line: vec![ply("e7e5"), ply("b8c6"), ply("g8f6")], next: 0 };
    let (result, end) = play_on(GameState::new(), white, black);
    assert_eq!(result, GameResult::WhiteCheckmates);
    assert_eq!(check_record(0, &end, result), 7);
    assert_eq!(end.actions()[6], Action::MakeMove(ply("h5f7")));
}

#[test]
fn scripted_agents_play_the_fools_mate_from_the_second_move() {
    let white = Scripted { line: vec![ply("g2g4")], next: 0 };
    let black = Scripted { line: vec![ply("d8h4")], next: 0 };
    let (result, end) = play_on(game_of(&["f2f3", "e7e5"]), white, black);
    assert_eq!(result, GameResult::BlackCheckmates);
    assert_eq!(check_record(2, &end, result), 4);
}

#[test]
fn each_agent_moves_for_its_own_side() {
    let white = FirstListed { side: Color::White, asked: 0 };
    let black = FirstListed { side: Color::Black, asked: 0 };
    let (result, end) = play_on(GameState::new(), white, black);
    assert!(RESULTS.contains(&result));
    check_record(0, &end, result);
}

#[test]
fn first_listed_moves_give_the_same_game_every_time() {
    let play = || {
        let white = FirstListed { side: Color::White, asked: 0 };
        let black = FirstListed { side: Color::Black, asked: 0 };
        play_on(GameState::new(), white, black)
    };
    let (first_result, first_end) = play();
    let (second_result, second_end) = play();
    assert_eq!(first_result, second_result);
    assert_eq!(first_end.actions(), second_end.actions());
}

#[test]
fn rankers_play_whole_games() {
    let (result, end) = play_on(GameState::new(), MoveForward, MoveBackward);
    check_record(0, &end, result);
    let (result, end) = play_on(GameState::new(), MoveBackward, RandomAgent);
    check_record(0, &end, result);
}

#[test]
fn forward_opens_with_a_double_step() {
    let (_, end) = play_on(GameState::new(), MoveForward, MoveForward);
    let actions = end.actions();
    match (actions[0], actions[1]) {
        (Action::MakeMove(first), Action::MakeMove(second)) => {
            assert_eq!(first.dest_rank() as i32 - first.source_rank() as i32, 2);
            assert_eq!(second.dest_rank() as i32 - second.source_rank() as i32, -2);
        }
        other => panic!("the game opened with {:?}", other),
    }
}

#[test]
fn a_win_counts_two_a_draw_one_a_loss_nothing() {
    assert_eq!(score_game(GameResult::WhiteCheckmates, true), 2);
    assert_eq!(score_game(GameResult::WhiteResigns, true), 0);
    assert_eq!(score_game(GameResult::BlackCheckmates, true), 0);
    assert_eq!(score_game(GameResult::BlackResigns, true), 2);
    assert_eq!(score_game(GameResult::Stalemate, true), 1);
    assert_eq!(score_game(GameResult::DrawAccepted, true), 1);
    assert_eq!(score_game(GameResult::DrawDeclared, true), 1);
    assert_eq!(score_game(GameResult::WhiteCheckmates, false), 0);
    assert_eq!(score_game(GameResult::WhiteResigns, false), 2);
    assert_eq!(score_game(GameResult::BlackCheckmates, false), 2);
    assert_eq!(score_game(GameResult::BlackResigns, false), 0);
    assert_eq!(score_game(GameResult::Stalemate, false), 1);
    assert_eq!(score_game(GameResult::DrawAccepted, false), 1);
    assert_eq!(score_game(GameResult::DrawDeclared, false), 1);
}

#[test]
fn a_game_is_worth_two_half_points_to_the_two_players() {
    for result in RESULTS {
        assert_eq!(score_game(result, true) + score_game(result, false), 2);
    }
}

#[test]
fn an_empty_tally_has_no_games_and_no_points() {
    let tally = Tally::new();
    assert_eq!(tally.games(), 0);
    assert_eq!(tally.half_points(), 0);
    assert!(tally.results().is_empty());
}

#[test]
fn the_tally_changes_sides_after_every_game() {
    let tally = Tally::new()
        .with(GameResult::WhiteCheckmates)
        .with(GameResult::WhiteCheckmates)
        .with(GameResult::DrawDeclared)
        .with(GameResult::BlackCheckmates)
        .with(GameResult::BlackResigns);
    assert_eq!(tally.games(), 5);
    assert_eq!(tally.half_points(), 2 + 0 + 1 + 2 + 2);
    assert_eq!(
        tally.results(),
        &vec![
            GameResult::WhiteCheckmates,
            GameResult::WhiteCheckmates,
            GameResult::DrawDeclared,
            GameResult::BlackCheckmates,
            GameResult::BlackResigns,
        ]
    );
}

#[test]
fn white_winning_every_game_shares_the_points() {
    let mut tally = Tally::new();
    for _ in 0..10 {
        tally = tally.with(GameResult::WhiteCheckmates);
    }
    assert_eq!(tally.half_points(), 10);
    assert_eq!(tally.half_points() as f64 / (2.0 * tally.games() as f64), 0.5);
}

#[test]
fn a_series_of_no_games_is_empty() {
    let tally = play_n_games(0, RandomAgent, RandomAgent);
    assert_eq!(tally.games(), 0);
    assert_eq!(tally.half_points(), 0);
}

#[test]
fn a_series_alternates_the_sides_of_scripted_players() {
    let winner = TwoLines {
        as_white: vec![ply("e2e4"), ply("d1h5"), ply("f1c4"), ply("h5f7")],
        as_black: vec![ply("e7e5"), ply("d8h4")],
        next: 0,
    };
    let loser = TwoLines {
        as_white: vec![ply("f2f3"), ply("g2g4")],
        as_black: vec![ply("e7e5"), ply("b8c6"), ply("g8f6")],
        next: 0,
    };
    let tally = play_n_games(2, winner.clone(), loser.clone());
    assert_eq!(tally.results(), &vec![GameResult::WhiteCheckmates, GameResult::BlackCheckmates]);
    assert_eq!(tally.half_points(), 4);
    let tally = play_n_games(3, loser, winner);
    assert_eq!(
        tally.results(),
        &vec![
            GameResult::BlackCheckmates,
            GameResult::WhiteCheckmates,
            GameResult::BlackCheckmates,
        ]
    );
    assert_eq!(tally.half_points(), 0);
}

#[test]
fn a_series_gives_each_game_fresh_agents() {
    let one = FirstListed { side: Color::White, asked: 0 };
    let two = FirstListed { side: Color::Black, asked: 0 };
    let tally = play_n_games(1, one.clone(), two.clone());
    assert_eq!(tally.games(), 1);
    assert_eq!(one.asked, 0);
    assert_eq!(two.asked, 0);
}

#[test]
fn a_player_against_itself_wins_about_half() {
    let tally = play_n_games(100, MoveForward, MoveForward);
    assert_eq!(tally.games(), 100);
    assert_eq!(tally.results().len(), 100);
    let rate = tally.half_points() as f64 / (2.0 * tally.games() as f64);
    assert!(rate >= 0.0 && rate <= 1.0);
    assert!((rate - 0.5).abs() < 0.2, "the rate was {}", rate);
}

#[test]
fn a_result_comes_before_everything_else() {
    for result in RESULTS {
        for claimable in [false, true] {
            for side in [Color::White, Color::Black] {
                assert_eq!(next_step(Some(result), claimable, side), NextStep::Report(result));
            }
        }
    }
}

#[test]
fn a_draw_is_declared_before_a_move_is_asked_for() {
    assert_eq!(next_step(None, true, Color::White), NextStep::DeclareDraw);
    assert_eq!(next_step(None, true, Color::Black), NextStep::DeclareDraw);
}

#[test]
fn the_side_to_move_is_asked_in_an_open_game() {
    assert_eq!(next_step(None, false, Color::White), NextStep::Ask(Color::White));
    assert_eq!(next_step(None, false, Color::Black), NextStep::Ask(Color::Black));
}

#[test]
fn the_ply_limit_is_above_the_longest_game() {
    assert_eq!(PLY_LIMIT, (96 + 30 + 4) + (96 + 30 + 4 + 1) * 100);
}
