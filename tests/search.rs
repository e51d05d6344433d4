use tafl::ai::{minimax, scored_move, AIKind, AIPlayer};
use tafl::game::{Board, Game, PieceType, Tile};

fn new_game(board: Board) -> Game {
    Game {
        board,
        defenders_turn: true,
        game_over: false,
        defender_won: false,
    }
}

fn take_minimax_turn(mut game: Game, depth: u32, defenders_turn: bool) -> Game {
    let ai = AIPlayer {
        kind: AIKind::Minimax(depth),
    };
    game.defenders_turn = defenders_turn;
    let (src, dest) = ai.take_turn(&game);
    game.gen_next(src, dest)
}

fn run_defender_only(mut game: Game, depth: u32, turns: i32) -> Game {
    for i in 0..turns {
        game = take_minimax_turn(game, depth, true);
        println!("Defender only Turn {} \n{}", i + 1, game.board.to_string());
        if game.game_over {
            break;
        }
    }
    game
}

fn run_minimax_game(mut game: Game, depth: u32, turns: i32) -> Game {
    for i in 0..turns {
        game = take_minimax_turn(game, depth, i % 2 == 0);
        println!("Turn {} \n{}", i + 1, game.board.to_string());
    }
    game
}

/// Full-width minimax with the same decay, for comparison with the pruned
/// search.
fn full_width(game: Game, depth: u32) -> i32 {
    if depth == 0 || game.game_over {
        return game.score();
    }
    let values = game.get_all_valid_moves().into_iter().map(|(s, d)| {
        let v = full_width(game.gen_next(s, d), depth - 1);
        if v > 0 {
            v - 1
        } else if v < 0 {
            v + 1
        } else {
            0
        }
    });
    if game.defenders_turn {
        values.fold(i32::MIN, i32::max)
    } else {
        values.fold(i32::MAX, i32::min)
    }
}

fn full_window(game: Game, depth: u32) -> i32 {
    minimax(game, depth, i32::MIN as i64, i32::MAX as i64)
}

#[test]
fn take_the_winning_move_defender() {
    let mut board = Board::empty();
    board.0[3][3] = PieceType::King;
    board.0[2][2] = PieceType::Attacker;

    let game = new_game(board);

    println!("initial board \n{}", game.board.to_string());

    println!("testing depth 2");
    let depth_2 = run_defender_only(game.clone(), 2, 2);
    assert!(depth_2.game_over); // can win in 2 moves

    println!("testing depth 3");
    let depth_3 = run_defender_only(game.clone(), 3, 2);
    assert!(depth_3.game_over); // can win in 2 moves

    println!("testing depth 4");
    let depth_4 = run_defender_only(game, 3, 2);
    assert!(depth_4.game_over); // can win in 2 moves
}

#[test]
fn take_the_winning_move() {
    let mut board = Board::empty();
    board.0[3][3] = PieceType::King;
    board.0[2][2] = PieceType::Attacker;

    let game = new_game(board);

    println!("initial board \n{}", game.board.to_string());
    // should win in 2 moves (3 turns)

    for i in 1..=4 {
        println!("testing depth {i}");
        let game = run_minimax_game(game.clone(), 2, 3);
        assert!(game.game_over);
        assert_eq!(game.defender_won, true);
    }
}

#[test]
fn take_the_winning_move_attacker() {
    let mut board = Board::empty();
    board.0[1][1] = PieceType::King;
    board.0[0][1] = PieceType::Attacker;
    board.0[2][5] = PieceType::Attacker;

    let game = new_game(board);

    println!("Initial Board\n{}", game.board.to_string());
    for i in 0..=4 {
        println!("using depth {i} attackers turn");
        let game = take_minimax_turn(game.clone(), i, false);
        println!("{}", game.board.to_string());
        assert!(game.game_over);
        assert_eq!(game.defender_won, false);
    }
}

#[test]
fn defender_only_search_escapes_at_depth_four() {
    let mut board = Board::empty();
    board.0[3][3] = PieceType::King;
    board.0[2][2] = PieceType::Attacker;
    let game = run_defender_only(new_game(board), 4, 2);
    assert!(game.game_over);
    assert!(game.defender_won);
}

#[test]
fn alternating_game_won_by_defenders_at_depth_three() {
    let mut board = Board::empty();
    board.0[3][3] = PieceType::King;
    board.0[2][2] = PieceType::Attacker;
    let game = run_minimax_game(new_game(board), 3, 3);
    assert!(game.game_over);
    assert!(game.defender_won);
}

#[test]
fn depth_zero_is_the_score() {
    let game = Game::new();
    assert_eq!(full_window(game, 0), game.score());
    assert_eq!(full_window(game, 0), 197);
}

#[test]
fn terminal_position_is_not_searched() {
    let mut game = Game::new();
    game.game_over = true;
    game.defender_won = true;
    assert_eq!(full_window(game, 3), i32::MAX);
}

#[test]
fn decay_prefers_the_quicker_win() {
    let mut board = Board::empty();
    board.0[0][3] = PieceType::King;
    let game = new_game(board);
    // the escape itself is worth the full maximum; one ply deeper it decays
    let (_, _, escape) = scored_move(&game, &((0, 3).into(), (0, 0).into()), 2);
    assert_eq!(escape, i32::MAX);
    assert_eq!(full_window(game, 1), i32::MAX - 1);
}

#[test]
fn pruning_matches_full_width() {
    let mut board = Board::empty();
    board.0[3][3] = PieceType::King;
    board.0[2][2] = PieceType::Attacker;
    board.0[4][5] = PieceType::Attacker;
    board.0[1][4] = PieceType::Defender;
    for defenders_turn in [true, false] {
        let mut game = new_game(board);
        game.defenders_turn = defenders_turn;
        for depth in 0..=2 {
            assert_eq!(full_window(game, depth), full_width(game, depth));
        }
    }
    let game = Game::new();
    assert_eq!(full_window(game, 2), full_width(game, 2));
}

#[test]
fn narrow_window_bounds_the_value() {
    let game = Game::new();
    let exact = full_width(game, 2);
    let low = minimax(game, 2, exact as i64 + 5, exact as i64 + 50);
    assert!(low <= exact as i32 + 5);
    assert!(exact <= low);
    let high = minimax(game, 2, exact as i64 - 50, exact as i64 - 5);
    assert!(high >= exact - 5);
    assert!(exact >= high);
}

#[test]
fn sequential_choice_is_first_best() {
    let mut board = Board::empty();
    board.0[3][3] = PieceType::King;
    board.0[2][2] = PieceType::Attacker;
    let game = new_game(board);
    let depth = 1;
    let moves = game.get_all_valid_moves();
    let values: Vec<i32> = moves.iter().map(|m| scored_move(&game, m, depth).2).collect();
    let best = *values.iter().max().unwrap();
    let first = values.iter().position(|v| *v == best).unwrap();
    let ai = AIPlayer {
        kind: AIKind::Minimax(depth),
    };
    assert_eq!(ai.take_turn(&game), moves[first]);
}

#[test]
fn parallel_agrees_with_sequential() {
    let mut board = Board::empty();
    board.0[3][3] = PieceType::King;
    board.0[2][2] = PieceType::Attacker;
    board.0[5][1] = PieceType::Attacker;
    for defenders_turn in [true, false] {
        let mut game = new_game(board);
        game.defenders_turn = defenders_turn;
        for depth in 0..=2 {
            let seq = AIPlayer {
                kind: AIKind::Minimax(depth),
            }
            .take_turn(&game);
            let par = AIPlayer {
                kind: AIKind::ParallelMinimax(depth),
            }
            .take_turn(&game);
            assert!(game.get_all_valid_moves().contains(&par));
            let seq_value = scored_move(&game, &seq, depth).2;
            let par_value = scored_move(&game, &par, depth).2;
            assert_eq!(seq_value, par_value);
        }
    }
}

#[test]
fn parallel_attacker_takes_the_king() {
    let mut board = Board::empty();
    board.0[1][1] = PieceType::King;
    board.0[0][1] = PieceType::Attacker;
    board.0[2][5] = PieceType::Attacker;
    let mut game = new_game(board);
    game.defenders_turn = false;
    let (src, dest) = AIPlayer {
        kind: AIKind::ParallelMinimax(2),
    }
    .take_turn(&game);
    let next = game.gen_next(src, dest);
    assert!(next.game_over);
    assert!(!next.defender_won);
}

#[test]
fn chosen_move_is_legal() {
    let game = Game::new();
    let m = AIPlayer {
        kind: AIKind::Minimax(1),
    }
    .take_turn(&game);
    assert!(game.get_all_valid_moves().contains(&m));
}

#[test]
fn tile_pair_into() {
    let t: Tile = (1, 2).into();
    assert_eq!((t.r, t.c), (1, 2));
}
