use tafl::game::{Board, Game, PieceType, Tile};

fn new_game(board: Board) -> Game {
    Game {
        board,
        defenders_turn: true,
        game_over: false,
        defender_won: false,
    }
}

fn tile(r: usize, c: usize) -> Tile {
    Tile { r, c }
}

#[test]
fn win_loss() {
    let mut board = Board::empty();
    board.0[0][3] = PieceType::King;
    let game = new_game(board);
    assert_eq!(game.score(), 201); // 200 king + 1 flank held

    let src = (0, 3).into();
    let dest = (0, 0).into();
    let game = game.gen_next(src, dest);
    assert!(game.game_over);
    assert!(game.defender_won);
    assert_eq!(game.score(), std::i32::MAX);
}

#[test]
fn game_change_on_move() {
    let game = Game::new();
    let src: Tile = (2, 3).into();
    let dest: Tile = (2, 2).into();
    let new_game = game.gen_next(src, dest);

    assert_ne!(game.defenders_turn, new_game.defenders_turn);
    assert_ne!(game.board, new_game.board);

    assert_eq!(new_game.board.0[src.r][src.c], PieceType::Blank);
    assert_ne!(new_game.board.0[dest.r][dest.c], PieceType::Blank);
}

#[test]
fn tile_from_pair_is_row_then_column() {
    let t: Tile = (2, 5).into();
    assert_eq!(t, tile(2, 5));
    assert_eq!(t.r, 2);
    assert_eq!(t.c, 5);
}

#[test]
fn start_position() {
    let game = Game::new();
    assert!(!game.defenders_turn);
    assert!(!game.game_over);
    assert_eq!(game.board, Board::new_brandubh());
    assert_eq!(game.board.0[3][3], PieceType::King);
    assert_eq!(game.board.0[0][3], PieceType::Attacker);
    assert_eq!(game.board.0[3][2], PieceType::Defender);
    assert_eq!(game.board.0[0][0], PieceType::Blank);
    assert_eq!(game.board_size(), 7);
}

#[test]
fn start_position_score() {
    // rows: -11, -11, 21, 199 (king on throne), 21, -11, -11
    assert_eq!(Game::new().score(), 197);
}

#[test]
fn empty_board_is_blank() {
    let board = Board::empty();
    for r in 0..7 {
        for c in 0..7 {
            assert_eq!(board.0[r][c], PieceType::Blank);
        }
    }
}

#[test]
fn tile_queries() {
    let game = Game::new();
    assert!(game.tile_on_board(tile(6, 6)));
    assert!(!game.tile_on_board(tile(7, 0)));
    assert!(!game.tile_on_board(tile(0, 7)));
    assert!(game.tile_is_empty(tile(0, 0)));
    assert!(!game.tile_is_empty(tile(3, 3)));
    assert!(game.is_defender(tile(3, 3)));
    assert!(game.is_defender(tile(2, 3)));
    assert!(!game.is_defender(tile(0, 3)));
    assert!(!game.is_defender(tile(0, 0)));
    // attackers move first
    assert!(game.is_player_piece(tile(0, 3)));
    assert!(!game.is_player_piece(tile(2, 3)));
    assert!(!game.is_player_piece(tile(0, 0)));
}

#[test]
fn slide_stops_before_corner_for_other_pieces() {
    let game = Game::new();
    let moves = game.moves_in_direction(tile(0, 3), (0, -1));
    assert_eq!(moves, vec![(tile(0, 3), tile(0, 2)), (tile(0, 3), tile(0, 1))]);
}

#[test]
fn slide_stops_at_occupied_tile() {
    let game = Game::new();
    assert!(game.moves_in_direction(tile(0, 3), (1, 0)).is_empty());
    assert_eq!(
        game.moves_in_direction(tile(2, 3), (0, 1)),
        vec![(tile(2, 3), tile(2, 4)), (tile(2, 3), tile(2, 5)), (tile(2, 3), tile(2, 6))]
    );
}

#[test]
fn king_may_land_on_corner() {
    let mut board = Board::empty();
    board.0[0][3] = PieceType::King;
    let game = new_game(board);
    assert_eq!(
        game.moves_in_direction(tile(0, 3), (0, -1)),
        vec![(tile(0, 3), tile(0, 2)), (tile(0, 3), tile(0, 1)), (tile(0, 3), tile(0, 0))]
    );
}

#[test]
fn slide_passes_over_empty_throne() {
    let mut board = Board::empty();
    board.0[3][0] = PieceType::Defender;
    let game = new_game(board);
    let dests: Vec<Tile> = game.moves_in_direction(tile(3, 0), (0, 1)).iter().map(|m| m.1).collect();
    assert_eq!(dests, vec![tile(3, 1), tile(3, 2), tile(3, 4), tile(3, 5), tile(3, 6)]);
}

#[test]
fn valid_moves_in_direction_order() {
    let mut board = Board::empty();
    board.0[1][1] = PieceType::Defender;
    board.0[1][3] = PieceType::Attacker;
    board.0[3][1] = PieceType::Attacker;
    let game = new_game(board);
    let dests: Vec<Tile> = game.get_valid_moves(tile(1, 1)).iter().map(|m| m.1).collect();
    // left, right, down, up
    assert_eq!(dests, vec![tile(1, 0), tile(1, 2), tile(2, 1), tile(0, 1)]);
}

#[test]
fn all_moves_cover_only_side_to_move() {
    let game = Game::new();
    let moves = game.get_all_valid_moves();
    assert!(!moves.is_empty());
    for (src, dest) in &moves {
        assert_eq!(game.board.0[src.r][src.c], PieceType::Attacker);
        assert!(game.tile_is_empty(*dest));
        assert_ne!(*dest, tile(3, 3));
        let corner = (dest.r == 0 || dest.r == 6) && (dest.c == 0 || dest.c == 6);
        assert!(!corner);
    }
    // sources come in row-major order
    for w in moves.windows(2) {
        assert!((w[0].0.r, w[0].0.c) <= (w[1].0.r, w[1].0.c));
    }
    assert_eq!(moves[0], (tile(0, 3), tile(0, 2)));
}

#[test]
fn moves_land_legally_and_piece_stays() {
    let mut board = Board::empty();
    board.0[0][3] = PieceType::King;
    board.0[5][1] = PieceType::Defender;
    board.0[3][5] = PieceType::Defender;
    let game = new_game(board);
    for (src, dest) in game.get_all_valid_moves() {
        let piece = game.board.0[src.r][src.c];
        assert_ne!(dest, tile(3, 3));
        let corner = (dest.r == 0 || dest.r == 6) && (dest.c == 0 || dest.c == 6);
        if corner {
            assert_eq!(piece, PieceType::King);
        }
        let next = game.gen_next(src, dest);
        assert_eq!(next.board.0[dest.r][dest.c], piece);
        assert_eq!(next.board.0[src.r][src.c], PieceType::Blank);
    }
}

#[test]
fn turn_alternates() {
    let mut game = Game::new();
    for _ in 0..6 {
        let (src, dest) = game.get_all_valid_moves()[0];
        let next = game.gen_next(src, dest);
        assert_ne!(next.defenders_turn, game.defenders_turn);
        game = next;
    }
}

#[test]
fn terminal_scores_are_extremes() {
    let mut game = Game::new();
    game.game_over = true;
    game.defender_won = true;
    assert_eq!(game.score(), i32::MAX);
    game.defender_won = false;
    assert_eq!(game.score(), i32::MIN);
}

#[test]
fn king_on_throne_not_taken_by_single_attacker() {
    let mut board = Board::empty();
    board.0[3][3] = PieceType::King;
    board.0[0][3] = PieceType::Attacker;
    let mut game = new_game(board);
    game.defenders_turn = false;
    let next = game.gen_next(tile(0, 3), tile(2, 3));
    assert!(!next.game_over);
    assert_eq!(next.board.0[3][3], PieceType::King);
    assert_eq!(next.board.0[2][3], PieceType::Attacker);
}

#[test]
fn king_flanked_away_from_throne_is_taken() {
    let mut board = Board::empty();
    board.0[1][3] = PieceType::King;
    board.0[0][3] = PieceType::Attacker;
    board.0[2][0] = PieceType::Attacker;
    let mut game = new_game(board);
    game.defenders_turn = false;
    let next = game.gen_next(tile(2, 0), tile(2, 3));
    assert!(next.game_over);
    assert!(!next.defender_won);
    assert_eq!(next.score(), i32::MIN);
}

#[test]
fn king_next_to_throne_needs_four_sides() {
    let mut board = Board::empty();
    board.0[2][3] = PieceType::King;
    board.0[1][0] = PieceType::Attacker;
    let mut game = new_game(board);
    game.defenders_turn = false;
    // flanked between the mover and the empty throne: not enough here
    let next = game.gen_next(tile(1, 0), tile(1, 3));
    assert!(!next.game_over);
    assert_eq!(next.board.0[2][3], PieceType::King);

    // with attackers on the two other sides as well, the king is taken
    let mut board = Board::empty();
    board.0[2][3] = PieceType::King;
    board.0[2][2] = PieceType::Attacker;
    board.0[2][4] = PieceType::Attacker;
    board.0[1][0] = PieceType::Attacker;
    let mut game = new_game(board);
    game.defenders_turn = false;
    let next = game.gen_next(tile(1, 0), tile(1, 3));
    assert!(next.game_over);
    assert!(!next.defender_won);
}

#[test]
fn king_beside_corner_is_immune() {
    let mut board = Board::empty();
    board.0[0][1] = PieceType::King;
    board.0[1][1] = PieceType::Attacker;
    board.0[0][4] = PieceType::Attacker;
    let mut game = new_game(board);
    game.defenders_turn = false;
    // the corner closes one side and the mover the other
    let next = game.gen_next(tile(0, 4), tile(0, 2));
    assert!(!next.game_over);
    assert_eq!(next.board.0[0][1], PieceType::King);
}

#[test]
fn flanked_piece_is_removed() {
    let mut board = Board::empty();
    board.0[4][2] = PieceType::Defender;
    board.0[4][1] = PieceType::Attacker;
    board.0[6][3] = PieceType::Attacker;
    let mut game = new_game(board);
    game.defenders_turn = false;
    let next = game.gen_next(tile(6, 3), tile(4, 3));
    assert_eq!(next.board.0[4][2], PieceType::Blank);
    assert!(!next.game_over);
}

#[test]
fn empty_throne_flanks() {
    let mut board = Board::empty();
    board.0[3][4] = PieceType::Defender;
    board.0[0][5] = PieceType::Attacker;
    let mut game = new_game(board);
    game.defenders_turn = false;
    let next = game.gen_next(tile(0, 5), tile(3, 5));
    assert_eq!(next.board.0[3][4], PieceType::Blank);
}

#[test]
fn corner_flanks() {
    let mut board = Board::empty();
    board.0[0][5] = PieceType::Attacker;
    board.0[3][4] = PieceType::Defender;
    let game = new_game(board);
    // the defenders move toward the attacker, which sits against the corner
    let next = game.gen_next(tile(3, 4), tile(0, 4));
    assert_eq!(next.board.0[0][5], PieceType::Blank);
}

#[test]
fn friendly_piece_is_not_captured() {
    let mut board = Board::empty();
    board.0[4][2] = PieceType::Attacker;
    board.0[4][1] = PieceType::Attacker;
    board.0[6][3] = PieceType::Attacker;
    let mut game = new_game(board);
    game.defenders_turn = false;
    let next = game.gen_next(tile(6, 3), tile(4, 3));
    assert_eq!(next.board.0[4][2], PieceType::Attacker);
}

#[test]
fn board_text_is_transposed() {
    let mut board = Board::empty();
    board.0[0][3] = PieceType::King;
    board.0[1][0] = PieceType::Attacker;
    let text = board.to_string();
    let lines: Vec<&str> = text.lines().collect();
    assert_eq!(lines.len(), 7);
    assert_eq!(lines[0], "| |A| | | | | |");
    assert_eq!(lines[3], "|K| | | | | | |");
    assert_eq!(lines[6], "| | | | | | | |");
    assert!(text.ends_with('\n'));
}

#[test]
fn piece_symbols() {
    assert_eq!(PieceType::Attacker.symbol(), "A");
    assert_eq!(PieceType::Defender.symbol(), "D");
    assert_eq!(PieceType::King.symbol(), "K");
    assert_eq!(PieceType::Blank.symbol(), " ");
}

#[test]
fn default_is_start() {
    let game = Game::default();
    assert_eq!(game.board, Board::new_brandubh());
    assert!(!game.defenders_turn);
    assert!(!game.game_over);
    assert!(!game.defender_won);
}

#[test]
fn action_holds_a_move() {
    let a = tafl::game::Action {
        src: tile(0, 3),
        dest: tile(0, 1),
    };
    let game = Game::new();
    assert!(game.get_all_valid_moves().contains(&(a.src, a.dest)));
}
