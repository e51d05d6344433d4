//! Board, tiles and the executable rules engine.
use crate::model::{
    blank_cells, board_text, brandubh, start, symbol, text_line, dir_at, is_corner, room, lemma_captures_keep_turn, is_dir, near_throne, neighbors, neighbors_upto, on_board, step, throne,
    GameView,
};
use vstd::prelude::*;
use vstd::string::*;

verus! {

/// Side length of the board.
pub const BOARD_SIZE: usize = 7;

/// What a cell holds: a piece of the attackers, of the defenders, the king
/// (who defends), or nothing.
#[derive(Debug, PartialEq, Eq, Structural, Clone, Copy)]
pub enum PieceType {
    Attacker,
    Defender,
    King,
    Blank,
}

impl PieceType {
    /// The one-character picture of the piece.
    pub fn symbol(&self) -> (s: &'static str)
        ensures
            s@ == symbol(*self),
    {
        proof {
            reveal_strlit("A");
            reveal_strlit("D");
            reveal_strlit("K");
            reveal_strlit(" ");
            assert("A"@ =~= seq!['A']);
            assert("D"@ =~= seq!['D']);
            assert("K"@ =~= seq!['K']);
            assert(" "@ =~= seq![' ']);
        }
        match self {
            PieceType::Attacker => "A",
            PieceType::Defender => "D",
            PieceType::King => "K",
            PieceType::Blank => " ",
        }
    }
}

/// A board position: row `r`, column `c`.
#[derive(PartialEq, Eq, Structural, Clone, Copy, Debug)]
pub struct Tile {
    pub c: usize,
    pub r: usize,
}

/// The grid of cells, indexed `[row][column]`.
#[derive(Eq, PartialEq, Clone, Copy, Debug)]
pub struct Board(pub [[PieceType; BOARD_SIZE]; BOARD_SIZE]);

impl From<(usize, usize)> for Tile {
    /// The tile at (row, column).
    fn from(rc: (usize, usize)) -> (t: Tile) {
        Tile { r: rc.0, c: rc.1 }
    }
}

impl vstd::std_specs::convert::FromSpecImpl<(usize, usize)> for Tile {
    open spec fn obeys_from_spec() -> bool {
        true
    }

    open spec fn from_spec(rc: (usize, usize)) -> Tile {
        Tile { r: rc.0, c: rc.1 }
    }
}

impl Board {
    /// The starting layout of Brandubh.
    pub fn new_brandubh() -> (b: Board)
        ensures
            b@ == brandubh(),
    {
        let a = PieceType::Attacker;
        let b = PieceType::Blank;
        let d = PieceType::Defender;
        let k = PieceType::King;
        let b = Board(
            [
                [b, b, b, a, b, b, b],
                [b, b, b, a, b, b, b],
                [b, b, b, d, b, b, b],
                [a, a, d, k, d, a, a],
                [b, b, b, d, b, b, b],
                [b, b, b, a, b, b, b],
                [b, b, b, a, b, b, b],
            ],
        );
        assert(b@ =~~= brandubh());
        b
    }

    /// A board with every cell blank.
    pub fn empty() -> (b: Board)
        ensures
            b@ == blank_cells(),
    {
        let b = Board([[PieceType::Blank; BOARD_SIZE]; BOARD_SIZE]);
        assert(b@ =~~= blank_cells());
        b
    }
}

impl Board {
    /// The board as text, one line per column index, each cell between bars.
    pub fn to_string(&self) -> (s: String)
        ensures
            s@ == board_text(self@, BOARD_SIZE as nat),
    {
        proof {
            reveal_strlit("|");
            reveal_strlit("\n");
            assert("|"@ =~= seq!['|']);
            assert("\n"@ =~= seq!['\n']);
        }
        let mut board_str = String::new();
        let mut r: usize = 0;
        while r < BOARD_SIZE
            invariant
                r <= BOARD_SIZE,
                "|"@ == seq!['|'],
                "\n"@ == seq!['\n'],
                board_str@ == board_text(self@, r as nat),
            decreases BOARD_SIZE - r,
        {
            let ghost before = board_str@;
            board_str.append("|");
            let mut c: usize = 0;
            while c < BOARD_SIZE
                invariant
                    r < BOARD_SIZE,
                    c <= BOARD_SIZE,
                    "|"@ == seq!['|'],
                    board_str@ == before + text_line(self@, r as int, c as nat),
                decreases BOARD_SIZE - c,
            {
                // print flipped to match display
                board_str.append(self.0[c][r].symbol());
                board_str.append("|");
                assert(board_str@ =~= before + text_line(self@, r as int, (c + 1) as nat));
                c += 1;
            }
            board_str.append("\n");
            assert(board_str@ =~= board_text(self@, (r + 1) as nat));
            r += 1;
        }
        board_str
    }
}

impl View for Board {
    type V = Seq<Seq<PieceType>>;

    open spec fn view(&self) -> Seq<Seq<PieceType>> {
        self.0@.map_values(|row: [PieceType; BOARD_SIZE]| row@)
    }
}

/// The state of a game: the board, whose turn it is, and whether and how it
/// has ended. A move makes a new game rather than changing this one.
#[derive(Clone, Copy)]
pub struct Game {
    pub board: Board,
    pub defenders_turn: bool,
    pub game_over: bool,
    pub defender_won: bool,
}

impl Default for Game {
    fn default() -> (g: Game)
        ensures
            g@ == start(),
    {
        Self::new()
    }
}

/// A move: the piece on `src` goes to `dest`.
pub struct Action {
    pub src: Tile,
    pub dest: Tile,
}

impl View for Game {
    type V = GameView;

    open spec fn view(&self) -> GameView {
        GameView {
            cells: self.board@,
            defenders_turn: self.defenders_turn,
            game_over: self.game_over,
            defender_won: self.defender_won,
        }
    }
}

impl Game {
    /// The start of a game: the Brandubh layout, attackers to move.
    pub fn new() -> (g: Game)
        ensures
            g@ == start(),
    {
        Game {
            board: Board::new_brandubh(),  // only one board option
            defenders_turn: false,  // attackers always make first move
            game_over: false,
            defender_won: false,
        }
    }

    pub fn tile_on_board(&self, tile: Tile) -> (r: bool)
        ensures
            r == on_board(tile),
    {
        tile.r < BOARD_SIZE && tile.c < BOARD_SIZE
    }

    fn piece_type(&self, tile: Tile) -> (p: PieceType)
        requires
            on_board(tile),
        ensures
            p == self@.at(tile),
    {
        self.board.0[tile.r][tile.c]
    }

    pub fn tile_is_empty(&self, tile: Tile) -> (r: bool)
        requires
            on_board(tile),
        ensures
            r == self@.is_empty(tile),
    {
        matches!(self.board.0[tile.r][tile.c], PieceType::Blank)
    }

    /// Whether the tile holds a defender or the king.
    pub fn is_defender(&self, src: Tile) -> (r: bool)
        requires
            on_board(src),
        ensures
            r == self@.at(src).defends(),
    {
        match self.board.0[src.r][src.c] {
            PieceType::Attacker | PieceType::Blank => false,
            PieceType::King | PieceType::Defender => true,
        }
    }

    /// Whether the tile holds a piece of the side to move.
    pub fn is_player_piece(&self, src: Tile) -> (r: bool)
        requires
            on_board(src),
        ensures
            r == self@.friendly(src),
    {
        if self.tile_is_empty(src) {
            return false;
        }
        self.defenders_turn == self.is_defender(src)
    }

    fn friendly_piece(&self, tile: Tile) -> (r: bool)
        requires
            on_board(tile),
        ensures
            r == self@.friendly(tile),
    {
        !self.tile_is_empty(tile) && self.defenders_turn == self.is_defender(tile)
    }

    fn enemy_piece(&self, tile: Tile) -> (r: bool)
        requires
            on_board(tile),
        ensures
            r == self@.enemy(tile),
    {
        !self.tile_is_empty(tile) && self.defenders_turn != self.is_defender(tile)
    }

    /// Side length of the board.
    pub fn board_size(&self) -> (r: usize)
        ensures
            r == BOARD_SIZE,
    {
        BOARD_SIZE
    }

    fn is_corner(&self, tile: Tile) -> (r: bool)
        ensures
            r == is_corner(tile),
    {
        let size = BOARD_SIZE - 1;
        (tile.r == size || tile.r == 0) && (tile.c == size || tile.c == 0)
    }

    fn throne_tile(&self) -> (t: Tile)
        ensures
            t == throne(),
    {
        let size = BOARD_SIZE - 1;
        Tile { r: size / 2, c: size / 2 }
    }

    fn empty_throne(&self, tile: Tile) -> (r: bool)
        ensures
            r == (tile == throne() && self@.is_empty(throne())),
    {
        let throne = self.throne_tile();
        tile == throne && self.piece_type(throne) == PieceType::Blank
    }

    fn flanking_piece(&self, tile: Tile) -> (r: bool)
        requires
            on_board(tile),
        ensures
            r == self@.flanking(tile),
    {
        self.is_corner(tile) || self.empty_throne(tile) || self.friendly_piece(tile)
    }

    /// The on-board neighbours of `tile`, in direction order.
    fn adjacent_tiles(&self, tile: Tile) -> (v: Vec<Tile>)
        requires
            on_board(tile),
        ensures
            v@ == neighbors(tile),
    {
        let mut v: Vec<Tile> = Vec::new();
        let mut i: usize = 0;
        while i < 4
            invariant
                i <= 4,
                on_board(tile),
                v@ == neighbors_upto(tile, i as nat),
            decreases 4 - i,
        {
            if let Some(n) = next_tile(tile, direction(i)) {
                v.push(n);
            }
            i += 1;
        }
        v
    }

    fn next_to_throne(&self, tile: Tile) -> (r: bool)
        ensures
            r == near_throne(tile),
    {
        (tile.r == 3 && 2 <= tile.c && tile.c <= 4) || (tile.c == 3 && 2 <= tile.r && tile.r <= 4)
    }

    /// Whether the king on `tile`, already flanked, is captured.
    fn check_king_capture(&self, tile: Tile) -> (r: bool)
        requires
            on_board(tile),
        ensures
            r == self@.king_capturable(tile),
    {
        let adjacent = self.adjacent_tiles(tile);
        // on or next to the throne the king must be flanked on all sides
        if self.next_to_throne(tile) {
            let mut i: usize = 0;
            while i < adjacent.len()
                invariant
                    i <= adjacent@.len(),
                    adjacent@ == neighbors(tile),
                    near_throne(tile),
                    forall|j: int| 0 <= j < i ==> self@.flanking(#[trigger] adjacent@[j]),
                decreases adjacent@.len() - i,
            {
                proof {
                    lemma_neighbors_on_board(tile, 4);
                }
                if !self.flanking_piece(adjacent[i]) {
                    assert(!self@.flanking(neighbors(tile)[i as int]));
                    return false;
                }
                i += 1;
            }
        }
        // the king cannot be captured against a corner
        let mut i: usize = 0;
        while i < adjacent.len()
            invariant
                i <= adjacent@.len(),
                adjacent@ == neighbors(tile),
                near_throne(tile) ==> forall|j: int|
                    0 <= j < adjacent@.len() ==> self@.flanking(#[trigger] adjacent@[j]),
                forall|j: int| 0 <= j < i ==> !is_corner(#[trigger] adjacent@[j]),
            decreases adjacent@.len() - i,
        {
            if self.is_corner(adjacent[i]) {
                return false;
            }
            i += 1;
        }
        true
    }
}

impl Game {
    fn set_tile(&mut self, t: Tile, p: PieceType)
        requires
            on_board(t),
        ensures
            final(self)@ == old(self)@.set(t, p),
    {
        self.board.0[t.r][t.c] = p;
        assert(self.board@ =~~= old(self)@.set(t, p).cells);
    }

    /// Makes the captures caused by a piece landing on `end`, and ends the
    /// game if the king is taken.
    fn check_captures(&mut self, end: Tile)
        requires
            on_board(end),
        ensures
            final(self)@ == old(self)@.captures_from(end, 0),
    {
        let mut i: usize = 0;
        while i < 4
            invariant
                i <= 4,
                on_board(end),
                self@.captures_from(end, i as nat) == old(self)@.captures_from(end, 0),
            decreases 4 - i,
        {
            let dir = direction(i);
            if let Some(neighbor) = next_tile(end, dir) {
                if let Some(flank) = next_tile(neighbor, dir) {
                    // capture if flanked
                    if self.enemy_piece(neighbor) && self.flanking_piece(flank) {
                        if self.piece_type(neighbor) != PieceType::King {
                            self.set_tile(neighbor, PieceType::Blank);
                        } else if self.check_king_capture(neighbor) {
                            self.defender_won = false;
                            self.game_over = true;
                            return;
                        }
                    }
                }
            }
            i += 1;
        }
    }

    /// The game after moving the piece on `src` to `dest`. The move is not
    /// checked for legality; the piece moves, a king reaching a corner wins,
    /// captures are made, and the turn passes.
    pub fn gen_next(&self, src: Tile, dest: Tile) -> (g: Game)
        requires
            on_board(src),
            on_board(dest),
        ensures
            g@ == self@.apply_move(src, dest),
            g.defenders_turn != self.defenders_turn,
    {
        let mut game = *self;
        let piece = game.piece_type(src);
        game.set_tile(dest, piece);
        game.set_tile(src, PieceType::Blank);
        // check for king on exit
        if game.piece_type(dest) == PieceType::King && self.is_corner(dest) {
            game.defender_won = true;
            game.game_over = true;
        } else {
            game.check_captures(dest);
            proof {
                lemma_captures_keep_turn(self@.moved(src, dest), dest, 0);
            }
        }
        game.defenders_turn = !game.defenders_turn;
        game
    }
}

impl Game {
    /// The moves of the piece on `src` sliding in direction `dir`, nearest
    /// first.
    pub fn moves_in_direction(&self, src: Tile, dir: (i32, i32)) -> (moves: Vec<(Tile, Tile)>)
        requires
            on_board(src),
            is_dir(dir),
        ensures
            moves@ == self@.slide(src, src, dir),
    {
        let mut moves = Vec::<(Tile, Tile)>::new();
        let mut cur = src;
        loop
            invariant
                on_board(src),
                on_board(cur),
                is_dir(dir),
                moves@ + self@.slide(src, cur, dir) == self@.slide(src, src, dir),
            decreases room(cur, dir),
        {
            match next_tile(cur, dir) {
                Some(dest) => {
                    if !self.tile_is_empty(dest) {
                        return moves;
                    }
                    // no piece lands on the throne, only the king on a corner
                    if dest != self.throne_tile() && !(self.is_corner(dest) && !(self.piece_type(src)
                        == PieceType::King)) {
                        moves.push((src, dest));
                    }
                    assert(moves@ + self@.slide(src, dest, dir) == self@.slide(src, src, dir));
                    cur = dest;
                },
                None => {
                    return moves;
                },
            }
        }
    }

    /// Every move of the piece on `src`.
    pub fn get_valid_moves(&self, src: Tile) -> (moves: Vec<(Tile, Tile)>)
        requires
            on_board(src),
            !self@.is_empty(src),
        ensures
            moves@ == self@.piece_moves(src),
    {
        let mut moves = Vec::<(Tile, Tile)>::new();
        let mut i: usize = 0;
        while i < 4
            invariant
                i <= 4,
                on_board(src),
                moves@ == self@.piece_moves_upto(src, i as nat),
            decreases 4 - i,
        {
            let mut more = self.moves_in_direction(src, direction(i));
            moves.append(&mut more);
            i += 1;
        }
        moves
    }

    /// Every move of the side to move: its pieces in row-major order, each
    /// with its moves from [`Game::get_valid_moves`].
    pub fn get_all_valid_moves(&self) -> (moves: Vec<(Tile, Tile)>)
        ensures
            moves@ == self@.all_moves(),
    {
        let mut moves = Vec::<(Tile, Tile)>::new();
        let mut r: usize = 0;
        while r < BOARD_SIZE
            invariant
                r <= BOARD_SIZE,
                moves@ == self@.rows_moves(r as nat),
            decreases BOARD_SIZE - r,
        {
            let mut c: usize = 0;
            while c < BOARD_SIZE
                invariant
                    r < BOARD_SIZE,
                    c <= BOARD_SIZE,
                    moves@ == self@.rows_moves(r as nat) + self@.row_moves(r as nat, c as nat),
                decreases BOARD_SIZE - c,
            {
                let tile = Tile { r, c };
                if self.is_player_piece(tile) {
                    let mut more = self.get_valid_moves(tile);
                    moves.append(&mut more);
                }
                assert(moves@ == self@.rows_moves(r as nat) + self@.row_moves(r as nat, (c + 1) as nat));
                c += 1;
            }
            r += 1;
        }
        moves
    }
}

impl Game {
    /// The value of the position for the defenders: `i32::MAX` for a
    /// defenders' win, `i32::MIN` for an attackers' win, and otherwise the
    /// heuristic, which never reaches either.
    pub fn score(&self) -> (s: i32)
        ensures
            s == self@.score(),
            self.game_over && self.defender_won ==> s == i32::MAX,
            self.game_over && !self.defender_won ==> s == i32::MIN,
            !self.game_over ==> i32::MIN < s < i32::MAX,
    {
        // defender maximizing
        if self.game_over && self.defender_won {
            return i32::MAX;
        }
        if self.game_over && !self.defender_won {
            return i32::MIN;
        }
        let mut score: i32 = 0;
        let attacker_score: i32 = 10;
        let defender_score: i32 = attacker_score * 2;
        let king_score: i32 = defender_score * 10;
        let throne = self.throne_tile();
        let mut r: usize = 0;
        while r < BOARD_SIZE
            invariant
                r <= BOARD_SIZE,
                attacker_score == 10,
                defender_score == 20,
                king_score == 200,
                throne == crate::model::throne(),
                score == self@.rows_score(r as nat),
                -1401 * r <= score <= 1401 * r,
            decreases BOARD_SIZE - r,
        {
            let mut has_def = false;
            let mut has_atk = false;
            let mut c: usize = 0;
            while c < BOARD_SIZE
                invariant
                    r < BOARD_SIZE,
                    c <= BOARD_SIZE,
                    attacker_score == 10,
                    defender_score == 20,
                    king_score == 200,
                    throne == crate::model::throne(),
                    score == self@.rows_score(r as nat) + self@.row_material(r as nat, c as nat),
                    -1401 * r - 10 * c <= score <= 1401 * r + 200 * c,
                    has_def == exists|j: int|
                        0 <= j < c && (#[trigger] self@.cells[r as int][j]).defends(),
                    has_atk == exists|j: int|
                        0 <= j < c && #[trigger] self@.cells[r as int][j] == PieceType::Attacker,
                decreases BOARD_SIZE - c,
            {
                match self.board.0[r][c] {
                    PieceType::Defender => {
                        score += defender_score;
                        has_def = true;
                    },
                    PieceType::Attacker => {
                        score -= attacker_score;
                        has_atk = true;
                    },
                    PieceType::King => {
                        if (Tile { r, c }) == throne {
                            score -= 1;  // move off of throne early
                        }
                        score += king_score;
                        has_def = true;
                    },
                    PieceType::Blank => {},
                }
                c += 1;
            }
            score += if has_def {
                1
            } else {
                0
            };
            score += if has_atk {
                -1
            } else {
                0
            };
            r += 1;
        }
        score
    }
}

/// The direction visited `i`-th, as (row step, column step).
fn direction(i: usize) -> (d: (i32, i32))
    requires
        i < 4,
    ensures
        d == dir_at(i as int),
        is_dir(d),
{
    if i == 0 {
        (0, -1)
    } else if i == 1 {
        (0, 1)
    } else if i == 2 {
        (1, 0)
    } else {
        (-1, 0)
    }
}

/// The tile one step from `src` in direction `dir`, if it is on the board.
fn next_tile(src: Tile, dir: (i32, i32)) -> (t: Option<Tile>)
    requires
        on_board(src),
        is_dir(dir),
    ensures
        t == step(src, dir),
{
    let r = src.r as i64 + dir.0 as i64;
    let c = src.c as i64 + dir.1 as i64;
    if 0 <= r && r < BOARD_SIZE as i64 && 0 <= c && c < BOARD_SIZE as i64 {
        Some(Tile { r: r as usize, c: c as usize })
    } else {
        None
    }
}

proof fn lemma_neighbors_on_board(t: Tile, k: nat)
    ensures
        forall|j: int|
            0 <= j < neighbors_upto(t, k).len() ==> on_board(#[trigger] neighbors_upto(t, k)[j]),
        neighbors_upto(t, k).len() <= k,
    decreases k,
{
    if k > 0 {
        lemma_neighbors_on_board(t, (k - 1) as nat);
    }
}

} // verus!
