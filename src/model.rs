//! The rules of the game as spec functions over [`GameView`].
use crate::game::{PieceType, Tile, BOARD_SIZE};
use vstd::prelude::*;

verus! {

/// A game as a mathematical value: the board as rows of cells, and the flags.
pub struct GameView {
    pub cells: Seq<Seq<PieceType>>,
    pub defenders_turn: bool,
    pub game_over: bool,
    pub defender_won: bool,
}

/// Largest coordinate on the board.
pub open spec fn last() -> int {
    BOARD_SIZE as int - 1
}

pub open spec fn on_board(t: Tile) -> bool {
    t.r < BOARD_SIZE && t.c < BOARD_SIZE
}

pub open spec fn is_corner(t: Tile) -> bool {
    (t.r == 0 || t.r == last()) && (t.c == 0 || t.c == last())
}

/// The centre tile.
pub open spec fn throne() -> Tile {
    Tile { r: 3, c: 3 }
}

/// The throne or one of the four tiles orthogonally next to it.
pub open spec fn near_throne(t: Tile) -> bool {
    let dr = t.r as int - 3;
    let dc = t.c as int - 3;
    (dr == 0 && -1 <= dc <= 1) || (dc == 0 && -1 <= dr <= 1)
}

/// The four directions as (row step, column step), in the order in which the
/// rules visit them.
pub open spec fn dir_at(i: int) -> (i32, i32) {
    if i == 0 {
        (0i32, -1i32)
    } else if i == 1 {
        (0i32, 1i32)
    } else if i == 2 {
        (1i32, 0i32)
    } else {
        (-1i32, 0i32)
    }
}

pub open spec fn is_dir(dir: (i32, i32)) -> bool {
    dir == (0i32, -1i32) || dir == (0i32, 1i32) || dir == (1i32, 0i32) || dir == (-1i32, 0i32)
}

/// The tile one step from `t` in direction `dir`, if it is on the board.
pub open spec fn step(t: Tile, dir: (i32, i32)) -> Option<Tile> {
    let r = t.r as int + dir.0 as int;
    let c = t.c as int + dir.1 as int;
    if 0 <= r < BOARD_SIZE && 0 <= c < BOARD_SIZE {
        Some(Tile { r: r as usize, c: c as usize })
    } else {
        None
    }
}

/// How many steps in direction `dir` stay on the board from `t`.
pub open spec fn room(t: Tile, dir: (i32, i32)) -> nat {
    if dir.1 < 0 {
        t.c as nat
    } else if dir.1 > 0 {
        if t.c <= last() { (last() - t.c) as nat } else { 0 }
    } else if dir.0 > 0 {
        if t.r <= last() { (last() - t.r) as nat } else { 0 }
    } else {
        t.r as nat
    }
}

/// The on-board neighbours of `t`, in direction order.
pub open spec fn neighbors_upto(t: Tile, k: nat) -> Seq<Tile>
    decreases k,
{
    if k == 0 {
        seq![]
    } else {
        let prev = neighbors_upto(t, (k - 1) as nat);
        match step(t, dir_at(k - 1)) {
            Some(n) => prev.push(n),
            None => prev,
        }
    }
}

pub open spec fn neighbors(t: Tile) -> Seq<Tile> {
    neighbors_upto(t, 4)
}

/// Whether a corner is next to `t`.
pub open spec fn touches_corner(t: Tile) -> bool {
    exists|i: int| 0 <= i < neighbors(t).len() && is_corner(#[trigger] neighbors(t)[i])
}

impl PieceType {
    /// Defender or King: the defending side.
    pub open spec fn defends(self) -> bool {
        self is Defender || self is King
    }
}

impl GameView {
    /// Seven rows of seven cells.
    pub open spec fn wf(self) -> bool {
        &&& self.cells.len() == BOARD_SIZE
        &&& forall|r: int| 0 <= r < BOARD_SIZE ==> (#[trigger] self.cells[r]).len() == BOARD_SIZE
    }

    pub open spec fn at(self, t: Tile) -> PieceType {
        self.cells[t.r as int][t.c as int]
    }

    pub open spec fn is_empty(self, t: Tile) -> bool {
        self.at(t) == PieceType::Blank
    }

    /// A piece of the side whose turn it is.
    pub open spec fn friendly(self, t: Tile) -> bool {
        !self.is_empty(t) && self.at(t).defends() == self.defenders_turn
    }

    /// A piece of the side whose turn it is not.
    pub open spec fn enemy(self, t: Tile) -> bool {
        !self.is_empty(t) && self.at(t).defends() != self.defenders_turn
    }

    /// A tile that closes a flank for the side to move: a corner, the empty
    /// throne, or a piece of that side.
    pub open spec fn flanking(self, t: Tile) -> bool {
        is_corner(t) || (t == throne() && self.is_empty(throne())) || self.friendly(t)
    }

    /// The same game with tile `t` holding `p`.
    pub open spec fn set(self, t: Tile, p: PieceType) -> GameView {
        GameView {
            cells: self.cells.update(t.r as int, self.cells[t.r as int].update(t.c as int, p)),
            ..self
        }
    }
}

impl GameView {
    /// Whether the piece on `src` may end its move on `t`: never on the
    /// throne, and on a corner only if it is the king.
    pub open spec fn may_land(self, src: Tile, t: Tile) -> bool {
        t != throne() && (!is_corner(t) || self.at(src) == PieceType::King)
    }

    /// The moves of the piece on `src` that slide in direction `dir` past
    /// `cur`, nearest first: every empty tile up to the first occupied one
    /// or the edge, less those it may not land on.
    pub open spec fn slide(self, src: Tile, cur: Tile, dir: (i32, i32)) -> Seq<(Tile, Tile)>
        decreases room(cur, dir),
        when is_dir(dir)
    {
        match step(cur, dir) {
            Some(t) => if self.is_empty(t) {
                let rest = self.slide(src, t, dir);
                if self.may_land(src, t) {
                    seq![(src, t)] + rest
                } else {
                    rest
                }
            } else {
                seq![]
            },
            None => seq![],
        }
    }

    /// The moves of the piece on `src` in the first `k` directions.
    pub open spec fn piece_moves_upto(self, src: Tile, k: nat) -> Seq<(Tile, Tile)>
        decreases k,
    {
        if k == 0 {
            seq![]
        } else {
            self.piece_moves_upto(src, (k - 1) as nat) + self.slide(src, src, dir_at(k - 1))
        }
    }

    /// All moves of the piece on `src`.
    pub open spec fn piece_moves(self, src: Tile) -> Seq<(Tile, Tile)> {
        self.piece_moves_upto(src, 4)
    }

    /// The moves of the side to move whose piece stands in row `r`, column
    /// below `c`.
    pub open spec fn row_moves(self, r: nat, c: nat) -> Seq<(Tile, Tile)>
        decreases c,
    {
        if c == 0 {
            seq![]
        } else {
            let t = Tile { r: r as usize, c: (c - 1) as usize };
            self.row_moves(r, (c - 1) as nat) + if self.friendly(t) {
                self.piece_moves(t)
            } else {
                seq![]
            }
        }
    }

    /// The moves of the side to move whose piece stands in a row below `r`.
    pub open spec fn rows_moves(self, r: nat) -> Seq<(Tile, Tile)>
        decreases r,
    {
        if r == 0 {
            seq![]
        } else {
            self.rows_moves((r - 1) as nat) + self.row_moves((r - 1) as nat, BOARD_SIZE as nat)
        }
    }

    /// Every legal move of the side to move, sources in row-major order.
    pub open spec fn all_moves(self) -> Seq<(Tile, Tile)> {
        self.rows_moves(BOARD_SIZE as nat)
    }

    /// Whether a piece that lands on `end` flanks the enemy next to it in
    /// direction `dir` against a flanking tile beyond.
    pub open spec fn flanks(self, end: Tile, dir: (i32, i32)) -> bool {
        match step(end, dir) {
            Some(n) => match step(n, dir) {
                Some(f) => self.enemy(n) && self.flanking(f),
                None => false,
            },
            None => false,
        }
    }

    /// Whether the king on `k`, already flanked, is taken: on or next to the
    /// throne every neighbour must flank it, and never beside a corner.
    pub open spec fn king_capturable(self, k: Tile) -> bool {
        &&& near_throne(k) ==> forall|i: int|
            0 <= i < neighbors(k).len() ==> self.flanking(#[trigger] neighbors(k)[i])
        &&& !touches_corner(k)
    }

    /// The captures made by a piece landing on `end`, in directions `i` and
    /// later. A captured king ends the game and the later directions.
    pub open spec fn captures_from(self, end: Tile, i: nat) -> GameView
        decreases 4 - i,
    {
        if i >= 4 {
            self
        } else if self.flanks(end, dir_at(i as int)) {
            let n = step(end, dir_at(i as int))->Some_0;
            if self.at(n) != PieceType::King {
                self.set(n, PieceType::Blank).captures_from(end, i + 1)
            } else if self.king_capturable(n) {
                GameView { game_over: true, defender_won: false, ..self }
            } else {
                self.captures_from(end, i + 1)
            }
        } else {
            self.captures_from(end, i + 1)
        }
    }

    /// The board with the piece on `src` moved to `dest`.
    pub open spec fn moved(self, src: Tile, dest: Tile) -> GameView {
        self.set(dest, self.at(src)).set(src, PieceType::Blank)
    }

    /// Whether moving to `dest` on the board `self` is the king's escape.
    pub open spec fn escapes(self, dest: Tile) -> bool {
        self.at(dest) == PieceType::King && is_corner(dest)
    }

    /// The game after the move from `src` to `dest`: the piece moves, a king
    /// on a corner wins for the defenders, otherwise the captures are made;
    /// then the turn passes.
    pub open spec fn apply_move(self, src: Tile, dest: Tile) -> GameView {
        let m = self.moved(src, dest);
        let after = if m.escapes(dest) {
            GameView { game_over: true, defender_won: true, ..m }
        } else {
            m.captures_from(dest, 0)
        };
        GameView { defenders_turn: !self.defenders_turn, ..after }
    }
}

/// The starting layout: the king on the throne, a defender on each side of
/// it, and two attackers at the end of each arm of the cross.
pub open spec fn brandubh() -> Seq<Seq<PieceType>> {
    let a = PieceType::Attacker;
    let b = PieceType::Blank;
    let d = PieceType::Defender;
    let k = PieceType::King;
    seq![
        seq![b, b, b, a, b, b, b],
        seq![b, b, b, a, b, b, b],
        seq![b, b, b, d, b, b, b],
        seq![a, a, d, k, d, a, a],
        seq![b, b, b, d, b, b, b],
        seq![b, b, b, a, b, b, b],
        seq![b, b, b, a, b, b, b],
    ]
}

/// The start of a game: the Brandubh layout, attackers to move.
pub open spec fn start() -> GameView {
    GameView { cells: brandubh(), defenders_turn: false, game_over: false, defender_won: false }
}

/// A board of blank cells.
pub open spec fn blank_cells() -> Seq<Seq<PieceType>> {
    Seq::new(BOARD_SIZE as nat, |r: int| Seq::new(BOARD_SIZE as nat, |c: int| PieceType::Blank))
}

/// The one-character picture of a piece.
pub open spec fn symbol(p: PieceType) -> Seq<char> {
    match p {
        PieceType::Attacker => seq!['A'],
        PieceType::Defender => seq!['D'],
        PieceType::King => seq!['K'],
        PieceType::Blank => seq![' '],
    }
}

/// Line `r` of the picture of a board, up to column `c`: the board is drawn
/// transposed, line `r` showing cell `[c][r]` of each `c`, between bars.
pub open spec fn text_line(cells: Seq<Seq<PieceType>>, r: int, c: nat) -> Seq<char>
    decreases c,
{
    if c == 0 {
        seq!['|']
    } else {
        text_line(cells, r, (c - 1) as nat) + symbol(cells[c - 1][r]) + seq!['|']
    }
}

/// The first `r` lines of the picture of a board, each ended by a newline.
pub open spec fn board_text(cells: Seq<Seq<PieceType>>, r: nat) -> Seq<char>
    decreases r,
{
    if r == 0 {
        seq![]
    } else {
        board_text(cells, (r - 1) as nat) + text_line(cells, r - 1, BOARD_SIZE as nat) + seq!['\n']
    }
}

/// The material weight of a piece: an attacker counts half a defender
/// against the defenders, the king ten defenders, less one while it is still
/// on the throne.
pub open spec fn piece_weight(p: PieceType, on_throne: bool) -> int {
    match p {
        PieceType::Defender => 20,
        PieceType::Attacker => -10,
        PieceType::King => if on_throne {
            199
        } else {
            200
        },
        PieceType::Blank => 0,
    }
}

impl GameView {
    /// The material in row `r`, columns below `c`.
    pub open spec fn row_material(self, r: nat, c: nat) -> int
        decreases c,
    {
        if c == 0 {
            0
        } else {
            self.row_material(r, (c - 1) as nat) + piece_weight(
                self.cells[r as int][c - 1],
                r == 3 && c - 1 == 3,
            )
        }
    }

    pub open spec fn row_has_defender(self, r: nat) -> bool {
        exists|c: int| 0 <= c < BOARD_SIZE && (#[trigger] self.cells[r as int][c]).defends()
    }

    pub open spec fn row_has_attacker(self, r: nat) -> bool {
        exists|c: int| 0 <= c < BOARD_SIZE && #[trigger] self.cells[r as int][c] == PieceType::Attacker
    }

    /// A row's material, one more if it holds a defending piece, one less if
    /// it holds an attacker.
    pub open spec fn row_score(self, r: nat) -> int {
        self.row_material(r, BOARD_SIZE as nat) + (if self.row_has_defender(r) {
            1int
        } else {
            0
        }) - (if self.row_has_attacker(r) {
            1int
        } else {
            0
        })
    }

    /// The sum of the scores of the rows below `r`.
    pub open spec fn rows_score(self, r: nat) -> int
        decreases r,
    {
        if r == 0 {
            0
        } else {
            self.rows_score((r - 1) as nat) + self.row_score((r - 1) as nat)
        }
    }

    /// The heuristic value of a position that is not over.
    pub open spec fn heuristic(self) -> int {
        self.rows_score(BOARD_SIZE as nat)
    }

    /// The value of a position for the defenders: the extreme integers for a
    /// finished game, the heuristic otherwise.
    pub open spec fn score(self) -> i32 {
        if self.game_over && self.defender_won {
            i32::MAX
        } else if self.game_over {
            i32::MIN
        } else {
            self.heuristic() as i32
        }
    }
}

impl GameView {
    /// A move between two distinct tiles of the board that ends where its
    /// piece may land.
    pub open spec fn well_placed(self, m: (Tile, Tile)) -> bool {
        on_board(m.0) && on_board(m.1) && m.0 != m.1 && self.may_land(m.0, m.1)
    }
}

proof fn lemma_slide_well_placed(g: GameView, src: Tile, cur: Tile, dir: (i32, i32))
    requires
        on_board(src),
        on_board(cur),
        is_dir(dir),
        room(cur, dir) <= room(src, dir),
    ensures
        forall|i: int|
            0 <= i < g.slide(src, cur, dir).len() ==> g.well_placed(
                #[trigger] g.slide(src, cur, dir)[i],
            ),
    decreases room(cur, dir),
{
    if let Some(t) = step(cur, dir) {
        if g.is_empty(t) {
            lemma_slide_well_placed(g, src, t, dir);
            assert(room(t, dir) < room(cur, dir));
            let rest = g.slide(src, t, dir);
            if g.may_land(src, t) {
                let a = seq![(src, t)];
                assert forall|i: int| 0 <= i < (a + rest).len() implies g.well_placed(
                    #[trigger] (a + rest)[i],
                ) by {
                    if i >= 1 {
                        assert((a + rest)[i] == rest[i - 1]);
                    }
                }
            }
        }
    }
}

proof fn lemma_piece_moves_well_placed(g: GameView, src: Tile, k: nat)
    requires
        on_board(src),
        k <= 4,
    ensures
        forall|i: int|
            0 <= i < g.piece_moves_upto(src, k).len() ==> g.well_placed(
                #[trigger] g.piece_moves_upto(src, k)[i],
            ),
    decreases k,
{
    if k > 0 {
        lemma_piece_moves_well_placed(g, src, (k - 1) as nat);
        lemma_slide_well_placed(g, src, src, dir_at(k - 1));
        let a = g.piece_moves_upto(src, (k - 1) as nat);
        let b = g.slide(src, src, dir_at(k - 1));
        assert(g.piece_moves_upto(src, k) == a + b);
        assert forall|i: int| 0 <= i < (a + b).len() implies g.well_placed(#[trigger] (a + b)[i]) by {
            if i >= a.len() {
                assert((a + b)[i] == b[i - a.len()]);
            }
        }
    }
}

proof fn lemma_row_moves_well_placed(g: GameView, r: nat, c: nat)
    requires
        r < BOARD_SIZE,
        c <= BOARD_SIZE,
    ensures
        forall|i: int|
            0 <= i < g.row_moves(r, c).len() ==> g.well_placed(#[trigger] g.row_moves(r, c)[i]),
    decreases c,
{
    if c > 0 {
        let t = Tile { r: r as usize, c: (c - 1) as usize };
        lemma_row_moves_well_placed(g, r, (c - 1) as nat);
        lemma_piece_moves_well_placed(g, t, 4);
        let a = g.row_moves(r, (c - 1) as nat);
        let b = if g.friendly(t) {
            g.piece_moves(t)
        } else {
            seq![]
        };
        assert(g.row_moves(r, c) == a + b);
        assert forall|i: int| 0 <= i < (a + b).len() implies g.well_placed(#[trigger] (a + b)[i]) by {
            if i >= a.len() {
                assert((a + b)[i] == b[i - a.len()]);
            }
        }
    }
}

proof fn lemma_rows_moves_well_placed(g: GameView, r: nat)
    requires
        r <= BOARD_SIZE,
    ensures
        forall|i: int|
            0 <= i < g.rows_moves(r).len() ==> g.well_placed(#[trigger] g.rows_moves(r)[i]),
    decreases r,
{
    if r > 0 {
        lemma_rows_moves_well_placed(g, (r - 1) as nat);
        lemma_row_moves_well_placed(g, (r - 1) as nat, BOARD_SIZE as nat);
        let a = g.rows_moves((r - 1) as nat);
        let b = g.row_moves((r - 1) as nat, BOARD_SIZE as nat);
        assert forall|i: int| 0 <= i < (a + b).len() implies g.well_placed(#[trigger] (a + b)[i]) by {
            if i >= a.len() {
                assert((a + b)[i] == b[i - a.len()]);
            }
        }
    }
}

/// Every generated move is well placed.
pub proof fn lemma_all_moves_well_placed(g: GameView)
    ensures
        forall|i: int|
            0 <= i < g.all_moves().len() ==> g.well_placed(#[trigger] g.all_moves()[i]),
{
    lemma_rows_moves_well_placed(g, BOARD_SIZE as nat);
}

/// Captures never change whose turn it is.
pub proof fn lemma_captures_keep_turn(g: GameView, end: Tile, i: nat)
    ensures
        g.captures_from(end, i).defenders_turn == g.defenders_turn,
    decreases 4 - i,
{
    if i < 4 {
        lemma_captures_keep_turn(g, end, i + 1);
        if g.flanks(end, dir_at(i as int)) {
            let n = step(end, dir_at(i as int))->Some_0;
            lemma_captures_keep_turn(g.set(n, PieceType::Blank), end, i + 1);
        }
    }
}

} // verus!
