//! Properties that relate several functions of the rules and the search.
use crate::ai::{is_best_move, is_first_best_move, root_value};
use crate::game::{Game, PieceType, Tile};
use crate::model::{
    dir_at, is_corner, lemma_all_moves_well_placed, near_throne, neighbors, neighbors_upto, on_board,
    step, throne, touches_corner, GameView,
};
use vstd::prelude::*;

verus! {

/// The view of every game has seven rows of seven cells.
pub proof fn lemma_view_wf(game: Game)
    ensures
        game@.wf(),
{
}

/// Captures change only tiles next to the tile where the piece landed.
proof fn lemma_captures_keep_cell(h: GameView, end: Tile, j: nat, t: Tile)
    requires
        h.wf(),
        on_board(t),
        forall|d: int| 0 <= d < 4 ==> step(end, #[trigger] dir_at(d)) != Some(t),
    ensures
        h.captures_from(end, j).at(t) == h.at(t),
    decreases 4 - j,
{
    if j < 4 {
        lemma_captures_keep_cell(h, end, j + 1, t);
        if h.flanks(end, dir_at(j as int)) {
            let n = step(end, dir_at(j as int))->Some_0;
            assert(n != t);
            assert(h.set(n, PieceType::Blank).wf());
            lemma_captures_keep_cell(h.set(n, PieceType::Blank), end, j + 1, t);
        }
    }
}

/// Every generated move ends on a tile that its piece may stand on: never
/// the throne, a corner only for the king; and after the move the piece
/// stands there.
pub proof fn lemma_moves_land_legally(g: GameView, i: int)
    requires
        g.wf(),
        0 <= i < g.all_moves().len(),
    ensures
        g.all_moves()[i].1 != throne(),
        is_corner(g.all_moves()[i].1) ==> g.at(g.all_moves()[i].0) == PieceType::King,
        g.apply_move(g.all_moves()[i].0, g.all_moves()[i].1).at(g.all_moves()[i].1) == g.at(
            g.all_moves()[i].0,
        ),
{
    lemma_all_moves_well_placed(g);
    let (src, dest) = g.all_moves()[i];
    let m = g.moved(src, dest);
    assert(m.at(dest) == g.at(src));
    assert(m.wf());
    if !m.escapes(dest) {
        lemma_captures_keep_cell(m, dest, 0, dest);
    }
}

/// Each neighbour of a tile is one step from it.
proof fn lemma_neighbors_are_steps(t: Tile, k: nat, x: int)
    requires
        k <= 4,
        0 <= x < neighbors_upto(t, k).len(),
    ensures
        exists|d: int| 0 <= d < k && step(t, dir_at(d)) == Some(neighbors_upto(t, k)[x]),
    decreases k,
{
    let prev = neighbors_upto(t, (k - 1) as nat);
    if x < prev.len() {
        lemma_neighbors_are_steps(t, (k - 1) as nat, x);
        let d = choose|d: int| 0 <= d < k - 1 && step(t, dir_at(d)) == Some(prev[x]);
        assert(step(t, dir_at(d)) == Some(neighbors_upto(t, k)[x]));
    } else {
        assert(step(t, dir_at(k - 1)) == Some(neighbors_upto(t, k)[x]));
    }
}

/// Two tiles next to `end` in different directions are distinct, and
/// neither is next to the other.
proof fn lemma_distinct_sides(end: Tile, i: int, j: int, k: Tile, n: Tile)
    requires
        0 <= i < 4,
        0 <= j < 4,
        i != j,
        step(end, dir_at(i)) == Some(k),
        step(end, dir_at(j)) == Some(n),
    ensures
        n != k,
        forall|d: int| 0 <= d < 4 ==> step(k, #[trigger] dir_at(d)) != Some(n),
{
}

/// Blanking tile `n` leaves the flanking of every other tile as it was.
proof fn lemma_blank_keeps_flanking(h: GameView, n: Tile, x: Tile)
    requires
        h.wf(),
        on_board(n),
        on_board(x),
        n != x,
    ensures
        h.set(n, PieceType::Blank).flanking(x) == h.flanking(x),
        h.set(n, PieceType::Blank).at(x) == h.at(x),
{
}

/// Blanking the tile next to `end` in direction `j` leaves alone what the
/// capture rule reads in another direction `i`: whether that side is
/// flanked, the piece there, and whether a king there is taken.
proof fn lemma_blank_keeps_other_side(h: GameView, end: Tile, i: int, j: int, k: Tile, n: Tile)
    requires
        h.wf(),
        0 <= i < 4,
        0 <= j < 4,
        i != j,
        step(end, dir_at(i)) == Some(k),
        step(end, dir_at(j)) == Some(n),
    ensures
        h.set(n, PieceType::Blank).flanks(end, dir_at(i)) == h.flanks(end, dir_at(i)),
        h.set(n, PieceType::Blank).at(k) == h.at(k),
        h.set(n, PieceType::Blank).king_capturable(k) == h.king_capturable(k),
{
    let h2 = h.set(n, PieceType::Blank);
    lemma_distinct_sides(end, i, j, k, n);
    lemma_blank_keeps_flanking(h, n, k);
    if let Some(f) = step(k, dir_at(i)) {
        lemma_blank_keeps_flanking(h, n, f);
    }
    assert forall|x: int| 0 <= x < neighbors(k).len() implies h2.flanking(
        #[trigger] neighbors(k)[x],
    ) == h.flanking(neighbors(k)[x]) by {
        lemma_neighbors_are_steps(k, 4, x);
        lemma_blank_keeps_flanking(h, n, neighbors(k)[x]);
    }
}

/// A king that the direction `i` would take is taken by the time the
/// captures in directions `j` and later are done, if no earlier king is.
proof fn lemma_king_taken(h: GameView, end: Tile, j: nat, i: int, k: Tile)
    requires
        h.wf(),
        j <= i < 4,
        step(end, dir_at(i)) == Some(k),
        h.flanks(end, dir_at(i)),
        h.at(k) == PieceType::King,
        h.king_capturable(k),
    ensures
        h.captures_from(end, j).game_over,
        !h.captures_from(end, j).defender_won,
    decreases i - j,
{
    if j < i {
        if h.flanks(end, dir_at(j as int)) {
            let n = step(end, dir_at(j as int))->Some_0;
            if h.at(n) != PieceType::King {
                lemma_blank_keeps_other_side(h, end, i, j as int, k, n);
                lemma_king_taken(h.set(n, PieceType::Blank), end, j + 1, i, k);
            } else if !h.king_capturable(n) {
                lemma_king_taken(h, end, j + 1, i, k);
            }
        } else {
            lemma_king_taken(h, end, j + 1, i, k);
        }
    }
}

/// The only king, next to `end` in direction `i` and not capturable there,
/// survives the captures in directions `j` and later, and the game goes on.
proof fn lemma_king_survives(h: GameView, end: Tile, j: nat, i: int, k: Tile)
    requires
        h.wf(),
        !h.game_over,
        0 <= i < 4,
        step(end, dir_at(i)) == Some(k),
        h.at(k) == PieceType::King,
        forall|t: Tile| on_board(t) && #[trigger] h.at(t) == PieceType::King ==> t == k,
        !h.king_capturable(k),
    ensures
        !h.captures_from(end, j).game_over,
    decreases 4 - j,
{
    if j < 4 {
        if h.flanks(end, dir_at(j as int)) {
            let n = step(end, dir_at(j as int))->Some_0;
            if h.at(n) != PieceType::King {
                let h2 = h.set(n, PieceType::Blank);
                assert(j != i);
                lemma_blank_keeps_other_side(h, end, i, j as int, k, n);
                assert forall|t: Tile| on_board(t) && #[trigger] h2.at(t) == PieceType::King implies t
                    == k by {
                    if t != n {
                        lemma_blank_keeps_flanking(h, n, t);
                    }
                }
                lemma_king_survives(h2, end, j + 1, i, k);
            } else {
                lemma_king_survives(h, end, j + 1, i, k);
            }
        } else {
            lemma_king_survives(h, end, j + 1, i, k);
        }
    }
}

/// A king away from the throne and from the corners that the move just made
/// closes in on two opposite sides is captured: the attackers win.
pub proof fn lemma_king_flanked_away_from_throne(
    g: GameView,
    src: Tile,
    dest: Tile,
    i: int,
    k: Tile,
)
    requires
        g.wf(),
        on_board(src),
        on_board(dest),
        0 <= i < 4,
        step(dest, dir_at(i)) == Some(k),
        !g.moved(src, dest).escapes(dest),
        g.moved(src, dest).flanks(dest, dir_at(i)),
        g.moved(src, dest).at(k) == PieceType::King,
        !near_throne(k),
        !touches_corner(k),
    ensures
        g.apply_move(src, dest).game_over,
        !g.apply_move(src, dest).defender_won,
{
    lemma_king_taken(g.moved(src, dest), dest, 0, i, k);
}

/// On or next to the throne, a king that the move just made closes in on two
/// opposite sides is not captured while one of its neighbours does not flank
/// it: the game goes on.
pub proof fn lemma_king_near_throne_needs_all_sides(
    g: GameView,
    src: Tile,
    dest: Tile,
    i: int,
    k: Tile,
    x: int,
)
    requires
        g.wf(),
        !g.game_over,
        on_board(src),
        on_board(dest),
        0 <= i < 4,
        step(dest, dir_at(i)) == Some(k),
        !g.moved(src, dest).escapes(dest),
        g.moved(src, dest).flanks(dest, dir_at(i)),
        g.moved(src, dest).at(k) == PieceType::King,
        forall|t: Tile|
            on_board(t) && #[trigger] g.moved(src, dest).at(t) == PieceType::King ==> t == k,
        near_throne(k),
        0 <= x < neighbors(k).len(),
        !g.moved(src, dest).flanking(neighbors(k)[x]),
    ensures
        !g.apply_move(src, dest).game_over,
{
    lemma_king_survives(g.moved(src, dest), dest, 0, i, k);
}

/// A king next to a corner is never captured, however it is surrounded: the
/// game goes on.
pub proof fn lemma_king_by_corner_immune(g: GameView, src: Tile, dest: Tile, i: int, k: Tile)
    requires
        g.wf(),
        !g.game_over,
        on_board(src),
        on_board(dest),
        0 <= i < 4,
        step(dest, dir_at(i)) == Some(k),
        !g.moved(src, dest).escapes(dest),
        g.moved(src, dest).at(k) == PieceType::King,
        forall|t: Tile|
            on_board(t) && #[trigger] g.moved(src, dest).at(t) == PieceType::King ==> t == k,
        touches_corner(k),
    ensures
        !g.apply_move(src, dest).game_over,
{
    lemma_king_survives(g.moved(src, dest), dest, 0, i, k);
}

/// The parallel search and the sequential one choose moves of the same
/// value: any best move and the first best move are worth the same.
pub proof fn lemma_parallel_agrees(
    g: GameView,
    depth: nat,
    parallel: (Tile, Tile),
    sequential: (Tile, Tile),
)
    requires
        is_best_move(g, depth, parallel),
        is_first_best_move(g, depth, sequential),
    ensures
        root_value(g, parallel, depth) == root_value(g, sequential, depth),
{
    let k1 = choose|k: int| crate::ai::is_best_index(g, depth, k) && g.all_moves()[k] == parallel;
    let k2 = choose|k: int|
        {
            &&& crate::ai::is_best_index(g, depth, k)
            &&& g.all_moves()[k] == sequential
            &&& forall|j: int|
                0 <= j < k ==> !crate::ai::at_least_as_good(
                    g,
                    root_value(g, #[trigger] g.all_moves()[j], depth),
                    root_value(g, sequential, depth),
                )
        };
    assert(crate::ai::at_least_as_good(
        g,
        root_value(g, g.all_moves()[k1], depth),
        root_value(g, g.all_moves()[k2], depth),
    ));
    assert(crate::ai::at_least_as_good(
        g,
        root_value(g, g.all_moves()[k2], depth),
        root_value(g, g.all_moves()[k1], depth),
    ));
}

} // verus!
