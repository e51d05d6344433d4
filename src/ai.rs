//! Minimax search with alpha-beta pruning, and the computer player built on
//! it.
use crate::game::{Game, Tile};
use crate::model::{lemma_all_moves_well_placed, on_board, GameView};
use rayon::iter::{IntoParallelRefIterator, ParallelIterator};
use vstd::prelude::*;

verus! {

/// Lower end of the windows that the search admits, before the depth is
/// added: far below any value, so that widening a window never overflows.
pub const WINDOW_FLOOR: i64 = -4611686018427387904;

/// Upper end of the windows that the search admits, before the depth is
/// taken off.
pub const WINDOW_CEIL: i64 = 4611686018427387904;

/// One ply of decay: a value moves one step toward zero, so that a win found
/// sooner is worth more and a loss put off longer costs less.
pub open spec fn decay(v: i32) -> i32 {
    if v > 0 {
        (v - 1) as i32
    } else if v < 0 {
        (v + 1) as i32
    } else {
        0
    }
}

/// Whether `v` is at least as good as `w` for the side to move in `g`: the
/// defenders maximise, the attackers minimise.
pub open spec fn at_least_as_good(g: GameView, v: i32, w: i32) -> bool {
    if g.defenders_turn {
        v >= w
    } else {
        v <= w
    }
}

/// The full-width minimax value of `g` searched `depth` plies deep, each
/// child's value decayed once per ply.
pub open spec fn value(g: GameView, depth: nat) -> i32
    decreases depth, 0nat,
{
    if depth == 0 || g.game_over {
        g.score()
    } else {
        best_child(g, (depth - 1) as nat, g.all_moves().len())
    }
}

/// The best decayed value, for the side to move, over the children that the
/// first `n` moves of `g` reach, each searched `cd` plies deep; the worst
/// integer for that side when there are none.
pub open spec fn best_child(g: GameView, cd: nat, n: nat) -> i32
    decreases cd, n + 1,
{
    if n == 0 {
        if g.defenders_turn {
            i32::MIN
        } else {
            i32::MAX
        }
    } else {
        let prev = best_child(g, cd, (n - 1) as nat);
        let m = g.all_moves()[n - 1];
        let v = decay(value(g.apply_move(m.0, m.1), cd));
        if at_least_as_good(g, prev, v) {
            prev
        } else {
            v
        }
    }
}

/// The value of the move `m` at the root: the minimax value of the game
/// after it, searched `depth` plies deep.
pub open spec fn root_value(g: GameView, m: (Tile, Tile), depth: nat) -> i32 {
    value(g.apply_move(m.0, m.1), depth)
}

/// Whether move `k` of `g` is one of the best for the side to move.
pub open spec fn is_best_index(g: GameView, depth: nat, k: int) -> bool {
    &&& 0 <= k < g.all_moves().len()
    &&& forall|j: int|
        0 <= j < g.all_moves().len() ==> at_least_as_good(
            g,
            root_value(g, g.all_moves()[k], depth),
            root_value(g, #[trigger] g.all_moves()[j], depth),
        )
}

/// Whether `m` is a best move of `g`.
pub open spec fn is_best_move(g: GameView, depth: nat, m: (Tile, Tile)) -> bool {
    exists|k: int| is_best_index(g, depth, k) && g.all_moves()[k] == m
}

/// Whether `m` is the first best move of `g` in generator order.
pub open spec fn is_first_best_move(g: GameView, depth: nat, m: (Tile, Tile)) -> bool {
    exists|k: int|
        {
            &&& is_best_index(g, depth, k)
            &&& g.all_moves()[k] == m
            &&& forall|j: int|
                0 <= j < k ==> !at_least_as_good(
                    g,
                    root_value(g, #[trigger] g.all_moves()[j], depth),
                    root_value(g, m, depth),
                )
        }
}

fn decay_value(v: i32) -> (r: i32)
    ensures
        r == decay(v),
{
    if v > 0 {
        v - 1
    } else if v < 0 {
        v + 1
    } else {
        0
    }
}

/// The window bound handed to a child for the bound `a` of its parent:
/// widened by one away from zero where decay could pull a value across it.
pub open spec fn widen_low(a: i64) -> i64 {
    if a < 0 {
        (a - 1) as i64
    } else {
        a
    }
}

pub open spec fn widen_high(b: i64) -> i64 {
    if b > 0 {
        (b + 1) as i64
    } else {
        b
    }
}

/// What a search in the window (`lo`, `hi`) tells of the true value `v` by
/// returning `r`: an upper bound at or below `lo`, the value itself inside,
/// a lower bound at or above `hi`.
pub open spec fn bounds_value(r: int, v: int, lo: int, hi: int) -> bool {
    &&& r <= lo ==> v <= r
    &&& lo < r < hi ==> v == r
    &&& r >= hi ==> v >= r
}

/// A child searched in the widened window, once decayed, bounds its decayed
/// value in the parent's window.
proof fn lemma_decay_window(r: i32, v: i32, a: i64, b: i64)
    requires
        WINDOW_FLOOR <= a < b <= WINDOW_CEIL,
        bounds_value(r as int, v as int, widen_low(a) as int, widen_high(b) as int),
    ensures
        bounds_value(decay(r) as int, decay(v) as int, a as int, b as int),
{
}

/// Over more moves the best value only gets better for the side to move.
proof fn lemma_best_child_improves(g: GameView, cd: nat, i: nat, n: nat)
    requires
        i <= n,
    ensures
        at_least_as_good(g, best_child(g, cd, n), best_child(g, cd, i)),
    decreases n - i,
{
    if i < n {
        lemma_best_child_improves(g, cd, i, (n - 1) as nat);
    }
}

/// The minimax value of `game` searched `depth` plies deep, with alpha-beta
/// pruning in the window (`alpha`, `beta`): inside the window the result is
/// the full-width value, at or below `alpha` an upper bound of it, at or
/// above `beta` a lower bound. With the window of all `i32` values it is the
/// full-width value.
pub fn minimax(game: Game, depth: u32, alpha: i64, beta: i64) -> (r: i32)
    requires
        alpha < beta,
        alpha < i32::MAX,
        beta > i32::MIN,
        alpha >= WINDOW_FLOOR + depth,
        beta <= WINDOW_CEIL - depth,
    ensures
        bounds_value(r as int, value(game@, depth as nat) as int, alpha as int, beta as int),
        alpha <= i32::MIN && beta >= i32::MAX ==> r == value(game@, depth as nat),
    decreases depth,
{
    if depth == 0 || game.game_over {
        return game.score();
    }
    let moves = game.get_all_valid_moves();
    let ghost g = game@;
    let ghost cd = (depth - 1) as nat;
    proof {
        lemma_all_moves_well_placed(g);
    }
    if game.defenders_turn {
        // maximizing player
        let mut max: i32 = i32::MIN;
        let mut a: i64 = if alpha > max as i64 {
            alpha
        } else {
            max as i64
        };
        let mut i: usize = 0;
        while i < moves.len()
            invariant
                g == game@,
                g.defenders_turn,
                !g.game_over,
                cd == depth - 1,
                depth > 0,
                moves@ == g.all_moves(),
                forall|j: int| 0 <= j < moves@.len() ==> g.well_placed(#[trigger] moves@[j]),
                i <= moves@.len(),
                alpha < beta,
                alpha < i32::MAX,
                beta > i32::MIN,
                alpha >= WINDOW_FLOOR + depth,
                beta <= WINDOW_CEIL - depth,
                max < beta,
                max < i32::MAX,
                a == if max > alpha {
                    max as i64
                } else {
                    alpha
                },
                max > alpha ==> best_child(g, cd, i as nat) == max,
                max <= alpha ==> best_child(g, cd, i as nat) <= max,
            decreases moves@.len() - i,
        {
            let (src, dest) = moves[i];
            let child = game.gen_next(src, dest);
            let lo = if a < 0 {
                a - 1
            } else {
                a
            };
            let hi = if beta > 0 {
                beta + 1
            } else {
                beta
            };
            let v = minimax(child, depth - 1, lo, hi);
            let t = decay_value(v);
            proof {
                lemma_decay_window(v, value(child@, cd), a, beta);
            }
            if t > max {
                max = t;
            }
            if max as i64 >= beta {
                proof {
                    lemma_best_child_improves(g, cd, (i + 1) as nat, moves@.len());
                }
                return max;
            }
            if max as i64 > a {
                a = max as i64;
            }
            i += 1;
        }
        max
    } else {
        // minimizing player
        let mut min: i32 = i32::MAX;
        let mut b: i64 = if beta < min as i64 {
            beta
        } else {
            min as i64
        };
        let mut i: usize = 0;
        while i < moves.len()
            invariant
                g == game@,
                !g.defenders_turn,
                !g.game_over,
                cd == depth - 1,
                depth > 0,
                moves@ == g.all_moves(),
                forall|j: int| 0 <= j < moves@.len() ==> g.well_placed(#[trigger] moves@[j]),
                i <= moves@.len(),
                alpha < beta,
                alpha < i32::MAX,
                beta > i32::MIN,
                alpha >= WINDOW_FLOOR + depth,
                beta <= WINDOW_CEIL - depth,
                min > alpha,
                min > i32::MIN,
                b == if min < beta {
                    min as i64
                } else {
                    beta
                },
                min < beta ==> best_child(g, cd, i as nat) == min,
                min >= beta ==> best_child(g, cd, i as nat) >= min,
            decreases moves@.len() - i,
        {
            let (src, dest) = moves[i];
            let child = game.gen_next(src, dest);
            let lo = if alpha < 0 {
                alpha - 1
            } else {
                alpha
            };
            let hi = if b > 0 {
                b + 1
            } else {
                b
            };
            let v = minimax(child, depth - 1, lo, hi);
            let t = decay_value(v);
            proof {
                lemma_decay_window(v, value(child@, cd), alpha, b);
            }
            if t < min {
                min = t;
            }
            if min as i64 <= alpha {
                proof {
                    lemma_best_child_improves(g, cd, (i + 1) as nat, moves@.len());
                }
                return min;
            }
            if (min as i64) < b {
                b = min as i64;
            }
            i += 1;
        }
        min
    }
}

/// A move together with its value at the root.
pub open spec fn scored(g: GameView, m: (Tile, Tile), depth: nat) -> (Tile, Tile, i32) {
    (m.0, m.1, root_value(g, m, depth))
}

/// The move `m` with its value: the game after it searched `depth` plies
/// deep with the full window.
pub fn scored_move(game: &Game, m: &(Tile, Tile), depth: u32) -> (r: (Tile, Tile, i32))
    requires
        on_board(m.0),
        on_board(m.1),
    ensures
        r == scored(game@, *m, depth as nat),
{
    let new_game = game.gen_next(m.0, m.1);
    let score = minimax(new_game, depth, i32::MIN as i64, i32::MAX as i64);
    (m.0, m.1, score)
}

/// Relies on rayon's `par_iter`, `map` and `ParallelIterator::max_by_key`:
/// `map` applies `scored_move` to every move, and `max_by_key` returns `None`
/// for no items and otherwise one of the items whose key is greatest.
#[verifier::external_body]
fn par_max_by_score(game: &Game, moves: &Vec<(Tile, Tile)>, depth: u32) -> (r: Option<
    (Tile, Tile, i32),
>)
    requires
        forall|j: int| 0 <= j < moves@.len() ==> on_board(#[trigger] moves@[j].0) && on_board(
            moves@[j].1,
        ),
    ensures
        r is None <==> moves@.len() == 0,
        r matches Some(t) ==> exists|k: int|
            0 <= k < moves@.len() && t == scored(game@, moves@[k], depth as nat) && forall|j: int|
                0 <= j < moves@.len() ==> (#[trigger] scored(game@, moves@[j], depth as nat)).2
                    <= t.2,
{
    moves.par_iter().map(|m| scored_move(game, m, depth)).max_by_key(|t| t.2)
}

/// Relies on rayon's `par_iter`, `map` and `ParallelIterator::min_by_key`:
/// `map` applies `scored_move` to every move, and `min_by_key` returns `None`
/// for no items and otherwise one of the items whose key is least.
#[verifier::external_body]
fn par_min_by_score(game: &Game, moves: &Vec<(Tile, Tile)>, depth: u32) -> (r: Option<
    (Tile, Tile, i32),
>)
    requires
        forall|j: int| 0 <= j < moves@.len() ==> on_board(#[trigger] moves@[j].0) && on_board(
            moves@[j].1,
        ),
    ensures
        r is None <==> moves@.len() == 0,
        r matches Some(t) ==> exists|k: int|
            0 <= k < moves@.len() && t == scored(game@, moves@[k], depth as nat) && forall|j: int|
                0 <= j < moves@.len() ==> (#[trigger] scored(game@, moves@[j], depth as nat)).2
                    >= t.2,
{
    moves.par_iter().map(|m| scored_move(game, m, depth)).min_by_key(|t| t.2)
}

/// How a computer player searches.
pub enum AIKind {
    /// Sequential minimax searched to the given depth.
    Minimax(u32),
    /// The same search with the root moves valued in parallel.
    ParallelMinimax(u32),
}

/// A computer player.
pub struct AIPlayer {
    pub kind: AIKind,
}

impl AIPlayer {
    /// A move for the side to move: the first best move in generator order
    /// for the sequential search, one of the best moves for the parallel one.
    pub fn take_turn(&self, game: &Game) -> (m: (Tile, Tile))
        requires
            game@.all_moves().len() > 0,
        ensures
            self.kind matches AIKind::Minimax(d) ==> is_first_best_move(game@, d as nat, m),
            self.kind matches AIKind::ParallelMinimax(d) ==> is_best_move(game@, d as nat, m),
            game@.all_moves().contains(m),
    {
        match self.kind {
            AIKind::Minimax(depth) => self.minimax_turn(game, depth),
            AIKind::ParallelMinimax(depth) => self.minimax_turn_rayon(game, depth),
        }
    }

    /// The first move in generator order whose value, searched `depth` plies
    /// below it, is best for the side to move.
    fn minimax_turn(&self, game: &Game, depth: u32) -> (m: (Tile, Tile))
        requires
            game@.all_moves().len() > 0,
        ensures
            is_first_best_move(game@, depth as nat, m),
            game@.all_moves().contains(m),
    {
        // defender is maximizing agent
        let is_maximizing = game.defenders_turn;
        let ghost g = game@;
        let ghost d = depth as nat;
        let moves = game.get_all_valid_moves();
        proof {
            lemma_all_moves_well_placed(g);
        }
        let (_, _, first_score) = scored_move(game, &moves[0], depth);
        let mut best: usize = 0;
        let mut best_score = first_score;
        let mut i: usize = 1;
        while i < moves.len()
            invariant
                g == game@,
                is_maximizing == g.defenders_turn,
                d == depth as nat,
                moves@ == g.all_moves(),
                forall|j: int| 0 <= j < moves@.len() ==> g.well_placed(#[trigger] moves@[j]),
                1 <= i <= moves@.len(),
                best < i,
                best_score == root_value(g, moves@[best as int], d),
                forall|j: int|
                    0 <= j < i ==> at_least_as_good(
                        g,
                        best_score,
                        root_value(g, #[trigger] moves@[j], d),
                    ),
                forall|j: int|
                    0 <= j < best ==> !at_least_as_good(
                        g,
                        root_value(g, #[trigger] moves@[j], d),
                        best_score,
                    ),
            decreases moves@.len() - i,
        {
            let (_, _, score) = scored_move(game, &moves[i], depth);
            if (is_maximizing && score > best_score) || (!is_maximizing && score < best_score) {
                best_score = score;
                best = i;
            }
            i += 1;
        }
        moves[best]
    }

    /// One of the moves whose value, searched `depth` plies below it, is best
    /// for the side to move; the moves are valued in parallel.
    fn minimax_turn_rayon(&self, game: &Game, depth: u32) -> (m: (Tile, Tile))
        requires
            game@.all_moves().len() > 0,
        ensures
            is_best_move(game@, depth as nat, m),
            game@.all_moves().contains(m),
    {
        let moves = game.get_all_valid_moves();
        proof {
            lemma_all_moves_well_placed(game@);
        }
        let best = if game.defenders_turn {
            par_max_by_score(game, &moves, depth)
        } else {
            par_min_by_score(game, &moves, depth)
        };
        let (best_src, best_dest, best_score) = best.unwrap();
        proof {
            let g = game@;
            let d = depth as nat;
            let k = choose|k: int|
                0 <= k < moves@.len() && (best_src, best_dest, best_score) == scored(
                    g,
                    moves@[k],
                    d,
                ) && forall|j: int|
                    0 <= j < moves@.len() ==> if g.defenders_turn {
                        (#[trigger] scored(g, moves@[j], d)).2 <= best_score
                    } else {
                        (#[trigger] scored(g, moves@[j], d)).2 >= best_score
                    };
            assert forall|j: int| 0 <= j < g.all_moves().len() implies at_least_as_good(
                g,
                root_value(g, g.all_moves()[k], d),
                root_value(g, #[trigger] g.all_moves()[j], d),
            ) by {
                assert(scored(g, moves@[j], d).2 == root_value(g, moves@[j], d));
            }
            assert(is_best_index(g, d, k));
        }
        (best_src, best_dest)
    }
}

} // verus!
