//! The reachability checker: a depth-first search that decides whether a
//! pawn still has a path to its goal column, together with the spec-level
//! notion of a path that its contract is stated against.
//!
//! The search keeps its visited state local to the call, walks the
//! 4-neighborhood filtered by the wall grids, and its result is proved to
//! agree exactly with the existence of a path.

use vstd::prelude::*;
use crate::board::{Board, BoardView, edge_open, empty_grid, grid_view, grid_wf, make_grid, unit_dir};
use crate::player::cell_in_bounds;

verus! {

/// The integer-pair image of an executable cell coordinate.
pub open spec fn cellv(c: (i32, i32)) -> (int, int) {
    (c.0 as int, c.1 as int)
}

/// One legal unit step from `a` to `c`: adjacent cells, both on the board,
/// no wall slot on the shared edge.
pub open spec fn step_ok(b: BoardView, a: (int, int), c: (int, int)) -> bool {
    cell_in_bounds(a) && cell_in_bounds(c) && ((c == (a.0 + 1, a.1) && edge_open(
        b,
        a,
        (1int, 0int),
    )) || (c == (a.0 - 1, a.1) && edge_open(b, a, (-1int, 0int))) || (c == (a.0, a.1 + 1)
        && edge_open(b, a, (0int, 1int))) || (c == (a.0, a.1 - 1) && edge_open(
        b,
        a,
        (0int, -1int),
    )))
}

/// A walk over the board: nonempty, starting on the board, every hop a
/// legal unit step.
pub open spec fn is_path(b: BoardView, s: Seq<(int, int)>) -> bool {
    s.len() > 0 && cell_in_bounds(s[0]) && (forall|i: int|
        0 <= i < s.len() - 1 ==> #[trigger] step_ok(b, s[i], s[i + 1]))
}

/// Some walk leads from `a` to `c`.
pub open spec fn connected(b: BoardView, a: (int, int), c: (int, int)) -> bool {
    exists|s: Seq<(int, int)>| #[trigger] is_path(b, s) && s.first() == a && s.last() == c
}

/// Some walk leads from `a` into the goal column.
pub open spec fn reaches_goal(b: BoardView, a: (int, int), goal_col: int) -> bool {
    exists|c: (int, int)| #[trigger] connected(b, a, c) && c.0 == goal_col
}

/// A cell is connected to itself by the one-cell walk.
pub proof fn lemma_connected_refl(b: BoardView, a: (int, int))
    requires
        cell_in_bounds(a),
    ensures
        connected(b, a, a),
{
    let s = seq![a];
    assert(is_path(b, s));
    assert(s.first() == a && s.last() == a);
}

/// Extending a walk by one legal step keeps it a walk.
pub proof fn lemma_connected_step(b: BoardView, a: (int, int), c: (int, int), d: (int, int))
    requires
        connected(b, a, c),
        step_ok(b, c, d),
    ensures
        connected(b, a, d),
{
    let s = choose|s: Seq<(int, int)>| #[trigger] is_path(b, s) && s.first() == a && s.last() == c;
    let t = s.push(d);
    assert forall|i: int| 0 <= i < t.len() - 1 implies #[trigger] step_ok(b, t[i], t[i + 1]) by {
        if i < s.len() - 1 {
            assert(t[i] == s[i] && t[i + 1] == s[i + 1]);
            assert(step_ok(b, s[i], s[i + 1]));
        } else {
            assert(i == s.len() - 1);
            assert(t[i] == s.last() && t[i + 1] == d);
        }
    }
    assert(is_path(b, t));
    assert(t.first() == a && t.last() == d);
}

/// The visited matrix covers the 9x9 cell grid.
pub open spec fn vis_wf(vis: Seq<Seq<bool>>) -> bool {
    grid_wf(vis, 9, 9)
}

/// The search has marked cell `c`.
pub open spec fn visited_at(vis: Seq<Seq<bool>>, c: (int, int)) -> bool
    recommends
        vis_wf(vis),
        cell_in_bounds(c),
{
    vis[c.0][c.1]
}

/// The marked set is closed under legal steps.
pub open spec fn vis_closed(b: BoardView, vis: Seq<Seq<bool>>) -> bool {
    forall|c: (int, int), d: (int, int)|
        visited_at(vis, c) && #[trigger] step_ok(b, c, d) ==> visited_at(vis, d)
}

/// Every cell of a walk that starts in a step-closed marked set is marked.
proof fn lemma_closed_path(b: BoardView, vis: Seq<Seq<bool>>, s: Seq<(int, int)>, k: int)
    requires
        is_path(b, s),
        visited_at(vis, s[0]),
        vis_closed(b, vis),
        0 <= k < s.len(),
    ensures
        visited_at(vis, s[k]),
    decreases k,
{
    if k > 0 {
        lemma_closed_path(b, vis, s, k - 1);
        let j = k - 1;
        assert(step_ok(b, s[j], s[j + 1]));
    }
}

/// Number of unmarked entries among `row[0..j]`.
spec fn row_unvisited(row: Seq<bool>, j: int) -> int
    decreases j,
{
    if j <= 0 {
        0
    } else {
        row_unvisited(row, j - 1) + if row[j - 1] {
            0int
        } else {
            1int
        }
    }
}

/// Number of unmarked cells among the rows `vis[0..i]`.
spec fn grid_unvisited(vis: Seq<Seq<bool>>, i: int) -> int
    decreases i,
{
    if i <= 0 {
        0
    } else {
        grid_unvisited(vis, i - 1) + row_unvisited(vis[i - 1], 9)
    }
}

proof fn lemma_row_unvisited_nonneg(row: Seq<bool>, j: int)
    ensures
        row_unvisited(row, j) >= 0,
    decreases j,
{
    if j > 0 {
        lemma_row_unvisited_nonneg(row, j - 1);
    }
}

proof fn lemma_grid_unvisited_nonneg(vis: Seq<Seq<bool>>, i: int)
    ensures
        grid_unvisited(vis, i) >= 0,
    decreases i,
{
    if i > 0 {
        lemma_grid_unvisited_nonneg(vis, i - 1);
        lemma_row_unvisited_nonneg(vis[i - 1], 9);
    }
}

proof fn lemma_row_unvisited_update(row: Seq<bool>, y: int, j: int)
    requires
        0 <= y < row.len(),
        j <= row.len(),
        !row[y],
    ensures
        row_unvisited(row.update(y, true), j) == row_unvisited(row, j) - (if y < j {
            1int
        } else {
            0int
        }),
    decreases j,
{
    if j > 0 {
        lemma_row_unvisited_update(row, y, j - 1);
    }
}

/// Marking one unmarked cell lowers the unmarked count by exactly one.
proof fn lemma_grid_unvisited_update(vis: Seq<Seq<bool>>, x: int, y: int, i: int)
    requires
        vis_wf(vis),
        0 <= x < 9,
        0 <= y < 9,
        i <= 9,
        !vis[x][y],
    ensures
        grid_unvisited(vis.update(x, vis[x].update(y, true)), i) == grid_unvisited(vis, i) - (
        if x < i {
            1int
        } else {
            0int
        }),
    decreases i,
{
    let vis2 = vis.update(x, vis[x].update(y, true));
    if i > 0 {
        lemma_grid_unvisited_update(vis, x, y, i - 1);
        if x == i - 1 {
            assert(vis2[i - 1] == vis[x].update(y, true));
            lemma_row_unvisited_update(vis[x], y, 9);
        } else {
            assert(vis2[i - 1] == vis[i - 1]);
        }
    }
}

/// The integer cell `c` occurs in the stack.
pub open spec fn in_stack(s: Seq<(i32, i32)>, c: (int, int)) -> bool {
    exists|i: int| 0 <= i < s.len() && cellv(#[trigger] s[i]) == c
}

proof fn lemma_in_stack_prefix(s1: Seq<(i32, i32)>, s2: Seq<(i32, i32)>, c: (int, int))
    requires
        s1.is_prefix_of(s2),
        in_stack(s1, c),
    ensures
        in_stack(s2, c),
{
    let i = choose|i: int| 0 <= i < s1.len() && cellv(#[trigger] s1[i]) == c;
    assert(s2[i] == s1[i]);
}

/// The running state of the search: the visited matrix covers the board,
/// every marked cell is connected to the start and off the goal column, the
/// start is marked, and the stack holds marked cells only.
spec fn search_basic(
    b: BoardView,
    from: (int, int),
    goal: int,
    vis: Seq<Seq<bool>>,
    st: Seq<(i32, i32)>,
) -> bool {
    &&& vis_wf(vis)
    &&& cell_in_bounds(from)
    &&& from.0 != goal
    &&& visited_at(vis, from)
    &&& forall|i: int|
        0 <= i < st.len() ==> cell_in_bounds(cellv(#[trigger] st[i])) && visited_at(
            vis,
            cellv(st[i]),
        )
    &&& forall|c: (int, int)|
        cell_in_bounds(c) && #[trigger] visited_at(vis, c) ==> connected(b, from, c) && c.0 != goal
}

/// Every marked cell that is no longer on the stack already has all of its
/// step-neighbors marked.
spec fn search_closed(b: BoardView, vis: Seq<Seq<bool>>, st: Seq<(i32, i32)>) -> bool {
    forall|c: (int, int), d: (int, int)|
        cell_in_bounds(c) && visited_at(vis, c) && !in_stack(st, c) && #[trigger] step_ok(b, c, d)
            ==> visited_at(vis, d)
}

/// Marking a cell marks that cell and leaves every other cell alone.
proof fn lemma_mark_semantics(vis: Seq<Seq<bool>>, x: int, y: int)
    requires
        vis_wf(vis),
        0 <= x < 9,
        0 <= y < 9,
    ensures
        vis_wf(vis.update(x, vis[x].update(y, true))),
        forall|c: (int, int)|
            cell_in_bounds(c) ==> #[trigger] visited_at(vis.update(x, vis[x].update(y, true)), c)
                == (c == (x, y) || visited_at(vis, c)),
{
    let vis2 = vis.update(x, vis[x].update(y, true));
    assert forall|c: (int, int)| cell_in_bounds(c) implies #[trigger] visited_at(vis2, c) == (c
        == (x, y) || visited_at(vis, c)) by {
        if c.0 == x {
            assert(vis2[x] == vis[x].update(y, true));
        } else {
            assert(vis2[c.0] == vis[c.0]);
        }
    }
}

/// Examine the neighbor of `c` in unit direction `d`.  Returns true as soon
/// as the neighbor sits on the goal column; otherwise marks and stacks a
/// newly reached neighbor and reports how the search state evolved.
fn expand(
    board: &Board,
    visited: &mut Vec<Vec<bool>>,
    stack: &mut Vec<(i32, i32)>,
    c: (i32, i32),
    d: (i32, i32),
    Ghost(from): Ghost<(int, int)>,
    goal_col: i32,
) -> (found: bool)
    requires
        board@.wf(),
        unit_dir((d.0 as int, d.1 as int)),
        cell_in_bounds(cellv(c)),
        connected(board@, from, cellv(c)),
        search_basic(board@, from, goal_col as int, grid_view(*old(visited)), old(stack)@),
    ensures
        found ==> reaches_goal(board@, from, goal_col as int),
        !found ==> search_basic(
            board@,
            from,
            goal_col as int,
            grid_view(*final(visited)),
            final(stack)@,
        ),
        !found ==> old(stack)@.is_prefix_of(final(stack)@),
        !found ==> (forall|e: (int, int)|
            cell_in_bounds(e) && #[trigger] visited_at(grid_view(*old(visited)), e) ==> visited_at(
                grid_view(*final(visited)),
                e,
            )),
        !found ==> (forall|e: (int, int)|
            cell_in_bounds(e) && #[trigger] visited_at(grid_view(*final(visited)), e)
                && !visited_at(grid_view(*old(visited)), e) ==> in_stack(final(stack)@, e)),
        !found ==> (step_ok(board@, cellv(c), (c.0 + d.0 as int, c.1 + d.1 as int)) ==> visited_at(
            grid_view(*final(visited)),
            (c.0 + d.0 as int, c.1 + d.1 as int),
        )),
        !found ==> grid_unvisited(grid_view(*final(visited)), 9) + final(stack)@.len()
            == grid_unvisited(grid_view(*old(visited)), 9) + old(stack)@.len(),
{
    let ghost b = board@;
    let ghost nv: (int, int) = (c.0 + d.0 as int, c.1 + d.1 as int);
    let nx: i32 = c.0 + d.0;
    let ny: i32 = c.1 + d.1;
    if nx < 0 || nx > 8 || ny < 0 || ny > 8 {
        proof {
            assert(old(stack)@.is_prefix_of(stack@)) by {
                assert(stack@ =~= stack@.subrange(0, stack@.len() as int));
            }
            assert(!cell_in_bounds(nv));
        }
        return false;
    }
    if !board.is_movable_at(c, d) {
        proof {
            assert(old(stack)@.is_prefix_of(stack@)) by {
                assert(stack@ =~= stack@.subrange(0, stack@.len() as int));
            }
            assert(!step_ok(b, cellv(c), nv));
        }
        return false;
    }
    proof {
        assert(step_ok(b, cellv(c), nv));
    }
    if nx == goal_col {
        proof {
            lemma_connected_step(b, from, cellv(c), nv);
            assert(connected(b, from, nv) && nv.0 == goal_col as int);
        }
        return true;
    }
    let ghost vis0 = grid_view(*visited);
    proof {
        assert(vis0[nx as int] == visited@[nx as int]@);
    }
    if !visited[nx as usize][ny as usize] {
        proof {
            assert(!visited_at(vis0, nv));
        }
        visited[nx as usize][ny as usize] = true;
        stack.push((nx, ny));
        proof {
            let vis2 = grid_view(*visited);
            assert(vis2 =~~= vis0.update(nx as int, vis0[nx as int].update(ny as int, true)));
            lemma_mark_semantics(vis0, nx as int, ny as int);
            lemma_grid_unvisited_update(vis0, nx as int, ny as int, 9);
            lemma_connected_step(b, from, cellv(c), nv);
            assert(old(stack)@.is_prefix_of(stack@)) by {
                assert(old(stack)@ =~= stack@.subrange(0, old(stack)@.len() as int));
            }
            assert forall|e: (int, int)|
                cell_in_bounds(e) && #[trigger] visited_at(vis2, e) && !visited_at(vis0, e)
                    implies in_stack(stack@, e) by {
                assert(e == nv);
                assert(cellv(stack@[stack@.len() - 1]) == nv);
            }
            assert forall|i: int|
                0 <= i < stack@.len() implies cell_in_bounds(cellv(#[trigger] stack@[i]))
                    && visited_at(vis2, cellv(stack@[i])) by {
                if i < stack@.len() - 1 {
                    assert(stack@[i] == old(stack)@[i]);
                }
            }
        }
    } else {
        proof {
            assert(visited_at(vis0, nv));
            assert(old(stack)@.is_prefix_of(stack@)) by {
                assert(stack@ =~= stack@.subrange(0, stack@.len() as int));
            }
        }
    }
    false
}

impl Board {
    /// Depth-first reachability: decides whether some sequence of unit
    /// steps, each unblocked by a wall, leads from `from` to any cell of
    /// column `goal_col`.
    pub fn has_path(&self, from: (i32, i32), goal_col: i32) -> (r: bool)
        requires
            self@.wf(),
            cell_in_bounds(cellv(from)),
            0 <= goal_col <= 8,
        ensures
            r == reaches_goal(self@, cellv(from), goal_col as int),
    {
        let ghost b = self@;
        let ghost fromv = cellv(from);
        if from.0 == goal_col {
            proof {
                lemma_connected_refl(b, fromv);
                assert(connected(b, fromv, fromv) && fromv.0 == goal_col as int);
            }
            return true;
        }
        let mut visited: Vec<Vec<bool>> = make_grid(9, 9);
        proof {
            assert forall|i: int| 0 <= i < 9 implies (#[trigger] grid_view(visited)[i]).len()
                == 9 by {
                assert(grid_view(visited)[i] == empty_grid(9, 9)[i]);
            }
            assert(vis_wf(grid_view(visited)));
            assert forall|cc: (int, int)| cell_in_bounds(cc) implies !visited_at(
                grid_view(visited),
                cc,
            ) by {
                assert(grid_view(visited)[cc.0] == empty_grid(9, 9)[cc.0]);
            }
            assert(grid_view(visited)[fromv.0] == visited@[fromv.0]@);
        }
        let ghost vis_empty = grid_view(visited);
        visited[from.0 as usize][from.1 as usize] = true;
        proof {
            assert(grid_view(visited) =~~= vis_empty.update(
                fromv.0,
                vis_empty[fromv.0].update(fromv.1, true),
            ));
            lemma_mark_semantics(vis_empty, fromv.0, fromv.1);
            lemma_connected_refl(b, fromv);
        }
        let mut stack: Vec<(i32, i32)> = Vec::new();
        stack.push(from);
        proof {
            let vis1 = grid_view(visited);
            assert(cellv(stack@[0]) == fromv);
            assert(in_stack(stack@, fromv));
            assert(visited_at(vis1, fromv));
            assert forall|cc: (int, int)| cell_in_bounds(cc) && #[trigger] visited_at(
                vis1,
                cc,
            ) implies connected(b, fromv, cc) && cc.0 != goal_col as int by {
                assert(cc == fromv);
            }
            assert forall|c2: (int, int), d2: (int, int)|
                cell_in_bounds(c2) && visited_at(vis1, c2) && !in_stack(stack@, c2)
                    && #[trigger] step_ok(b, c2, d2) implies visited_at(vis1, d2) by {
                assert(c2 == fromv);
                assert(false);
            }
        }
        while stack.len() > 0
            invariant
                b == self@,
                b.wf(),
                fromv == cellv(from),
                cell_in_bounds(fromv),
                0 <= goal_col <= 8,
                fromv.0 != goal_col as int,
                search_basic(b, fromv, goal_col as int, grid_view(visited), stack@),
                search_closed(b, grid_view(visited), stack@),
            decreases grid_unvisited(grid_view(visited), 9) + stack@.len(),
        {
            let ghost vis_pre = grid_view(visited);
            let ghost st_pre = stack@;
            proof {
                lemma_grid_unvisited_nonneg(vis_pre, 9);
            }
            let c = stack.pop().unwrap();
            let ghost st_pop = stack@;
            proof {
                assert(st_pre =~= st_pop.push(c));
                assert(cell_in_bounds(cellv(c)) && visited_at(vis_pre, cellv(c)));
            }
            let ghost vis_a = grid_view(visited);
            let ghost st_a = stack@;
            if expand(self, &mut visited, &mut stack, c, (1, 0), Ghost(fromv), goal_col) {
                return true;
            }
            let ghost vis_b = grid_view(visited);
            let ghost st_b = stack@;
            if expand(self, &mut visited, &mut stack, c, (-1, 0), Ghost(fromv), goal_col) {
                return true;
            }
            let ghost vis_c = grid_view(visited);
            let ghost st_c = stack@;
            if expand(self, &mut visited, &mut stack, c, (0, 1), Ghost(fromv), goal_col) {
                return true;
            }
            let ghost vis_d = grid_view(visited);
            let ghost st_d = stack@;
            if expand(self, &mut visited, &mut stack, c, (0, -1), Ghost(fromv), goal_col) {
                return true;
            }
            proof {
                let vis_e = grid_view(visited);
                let st_e = stack@;
                let cv = cellv(c);
                assert(st_a.is_prefix_of(st_e));
                assert forall|c2: (int, int), d2: (int, int)|
                    cell_in_bounds(c2) && visited_at(vis_e, c2) && !in_stack(st_e, c2)
                        && #[trigger] step_ok(b, c2, d2) implies visited_at(vis_e, d2) by {
                    if c2 == cv {
                        assert(d2 == (cv.0 + 1, cv.1) || d2 == (cv.0 - 1, cv.1) || d2 == (
                            cv.0,
                            cv.1 + 1,
                        ) || d2 == (cv.0, cv.1 - 1));
                        assert(step_ok(b, cv, (c.0 + 1int, c.1 + 0int)) ==> visited_at(
                            vis_b,
                            (c.0 + 1int, c.1 + 0int),
                        ));
                        assert(step_ok(b, cv, (c.0 - 1int, c.1 + 0int)) ==> visited_at(
                            vis_c,
                            (c.0 - 1int, c.1 + 0int),
                        ));
                        assert(step_ok(b, cv, (c.0 + 0int, c.1 + 1int)) ==> visited_at(
                            vis_d,
                            (c.0 + 0int, c.1 + 1int),
                        ));
                        assert(step_ok(b, cv, (c.0 + 0int, c.1 - 1int)) ==> visited_at(
                            vis_e,
                            (c.0 + 0int, c.1 - 1int),
                        ));
                    } else if visited_at(vis_pre, c2) {
                        if in_stack(st_pre, c2) {
                            let i = choose|i: int|
                                0 <= i < st_pre.len() && cellv(#[trigger] st_pre[i]) == c2;
                            assert(i < st_pop.len());
                            assert(st_pop[i] == st_pre[i]);
                            assert(in_stack(st_pop, c2));
                            lemma_in_stack_prefix(st_pop, st_b, c2);
                            lemma_in_stack_prefix(st_b, st_c, c2);
                            lemma_in_stack_prefix(st_c, st_d, c2);
                            lemma_in_stack_prefix(st_d, st_e, c2);
                            assert(false);
                        } else {
                            assert(visited_at(vis_pre, d2));
                        }
                    } else {
                        if visited_at(vis_b, c2) {
                            assert(in_stack(st_b, c2));
                            lemma_in_stack_prefix(st_b, st_c, c2);
                            lemma_in_stack_prefix(st_c, st_d, c2);
                            lemma_in_stack_prefix(st_d, st_e, c2);
                        } else if visited_at(vis_c, c2) {
                            assert(in_stack(st_c, c2));
                            lemma_in_stack_prefix(st_c, st_d, c2);
                            lemma_in_stack_prefix(st_d, st_e, c2);
                        } else if visited_at(vis_d, c2) {
                            assert(in_stack(st_d, c2));
                            lemma_in_stack_prefix(st_d, st_e, c2);
                        } else {
                            assert(visited_at(vis_e, c2) && !visited_at(vis_d, c2));
                            assert(in_stack(st_e, c2));
                        }
                        assert(false);
                    }
                }
            }
        }
        proof {
            let vis = grid_view(visited);
            assert(vis_closed(b, vis)) by {
                assert forall|c2: (int, int), d2: (int, int)|
                    visited_at(vis, c2) && #[trigger] step_ok(b, c2, d2) implies visited_at(
                    vis,
                    d2,
                ) by {
                    assert(cell_in_bounds(c2));
                    assert(!in_stack(stack@, c2));
                }
            }
            if reaches_goal(b, fromv, goal_col as int) {
                let gc = choose|gc: (int, int)| #[trigger]
                    connected(b, fromv, gc) && gc.0 == goal_col as int;
                let s = choose|s: Seq<(int, int)>| #[trigger]
                    is_path(b, s) && s.first() == fromv && s.last() == gc;
                lemma_closed_path(b, vis, s, s.len() - 1);
                assert(visited_at(vis, gc));
                assert(cell_in_bounds(gc)) by {
                    if s.len() == 1 {
                    } else {
                        let j = s.len() - 2;
                        assert(step_ok(b, s[j], s[j + 1]));
                    }
                }
                assert(false);
            }
        }
        false
    }
}

} // verus!
