//! The board: wall-slot grids and the per-edge movability checks.
//!
//! A wall lives in the gaps between cells.  `vertical_walls[x][y]` blocks
//! horizontal movement between cells `(x-1, y)` and `(x, y)`;
//! `horizontal_walls[y][x]` blocks vertical movement between `(x, y-1)` and
//! `(x, y)`.  `cross_walls` marks the midpoint of every placed wall so that
//! a perpendicular wall cannot cross it.  A full wall always occupies two
//! adjacent same-orientation slots plus one cross marker.

use vstd::prelude::*;
use crate::player::cell_in_bounds;

verus! {

/// Mathematical model of the three wall-slot grids.
#[verifier::ext_equal]
pub ghost struct BoardView {
    pub vertical: Seq<Seq<bool>>,
    pub horizontal: Seq<Seq<bool>>,
    pub cross: Seq<Seq<bool>>,
}

/// A rows-by-cols grid of flags.
pub open spec fn grid_wf(g: Seq<Seq<bool>>, rows: int, cols: int) -> bool {
    g.len() == rows && (forall|i: int| 0 <= i < rows ==> (#[trigger] g[i]).len() == cols)
}

/// A rows-by-cols grid with every flag clear.
pub open spec fn empty_grid(rows: int, cols: int) -> Seq<Seq<bool>> {
    Seq::new(rows as nat, |i: int| Seq::new(cols as nat, |j: int| false))
}

impl BoardView {
    /// Grid dimensions: the slot grids are 10x9, the cross grid 10x10.
    pub open spec fn wf(self) -> bool {
        &&& grid_wf(self.vertical, 10, 9)
        &&& grid_wf(self.horizontal, 10, 9)
        &&& grid_wf(self.cross, 10, 10)
    }

    /// The board with no walls placed.
    pub open spec fn empty() -> BoardView {
        BoardView {
            vertical: empty_grid(10, 9),
            horizontal: empty_grid(10, 9),
            cross: empty_grid(10, 10),
        }
    }
}

/// The four axis-aligned unit directions.
pub open spec fn unit_dir(d: (int, int)) -> bool {
    d == (1int, 0int) || d == (-1int, 0int) || d == (0int, 1int) || d == (0int, -1int)
}

/// The four axis-aligned jump directions.
pub open spec fn double_dir(d: (int, int)) -> bool {
    d == (2int, 0int) || d == (-2int, 0int) || d == (0int, 2int) || d == (0int, -2int)
}

/// No wall slot blocks the edge leaving `pos` in unit direction `d`.
pub open spec fn edge_open(b: BoardView, pos: (int, int), d: (int, int)) -> bool
    recommends
        b.wf(),
        cell_in_bounds(pos),
        unit_dir(d),
{
    if d == (0int, -1int) {
        !b.horizontal[pos.1][pos.0]
    } else if d == (0int, 1int) {
        !b.horizontal[pos.1 + 1][pos.0]
    } else if d == (-1int, 0int) {
        !b.vertical[pos.0][pos.1]
    } else {
        !b.vertical[pos.0 + 1][pos.1]
    }
}

/// A pawn at `pos` may travel along `d`: one open edge for a unit step,
/// both the near and the far edge for a jump.
pub open spec fn movable(b: BoardView, pos: (int, int), d: (int, int)) -> bool
    recommends
        b.wf(),
        cell_in_bounds(pos),
        unit_dir(d) || double_dir(d),
{
    if unit_dir(d) {
        edge_open(b, pos, d)
    } else {
        let u = (d.0 / 2, d.1 / 2);
        edge_open(b, pos, u) && edge_open(b, (pos.0 + u.0, pos.1 + u.1), u)
    }
}

/// A vertical wall may be placed at `(x, y)`: both slots `(x, y)` and
/// `(x, y+1)` free, and no wall crosses at `(x, y+1)`.
pub open spec fn vwall_ok(b: BoardView, x: int, y: int) -> bool
    recommends
        b.wf(),
{
    1 <= x <= 8 && 0 <= y <= 7 && !b.vertical[x][y] && !b.vertical[x][y + 1] && !b.cross[x][y + 1]
}

/// A horizontal wall may be placed at `(x, y)`: both slots free and no
/// crossing wall, on the transposed grid.
pub open spec fn hwall_ok(b: BoardView, x: int, y: int) -> bool
    recommends
        b.wf(),
{
    1 <= y <= 8 && 0 <= x <= 7 && !b.horizontal[y][x] && !b.horizontal[y][x + 1] && !b.cross[x + 1][y]
}

/// The board after a vertical wall is placed at `(x, y)`.
pub open spec fn with_vwall(b: BoardView, x: int, y: int) -> BoardView
    recommends
        b.wf(),
        vwall_ok(b, x, y),
{
    BoardView {
        vertical: b.vertical.update(x, b.vertical[x].update(y, true).update(y + 1, true)),
        cross: b.cross.update(x, b.cross[x].update(y + 1, true)),
        ..b
    }
}

/// The board after a horizontal wall is placed at `(x, y)`.
pub open spec fn with_hwall(b: BoardView, x: int, y: int) -> BoardView
    recommends
        b.wf(),
        hwall_ok(b, x, y),
{
    BoardView {
        horizontal: b.horizontal.update(y, b.horizontal[y].update(x, true).update(x + 1, true)),
        cross: b.cross.update(x + 1, b.cross[x + 1].update(y, true)),
        ..b
    }
}

/// View of one wall grid as a sequence of rows.
pub open spec fn grid_view(g: Vec<Vec<bool>>) -> Seq<Seq<bool>> {
    Seq::new(g@.len(), |i: int| g@[i]@)
}

pub struct Board {
    pub vertical_walls: Vec<Vec<bool>>,
    pub horizontal_walls: Vec<Vec<bool>>,
    pub cross_walls: Vec<Vec<bool>>,
}

impl View for Board {
    type V = BoardView;

    open spec fn view(&self) -> BoardView {
        BoardView {
            vertical: grid_view(self.vertical_walls),
            horizontal: grid_view(self.horizontal_walls),
            cross: grid_view(self.cross_walls),
        }
    }
}

/// Build a rows-by-cols grid with every flag clear.
pub(crate) fn make_grid(rows: usize, cols: usize) -> (g: Vec<Vec<bool>>)
    ensures
        grid_view(g) == empty_grid(rows as int, cols as int),
{
    let mut g: Vec<Vec<bool>> = Vec::new();
    let mut i: usize = 0;
    while i < rows
        invariant
            i <= rows,
            g@.len() == i,
            forall|k: int| 0 <= k < i ==> (#[trigger] g@[k])@ =~= Seq::new(cols as nat, |j: int| false),
        decreases rows - i,
    {
        let mut row: Vec<bool> = Vec::new();
        let mut j: usize = 0;
        while j < cols
            invariant
                j <= cols,
                row@.len() == j,
                forall|k: int| 0 <= k < j ==> row@[k] == false,
            decreases cols - j,
        {
            row.push(false);
            j = j + 1;
        }
        proof {
            assert(row@ =~= Seq::new(cols as nat, |j: int| false));
        }
        g.push(row);
        i = i + 1;
    }
    proof {
        assert(grid_view(g) =~~= empty_grid(rows as int, cols as int));
    }
    g
}

/// Copy one wall grid.
fn copy_grid(g: &Vec<Vec<bool>>) -> (r: Vec<Vec<bool>>)
    ensures
        grid_view(r) == grid_view(*g),
{
    let mut r: Vec<Vec<bool>> = Vec::new();
    let mut i: usize = 0;
    while i < g.len()
        invariant
            i <= g.len(),
            r@.len() == i,
            forall|k: int| 0 <= k < i ==> (#[trigger] r@[k])@ == g@[k]@,
        decreases g.len() - i,
    {
        let src: &Vec<bool> = &g[i];
        let mut row: Vec<bool> = Vec::new();
        let mut j: usize = 0;
        while j < src.len()
            invariant
                j <= src.len(),
                row@ == src@.subrange(0, j as int),
            decreases src.len() - j,
        {
            row.push(src[j]);
            proof {
                assert(row@ =~= src@.subrange(0, j + 1));
            }
            j = j + 1;
        }
        proof {
            assert(row@ =~= src@);
        }
        r.push(row);
        i = i + 1;
    }
    proof {
        assert(grid_view(r) =~~= grid_view(*g));
    }
    r
}

impl Clone for Board {
    fn clone(&self) -> (r: Self)
        ensures
            r@ == self@,
    {
        let r = Board {
            vertical_walls: copy_grid(&self.vertical_walls),
            horizontal_walls: copy_grid(&self.horizontal_walls),
            cross_walls: copy_grid(&self.cross_walls),
        };
        proof {
            assert(r@ =~= self@);
        }
        r
    }
}

impl Board {
    /// Grid dimensions of a well-formed board, phrased over the vectors
    /// themselves so that element accesses are known to be in range.
    proof fn lemma_wf_dims(&self)
        requires
            self@.wf(),
        ensures
            self.vertical_walls@.len() == 10,
            forall|i: int| 0 <= i < 10 ==> (#[trigger] self.vertical_walls@[i])@.len() == 9,
            self.horizontal_walls@.len() == 10,
            forall|i: int| 0 <= i < 10 ==> (#[trigger] self.horizontal_walls@[i])@.len() == 9,
            self.cross_walls@.len() == 10,
            forall|i: int| 0 <= i < 10 ==> (#[trigger] self.cross_walls@[i])@.len() == 10,
    {
        assert forall|i: int| 0 <= i < 10 implies (#[trigger] self.vertical_walls@[i])@.len()
            == 9 by {
            assert(grid_view(self.vertical_walls)[i] == self.vertical_walls@[i]@);
        }
        assert forall|i: int| 0 <= i < 10 implies (#[trigger] self.horizontal_walls@[i])@.len()
            == 9 by {
            assert(grid_view(self.horizontal_walls)[i] == self.horizontal_walls@[i]@);
        }
        assert forall|i: int| 0 <= i < 10 implies (#[trigger] self.cross_walls@[i])@.len()
            == 10 by {
            assert(grid_view(self.cross_walls)[i] == self.cross_walls@[i]@);
        }
    }

    /// The empty board: 10x9 slot grids and a 10x10 cross grid, all clear.
    pub fn new() -> (b: Board)
        ensures
            b@ == BoardView::empty(),
            b@.wf(),
    {
        let b = Board {
            vertical_walls: make_grid(10, 9),
            horizontal_walls: make_grid(10, 9),
            cross_walls: make_grid(10, 10),
        };
        proof {
            assert(b@ =~= BoardView::empty());
        }
        b
    }

    /// True unless a wall slot blocks travel from `pos` along `dir`; a jump
    /// direction checks the near edge and then the far edge.
    pub fn is_movable_at(&self, pos: (i32, i32), dir: (i32, i32)) -> (r: bool)
        requires
            self@.wf(),
            cell_in_bounds((pos.0 as int, pos.1 as int)),
            unit_dir((dir.0 as int, dir.1 as int)) || (double_dir((dir.0 as int, dir.1 as int))
                && cell_in_bounds((pos.0 + dir.0 as int, pos.1 + dir.1 as int))),
        ensures
            r == movable(self@, (pos.0 as int, pos.1 as int), (dir.0 as int, dir.1 as int)),
        decreases (if unit_dir((dir.0 as int, dir.1 as int)) { 1int } else { 2int }),
    {
        proof {
            self.lemma_wf_dims();
        }
        if dir.0 == 0 && (dir.1 == 1 || dir.1 == -1) {
            if dir.1 == -1 {
                !self.horizontal_walls[pos.1 as usize][pos.0 as usize]
            } else {
                !self.horizontal_walls[pos.1 as usize + 1][pos.0 as usize]
            }
        } else if dir.1 == 0 && (dir.0 == 1 || dir.0 == -1) {
            if dir.0 == -1 {
                !self.vertical_walls[pos.0 as usize][pos.1 as usize]
            } else {
                !self.vertical_walls[pos.0 as usize + 1][pos.1 as usize]
            }
        } else {
            proof {
                assert(double_dir((dir.0 as int, dir.1 as int)));
            }
            let half: (i32, i32) = (dir.0 / 2, dir.1 / 2);
            let mid: (i32, i32) = (pos.0 + half.0, pos.1 + half.1);
            proof {
                assert(unit_dir((half.0 as int, half.1 as int)));
            }
            self.is_movable_at(pos, half) && self.is_movable_at(mid, half)
        }
    }

    /// The two target slots and the crossing point are all free.
    pub fn is_vertical_wall_ok_at(&self, x: usize, y: usize) -> (r: bool)
        requires
            self@.wf(),
        ensures
            r == vwall_ok(self@, x as int, y as int),
    {
        proof {
            self.lemma_wf_dims();
        }
        (x < 9 && y < 8 && x > 0) && !(self.vertical_walls[x][y] || self.vertical_walls[x][y + 1])
            && !self.cross_walls[x][y + 1]
    }

    /// The two target slots and the crossing point are all free, on the
    /// transposed grid.
    pub fn is_horizontal_wall_ok_at(&self, x: usize, y: usize) -> (r: bool)
        requires
            self@.wf(),
        ensures
            r == hwall_ok(self@, x as int, y as int),
    {
        proof {
            self.lemma_wf_dims();
        }
        (y < 9 && x < 8 && y > 0) && !(self.horizontal_walls[y][x] || self.horizontal_walls[y][x + 1])
            && !self.cross_walls[x + 1][y]
    }

    /// Occupy slots `(x, y)` and `(x, y+1)` and mark the crossing point.
    /// The caller must have validated the placement.
    pub fn place_vertical_wall(&mut self, x: usize, y: usize)
        requires
            old(self)@.wf(),
            vwall_ok(old(self)@, x as int, y as int),
        ensures
            final(self)@ == with_vwall(old(self)@, x as int, y as int),
            final(self)@.wf(),
    {
        proof {
            self.lemma_wf_dims();
        }
        self.vertical_walls[x][y] = true;
        self.vertical_walls[x][y + 1] = true;
        self.cross_walls[x][y + 1] = true;
        proof {
            assert(self@ =~~= with_vwall(old(self)@, x as int, y as int));
        }
    }

    /// Occupy slots `(x, y)` and `(x+1, y)` and mark the crossing point.
    /// The caller must have validated the placement.
    pub fn place_horizontal_wall(&mut self, x: usize, y: usize)
        requires
            old(self)@.wf(),
            hwall_ok(old(self)@, x as int, y as int),
        ensures
            final(self)@ == with_hwall(old(self)@, x as int, y as int),
            final(self)@.wf(),
    {
        proof {
            self.lemma_wf_dims();
        }
        self.horizontal_walls[y][x] = true;
        self.horizontal_walls[y][x + 1] = true;
        self.cross_walls[x + 1][y] = true;
        proof {
            assert(self@ =~~= with_hwall(old(self)@, x as int, y as int));
        }
    }
}

} // verus!
