//! The spatial grid: a fixed array of tiles, addressed with clamping.

use vstd::prelude::*;

verus! {

/// A 2D coordinate.
#[derive(Debug, Clone, Copy, PartialEq, Eq, Structural)]
pub struct Position<T> {
    pub x: T,
    pub y: T,
}

impl<T> Position<T> {
    pub fn new(x: T, y: T) -> (r: Position<T>)
        ensures
            r.x == x,
            r.y == y,
    {
        Position { x: x, y: y }
    }
}

/// One grid square.
#[derive(Debug, Clone, Copy, PartialEq, Eq, Structural)]
pub struct Tile {
    pub has_food: bool,
    pub pheromone_level: u16,
    /// Index of the agent standing here, if any.
    pub cell: Option<usize>,
}

/// A tile with nothing on it.
pub open spec fn empty_tile() -> Tile {
    Tile { has_food: false, pheromone_level: 0, cell: None }
}

/// Width x height tiles, row by row.
#[derive(Debug, PartialEq, Eq)]
pub struct Grid {
    x: usize,
    y: usize,
    internal: Vec<Tile>,
}

/// A coordinate held to `[0, n - 1]`.
pub open spec fn clamp_axis(v: int, n: int) -> int {
    if v < 0 {
        0
    } else if v >= n {
        n - 1
    } else {
        v
    }
}

/// One step of -1, 0 or 1 from `v`, held at 0 from below.
pub open spec fn step_axis(v: int, d: int) -> int {
    if v + d < 0 {
        0
    } else {
        v + d
    }
}

/// The position one step of `(dx, dy)` away, held at 0 from below.
pub open spec fn offset_spec(p: Position<usize>, dx: int, dy: int) -> Position<usize> {
    Position { x: step_axis(p.x as int, dx) as usize, y: step_axis(p.y as int, dy) as usize }
}

/// Steps from `p` by `(dx, dy)`; a step below 0 stays at 0.
pub fn offset(p: Position<usize>, dx: i8, dy: i8) -> (r: Position<usize>)
    requires
        -1 <= dx <= 1,
        -1 <= dy <= 1,
        p.x < usize::MAX,
        p.y < usize::MAX,
    ensures
        r == offset_spec(p, dx as int, dy as int),
{
    let x = if dx < 0 {
        if p.x == 0 {
            0
        } else {
            p.x - 1
        }
    } else {
        p.x + dx as usize
    };
    let y = if dy < 0 {
        if p.y == 0 {
            0
        } else {
            p.y - 1
        }
    } else {
        p.y + dy as usize
    };
    Position { x, y }
}

impl Grid {
    pub closed spec fn width(&self) -> nat {
        self.x as nat
    }

    pub closed spec fn height(&self) -> nat {
        self.y as nat
    }

    /// The tiles, row by row.
    pub closed spec fn tiles(&self) -> Seq<Tile> {
        self.internal@
    }

    pub open spec fn wf(&self) -> bool {
        &&& 1 <= self.width() <= usize::MAX
        &&& 1 <= self.height() <= usize::MAX
        &&& self.width() * self.height() <= usize::MAX
        &&& self.tiles().len() == self.width() * self.height()
    }

    /// Whether `p` lies on the grid.
    pub open spec fn contains(&self, p: Position<usize>) -> bool {
        p.x < self.width() && p.y < self.height()
    }

    /// Index of the tile at an on-grid position.
    pub open spec fn index_of(&self, x: int, y: int) -> int {
        y * self.width() + x
    }

    /// Index of the tile that `p` resolves to: each coordinate past the edge
    /// is held to the last row or column.
    pub open spec fn resolve_spec(&self, p: Position<usize>) -> int {
        self.index_of(clamp_axis(p.x as int, self.width() as int), clamp_axis(p.y as int, self.height() as int))
    }

    /// The position that `p` is held to.
    pub open spec fn clamped(&self, p: Position<usize>) -> Position<usize> {
        Position {
            x: clamp_axis(p.x as int, self.width() as int) as usize,
            y: clamp_axis(p.y as int, self.height() as int) as usize,
        }
    }

    /// The tile that `p` resolves to.
    pub open spec fn tile_at(&self, p: Position<usize>) -> Tile {
        self.tiles()[self.resolve_spec(p)]
    }

    /// A grid of `xp` x `yp` empty tiles.
    pub fn init(xp: usize, yp: usize) -> (r: Grid)
        requires
            1 <= xp,
            1 <= yp,
            xp * yp <= usize::MAX,
        ensures
            r.wf(),
            r.width() == xp,
            r.height() == yp,
            forall|i: int| 0 <= i < r.tiles().len() ==> r.tiles()[i] == empty_tile(),
    {
        let n = xp * yp;
        let mut internal: Vec<Tile> = Vec::with_capacity(n);
        let mut i: usize = 0;
        while i < n
            invariant
                0 <= i <= n,
                internal@.len() == i,
                forall|j: int| 0 <= j < i ==> internal@[j] == empty_tile(),
            decreases n - i,
        {
            internal.push(Tile { has_food: false, pheromone_level: 0, cell: None });
            i = i + 1;
        }
        Grid { x: xp, y: yp, internal }
    }

    pub fn get_x(&self) -> (r: usize)
        ensures
            r == self.width(),
    {
        self.x
    }

    pub fn get_y(&self) -> (r: usize)
        ensures
            r == self.height(),
    {
        self.y
    }

    /// Index of the tile that `p` resolves to. Coordinates past the edge are
    /// clamped, not wrapped.
    pub fn resolve(&self, p: Position<usize>) -> (r: usize)
        requires
            self.wf(),
        ensures
            r == self.resolve_spec(p),
            r < self.tiles().len(),
    {
        let cx = if p.x >= self.x {
            self.x - 1
        } else {
            p.x
        };
        let cy = if p.y >= self.y {
            self.y - 1
        } else {
            p.y
        };
        proof {
            lemma_index_in_bounds(cx as int, cy as int, self.x as int, self.y as int);
        }
        cy * self.x + cx
    }

    /// The tile that `p` resolves to.
    pub fn index(&self, p: Position<usize>) -> (r: &Tile)
        requires
            self.wf(),
        ensures
            *r == self.tile_at(p),
    {
        let i = self.resolve(p);
        &self.internal[i]
    }

    /// The tile at index `i`.
    pub fn tile(&self, i: usize) -> (r: &Tile)
        requires
            i < self.tiles().len(),
        ensures
            *r == self.tiles()[i as int],
    {
        &self.internal[i]
    }

    /// Replaces the tile at index `i`.
    pub(crate) fn set_tile(&mut self, i: usize, t: Tile)
        requires
            i < old(self).tiles().len(),
        ensures
            final(self).width() == old(self).width(),
            final(self).height() == old(self).height(),
            final(self).tiles() == old(self).tiles().update(i as int, t),
    {
        self.internal.set(i, t);
    }
}

/// An on-grid coordinate pair indexes a tile.
pub proof fn lemma_index_in_bounds(x: int, y: int, w: int, h: int)
    requires
        0 <= x < w,
        0 <= y < h,
    ensures
        0 <= y * w + x < w * h,
{
    assert(0 <= y * w + x < w * h) by (nonlinear_arith)
        requires
            0 <= x < w,
            0 <= y < h,
    ;
}

/// Every position resolves to a tile of the grid.
pub proof fn lemma_resolve_bounded(g: &Grid)
    requires
        g.wf(),
    ensures
        forall|p: Position<usize>| 0 <= #[trigger] g.resolve_spec(p) < g.tiles().len(),
{
    assert forall|p: Position<usize>| 0 <= #[trigger] g.resolve_spec(p) < g.tiles().len() by {
        lemma_index_in_bounds(
            clamp_axis(p.x as int, g.width() as int),
            clamp_axis(p.y as int, g.height() as int),
            g.width() as int,
            g.height() as int,
        );
    }
}

/// Distinct on-grid positions have distinct tiles.
pub proof fn lemma_index_injective(x1: int, y1: int, x2: int, y2: int, w: int)
    requires
        0 <= x1 < w,
        0 <= x2 < w,
        0 <= y1,
        0 <= y2,
        y1 * w + x1 == y2 * w + x2,
    ensures
        x1 == x2,
        y1 == y2,
{
    if y1 < y2 {
        assert(y1 * w + x1 < y2 * w + x2) by (nonlinear_arith)
            requires
                0 <= x1 < w,
                0 <= x2,
                0 <= y1 < y2,
        ;
    } else if y2 < y1 {
        assert(y2 * w + x2 < y1 * w + x1) by (nonlinear_arith)
            requires
                0 <= x2 < w,
                0 <= x1,
                0 <= y2 < y1,
        ;
    }
}

/// Resolution clamps: every position resolves to the tile of its clamped
/// position, which lies on the grid, and an on-grid position resolves to its
/// own tile. Past a corner both coordinates are held, giving the corner tile.
pub proof fn lemma_resolve_clamps(g: &Grid, p: Position<usize>)
    requires
        g.wf(),
    ensures
        g.contains(g.clamped(p)),
        g.resolve_spec(p) == g.resolve_spec(g.clamped(p)),
        g.contains(p) ==> g.clamped(p) == p,
        p.x >= g.width() ==> g.clamped(p).x == g.width() - 1,
        p.y >= g.height() ==> g.clamped(p).y == g.height() - 1,
{
}

} // verus!
