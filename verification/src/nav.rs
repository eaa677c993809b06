//! The walkability grid that path finding runs on: which cells are blocked,
//! which moves between cells are allowed, and the nearest open cell to a
//! blocked target.

use vstd::prelude::*;

verus! {

/// Rings searched around a blocked cell for an open one.
pub const NAV_NEAREST_OPEN_RINGS: i32 = 12;

/// The cells of the map, `width` by `height`, row by row.
pub struct NavGrid {
    pub width: i32,
    pub height: i32,
    pub blocked: Vec<bool>,
}

/// The cell `(cx, cz)` lies on a `width` by `height` grid.
pub open spec fn in_grid(width: int, height: int, cx: int, cz: int) -> bool {
    0 <= cx < width && 0 <= cz < height
}

impl NavGrid {
    pub open spec fn well_formed(&self) -> bool {
        &&& self.width >= 0
        &&& self.height >= 0
        &&& self.blocked@.len() == self.width * self.height
    }

    /// Whether `(cx, cz)` is blocked; every cell off the grid is.
    pub open spec fn blocked_at(&self, cx: int, cz: int) -> bool {
        if in_grid(self.width as int, self.height as int, cx, cz) {
            self.blocked@[cz * self.width + cx]
        } else {
            true
        }
    }

    /// An open grid of `width` by `height` cells.
    pub fn new(width: i32, height: i32) -> (grid: NavGrid)
        requires
            width >= 0,
            height >= 0,
            width * height <= usize::MAX,
        ensures
            grid.well_formed(),
            grid.width == width,
            grid.height == height,
            forall|cx: int, cz: int| in_grid(width as int, height as int, cx, cz) ==> !#[trigger] grid.blocked_at(cx, cz),
    {
        let count = (width as usize) * (height as usize);
        let mut blocked: Vec<bool> = Vec::new();
        let mut index: usize = 0;
        while index < count
            invariant
                index <= count,
                blocked@.len() == index,
                forall|i: int| 0 <= i < index ==> !#[trigger] blocked@[i],
            decreases count - index,
        {
            blocked.push(false);
            index = index + 1;
        }
        let grid = NavGrid { width, height, blocked };
        proof {
            assert forall|cx: int, cz: int| in_grid(width as int, height as int, cx, cz) implies !#[trigger] grid.blocked_at(cx, cz) by {
                lemma_cell_index(width as int, height as int, cx, cz);
            }
        }
        grid
    }

    /// Mark `(cx, cz)` blocked; cells off the grid are left alone.
    pub fn block_cell(&mut self, cx: i32, cz: i32)
        requires
            old(self).well_formed(),
        ensures
            final(self).well_formed(),
            final(self).width == old(self).width,
            final(self).height == old(self).height,
            forall|x: int, z: int| #[trigger] final(self).blocked_at(x, z)
                == (old(self).blocked_at(x, z) || (x == cx && z == cz)),
    {
        if cx < 0 || cz < 0 || cx >= self.width || cz >= self.height {
            return;
        }
        let index = self.cell_index(cx, cz);
        self.blocked.set(index, true);
        proof {
            assert forall|x: int, z: int| #[trigger] self.blocked_at(x, z) == (old(self).blocked_at(x, z) || (x == cx && z == cz)) by {
                if in_grid(self.width as int, self.height as int, x, z) {
                    lemma_cell_index(self.width as int, self.height as int, x, z);
                    if z * self.width + x == cz * self.width + cx {
                        lemma_cell_index_distinct(self.width as int, x, z, cx as int, cz as int);
                    }
                }
            }
        }
    }

    /// Whether `(cx, cz)` is blocked; cells off the grid are.
    pub fn is_blocked(&self, cx: i32, cz: i32) -> (blocked: bool)
        requires
            self.well_formed(),
        ensures
            blocked == self.blocked_at(cx as int, cz as int),
    {
        if cx < 0 || cz < 0 || cx >= self.width || cz >= self.height {
            return true;
        }
        let index = self.cell_index(cx, cz);
        self.blocked[index]
    }

    /// Position of `(cx, cz)` in the row-by-row cell list.
    fn cell_index(&self, cx: i32, cz: i32) -> (index: usize)
        requires
            self.well_formed(),
            in_grid(self.width as int, self.height as int, cx as int, cz as int),
        ensures
            index == cz * self.width + cx,
            index < self.blocked@.len(),
    {
        proof {
            lemma_cell_index(self.width as int, self.height as int, cx as int, cz as int);
        }
        let total = self.blocked.len();
        let row = cz as usize;
        let width = self.width as usize;
        let column = cx as usize;
        assert(row * width == cz * self.width);
        row * width + column
    }

    /// Whether a unit may step from `cell` by `(dx, dz)`: the target is open,
    /// and a diagonal step does not cut the corner of a blocked cell.
    pub open spec fn step_allowed(&self, cell: (i32, i32), dx: i32, dz: i32) -> bool {
        &&& !self.blocked_at(cell.0 + dx, cell.1 + dz)
        &&& (dx != 0 && dz != 0) ==> !self.blocked_at(cell.0 + dx, cell.1 as int) && !self.blocked_at(cell.0 as int, cell.1 + dz)
    }

    /// Whether a unit may step from `cell` by `(dx, dz)`.
    pub fn can_step(&self, cell: (i32, i32), dx: i32, dz: i32) -> (allowed: bool)
        requires
            self.well_formed(),
            -1 <= dx <= 1,
            -1 <= dz <= 1,
            i32::MIN < cell.0 < i32::MAX,
            i32::MIN < cell.1 < i32::MAX,
        ensures
            allowed == self.step_allowed(cell, dx, dz),
    {
        if self.is_blocked(cell.0 + dx, cell.1 + dz) {
            return false;
        }
        if dx != 0 && dz != 0 && (self.is_blocked(cell.0 + dx, cell.1) || self.is_blocked(cell.0, cell.1 + dz)) {
            return false;
        }
        true
    }

    /// The open cell a blocked target resolves to: the cell itself when open,
    /// else on the nearest ring around it (up to the ring limit) that has an
    /// open cell, the one closest to the centre, the first found scanning rows
    /// and then columns on ties. `None` when every ring is blocked.
    pub open spec fn nearest_open(&self, cell: (i32, i32)) -> Option<(i32, i32)> {
        if !self.blocked_at(cell.0 as int, cell.1 as int) {
            Some(cell)
        } else {
            self.open_from_ring(cell, 1)
        }
    }

    /// The result of the search from ring `ring` outwards.
    pub open spec fn open_from_ring(&self, cell: (i32, i32), ring: int) -> Option<(i32, i32)>
        decreases NAV_NEAREST_OPEN_RINGS + 1 - ring,
    {
        if ring > NAV_NEAREST_OPEN_RINGS || ring < 1 {
            None
        } else {
            match self.best_on_ring(cell, ring, (2 * ring + 1) * (2 * ring + 1)) {
                Some(found) => Some(found.0),
                None => self.open_from_ring(cell, ring + 1),
            }
        }
    }

    /// The best open cell among the first `scanned` positions of the square
    /// around `cell` at distance `ring` (row by row from `-ring`), with its
    /// squared distance: positions strictly inside the ring are skipped, and a
    /// later cell replaces the best only when strictly closer.
    pub open spec fn best_on_ring(&self, cell: (i32, i32), ring: int, scanned: int) -> Option<((i32, i32), int)>
        decreases scanned,
    {
        if scanned <= 0 {
            None
        } else {
            let before = self.best_on_ring(cell, ring, scanned - 1);
            let position = scanned - 1;
            let dz = position / (2 * ring + 1) - ring;
            let dx = position % (2 * ring + 1) - ring;
            let on_ring = abs_int(dx) == ring || abs_int(dz) == ring;
            let x = cell.0 + dx;
            let z = cell.1 + dz;
            let dist = dx * dx + dz * dz;
            if on_ring && !self.blocked_at(x, z) && (match before {
                Some((_, best)) => dist < best,
                None => true,
            }) {
                Some((((x as i32), (z as i32)), dist))
            } else {
                before
            }
        }
    }

    /// The open cell a blocked target resolves to; see `nearest_open`.
    pub fn nearest_open_cell(&self, cell: (i32, i32)) -> (found: Option<(i32, i32)>)
        requires
            self.well_formed(),
            i32::MIN + NAV_NEAREST_OPEN_RINGS <= cell.0 <= i32::MAX - NAV_NEAREST_OPEN_RINGS,
            i32::MIN + NAV_NEAREST_OPEN_RINGS <= cell.1 <= i32::MAX - NAV_NEAREST_OPEN_RINGS,
        ensures
            found == self.nearest_open(cell),
            self.is_nearest_open(cell, found),
            found matches Some(open) ==> !self.blocked_at(open.0 as int, open.1 as int),
    {
        proof {
            self.law_nearest_open_is_nearest(cell);
        }
        if !self.is_blocked(cell.0, cell.1) {
            return Some(cell);
        }
        let mut ring: i32 = 1;
        while ring <= NAV_NEAREST_OPEN_RINGS
            invariant
                self.well_formed(),
                1 <= ring <= NAV_NEAREST_OPEN_RINGS + 1,
                i32::MIN + NAV_NEAREST_OPEN_RINGS <= cell.0 <= i32::MAX - NAV_NEAREST_OPEN_RINGS,
                i32::MIN + NAV_NEAREST_OPEN_RINGS <= cell.1 <= i32::MAX - NAV_NEAREST_OPEN_RINGS,
                self.nearest_open(cell) == self.open_from_ring(cell, ring as int),
                self.is_nearest_open(cell, self.nearest_open(cell)),
            decreases NAV_NEAREST_OPEN_RINGS + 1 - ring,
        {
            let side: i32 = 2 * ring + 1;
            assert(0 < side * side <= 625) by (nonlinear_arith)
                requires
                    3 <= side <= 25,
            ;
            let count: i32 = side * side;
            assert(count == (2 * ring + 1) * (2 * ring + 1));
            let mut best: Option<((i32, i32), i32)> = None;
            let mut position: i32 = 0;
            while position < count
                invariant
                    self.well_formed(),
                    1 <= ring <= NAV_NEAREST_OPEN_RINGS,
                    side == 2 * ring + 1,
                    count == side * side,
                    0 <= position <= count,
                    i32::MIN + NAV_NEAREST_OPEN_RINGS <= cell.0 <= i32::MAX - NAV_NEAREST_OPEN_RINGS,
                    i32::MIN + NAV_NEAREST_OPEN_RINGS <= cell.1 <= i32::MAX - NAV_NEAREST_OPEN_RINGS,
                    match best {
                        Some((open, dist)) => self.best_on_ring(cell, ring as int, position as int) == Some((open, dist as int))
                            && !self.blocked_at(open.0 as int, open.1 as int),
                        None => self.best_on_ring(cell, ring as int, position as int) is None,
                    },
                decreases count - position,
            {
                let dz = position / side - ring;
                let dx = position % side - ring;
                proof {
                    assert(0 <= position / side < side) by (nonlinear_arith)
                        requires
                            0 <= position < side * side,
                            side > 0,
                    ;
                }
                let on_ring = dx == ring || dx == -ring || dz == ring || dz == -ring;
                let x = cell.0 + dx;
                let z = cell.1 + dz;
                proof {
                    assert(0 <= dx * dx <= ring * ring) by (nonlinear_arith)
                        requires
                            -ring <= dx <= ring,
                    ;
                    assert(0 <= dz * dz <= ring * ring) by (nonlinear_arith)
                        requires
                            -ring <= dz <= ring,
                    ;
                    assert(ring * ring <= 144) by (nonlinear_arith)
                        requires
                            1 <= ring <= 12,
                    ;
                }
                let dist = dx * dx + dz * dz;
                if on_ring && !self.is_blocked(x, z) {
                    let closer = match best {
                        Some((_, best_dist)) => dist < best_dist,
                        None => true,
                    };
                    if closer {
                        best = Some(((x, z), dist));
                    }
                }
                position = position + 1;
            }
            match best {
                Some((open, _)) => {
                    return Some(open);
                },
                None => {},
            }
            ring = ring + 1;
        }
        None
    }
}

/// Absolute value.
pub open spec fn abs_int(value: int) -> int {
    if value < 0 { -value } else { value }
}

proof fn lemma_cell_index(width: int, height: int, cx: int, cz: int)
    requires
        in_grid(width, height, cx, cz),
    ensures
        0 <= cz * width + cx < width * height,
{
    assert(0 <= cz * width + cx < width * height) by (nonlinear_arith)
        requires
            0 <= cx < width,
            0 <= cz < height,
    ;
}

proof fn lemma_cell_index_distinct(width: int, x: int, z: int, cx: int, cz: int)
    requires
        0 <= x < width,
        0 <= cx < width,
        0 <= z,
        0 <= cz,
        z * width + x == cz * width + cx,
    ensures
        x == cx && z == cz,
{
    assert(x == cx && z == cz) by (nonlinear_arith)
        requires
            0 <= x < width,
            0 <= cx < width,
            0 <= z,
            0 <= cz,
            z * width + x == cz * width + cx,
    ;
}

/// Column offset of the `p`-th position of the square scanned for ring
/// `ring` (row by row from `-ring`).
pub open spec fn ring_dx(ring: int, p: int) -> int {
    p % (2 * ring + 1) - ring
}

/// Row offset of the `p`-th position of the square scanned for ring `ring`.
pub open spec fn ring_dz(ring: int, p: int) -> int {
    p / (2 * ring + 1) - ring
}

/// The ring an offset lies on: its larger coordinate in absolute value.
pub open spec fn ring_of(dx: int, dz: int) -> int {
    if abs_int(dx) < abs_int(dz) { abs_int(dz) } else { abs_int(dx) }
}

/// Offset `(dx, dz)` wins over `(ox, oz)` on a ring: it is closer to the
/// centre, or as close and first in scan order (rows, then columns).
pub open spec fn scan_preferred(dx: int, dz: int, ox: int, oz: int) -> bool {
    ox * ox + oz * oz > dx * dx + dz * dz
        || (ox * ox + oz * oz == dx * dx + dz * dz && (oz > dz || (oz == dz && ox >= dx)))
}

/// A later scan position lies later in row-then-column order.
proof fn lemma_position_order(ring: int, p1: int, p2: int)
    requires
        ring >= 1,
        0 <= p1 < p2,
    ensures
        ring_dz(ring, p2) > ring_dz(ring, p1) || (ring_dz(ring, p2) == ring_dz(ring, p1) && ring_dx(ring, p2) > ring_dx(ring, p1)),
{
    let side = 2 * ring + 1;
    vstd::arithmetic::div_mod::lemma_fundamental_div_mod(p1, side);
    vstd::arithmetic::div_mod::lemma_fundamental_div_mod(p2, side);
    vstd::arithmetic::div_mod::lemma_mod_pos_bound(p1, side);
    vstd::arithmetic::div_mod::lemma_mod_pos_bound(p2, side);
    let q1 = p1 / side;
    let q2 = p2 / side;
    let r1 = p1 % side;
    let r2 = p2 % side;
    assert(q2 > q1 || (q2 == q1 && r2 > r1)) by (nonlinear_arith)
        requires
            p1 == side * q1 + r1,
            p2 == side * q2 + r2,
            0 <= r1 < side,
            0 <= r2 < side,
            p1 < p2,
            side > 0,
    ;
}

proof fn lemma_ring_position_bounds(ring: int, p: int)
    requires
        ring >= 1,
        0 <= p < (2 * ring + 1) * (2 * ring + 1),
    ensures
        -ring <= ring_dx(ring, p) <= ring,
        -ring <= ring_dz(ring, p) <= ring,
{
    let side = 2 * ring + 1;
    vstd::arithmetic::div_mod::lemma_mod_pos_bound(p, side);
    assert(0 <= p / side < side) by (nonlinear_arith)
        requires
            0 <= p < side * side,
            side > 0,
    ;
}

/// Every offset in the square of ring `ring` is scanned at some position.
proof fn lemma_ring_position_of(ring: int, dx: int, dz: int) -> (p: int)
    requires
        ring >= 1,
        -ring <= dx <= ring,
        -ring <= dz <= ring,
    ensures
        0 <= p < (2 * ring + 1) * (2 * ring + 1),
        ring_dx(ring, p) == dx,
        ring_dz(ring, p) == dz,
{
    let side = 2 * ring + 1;
    let p = (dz + ring) * side + (dx + ring);
    vstd::arithmetic::div_mod::lemma_fundamental_div_mod_converse(p, side, dz + ring, dx + ring);
    assert(0 <= p < side * side) by (nonlinear_arith)
        requires
            0 <= dz + ring < side,
            0 <= dx + ring < side,
            p == (dz + ring) * side + (dx + ring),
    ;
    p
}

impl NavGrid {
    proof fn lemma_best_on_ring(&self, cell: (i32, i32), ring: int, n: int)
        requires
            1 <= ring <= NAV_NEAREST_OPEN_RINGS,
            0 <= n <= (2 * ring + 1) * (2 * ring + 1),
            i32::MIN + NAV_NEAREST_OPEN_RINGS <= cell.0 <= i32::MAX - NAV_NEAREST_OPEN_RINGS,
            i32::MIN + NAV_NEAREST_OPEN_RINGS <= cell.1 <= i32::MAX - NAV_NEAREST_OPEN_RINGS,
        ensures
            match self.best_on_ring(cell, ring, n) {
                Some(found) => {
                    let dx = found.0.0 - cell.0;
                    let dz = found.0.1 - cell.1;
                    &&& !self.blocked_at(found.0.0 as int, found.0.1 as int)
                    &&& ring_of(dx, dz) == ring
                    &&& found.1 == dx * dx + dz * dz
                    &&& exists|pf: int| 0 <= pf < n && #[trigger] ring_dx(ring, pf) == dx && ring_dz(ring, pf) == dz
                    &&& forall|p: int| #![trigger ring_dx(ring, p)] 0 <= p < n
                        && (abs_int(ring_dx(ring, p)) == ring || abs_int(ring_dz(ring, p)) == ring)
                        && !self.blocked_at(cell.0 + ring_dx(ring, p), cell.1 + ring_dz(ring, p))
                        ==> scan_preferred(dx, dz, ring_dx(ring, p), ring_dz(ring, p))
                },
                None => forall|p: int| #![trigger ring_dx(ring, p)] 0 <= p < n
                    && (abs_int(ring_dx(ring, p)) == ring || abs_int(ring_dz(ring, p)) == ring)
                    ==> self.blocked_at(cell.0 + ring_dx(ring, p), cell.1 + ring_dz(ring, p)),
            },
        decreases n,
    {
        if n > 0 {
            self.lemma_best_on_ring(cell, ring, n - 1);
            lemma_ring_position_bounds(ring, n - 1);
            let dx = ring_dx(ring, n - 1);
            let dz = ring_dz(ring, n - 1);
            assert(ring_dx(ring, n - 1) == dx);
            match self.best_on_ring(cell, ring, n - 1) {
                Some(before) => {
                    let bx = before.0.0 - cell.0;
                    let bz = before.0.1 - cell.1;
                    let pf = choose|pf: int| 0 <= pf < n - 1 && #[trigger] ring_dx(ring, pf) == bx && ring_dz(ring, pf) == bz;
                    lemma_position_order(ring, pf, n - 1);
                },
                None => {},
            }
        }
    }

    proof fn lemma_open_from_ring(&self, cell: (i32, i32), k: int)
        requires
            1 <= k,
            i32::MIN + NAV_NEAREST_OPEN_RINGS <= cell.0 <= i32::MAX - NAV_NEAREST_OPEN_RINGS,
            i32::MIN + NAV_NEAREST_OPEN_RINGS <= cell.1 <= i32::MAX - NAV_NEAREST_OPEN_RINGS,
        ensures
            match self.open_from_ring(cell, k) {
                Some(found) => {
                    let dx = found.0 - cell.0;
                    let dz = found.1 - cell.1;
                    &&& !self.blocked_at(found.0 as int, found.1 as int)
                    &&& k <= ring_of(dx, dz) <= NAV_NEAREST_OPEN_RINGS
                    &&& forall|ox: int, oz: int| k <= #[trigger] ring_of(ox, oz) < ring_of(dx, dz)
                        ==> self.blocked_at(cell.0 + ox, cell.1 + oz)
                    &&& forall|ox: int, oz: int| #[trigger] ring_of(ox, oz) == ring_of(dx, dz)
                        && !self.blocked_at(cell.0 + ox, cell.1 + oz) ==> scan_preferred(dx, dz, ox, oz)
                },
                None => forall|ox: int, oz: int| k <= #[trigger] ring_of(ox, oz) <= NAV_NEAREST_OPEN_RINGS
                    ==> self.blocked_at(cell.0 + ox, cell.1 + oz),
            },
        decreases NAV_NEAREST_OPEN_RINGS + 1 - k,
    {
        if k <= NAV_NEAREST_OPEN_RINGS {
            let side = 2 * k + 1;
            self.lemma_best_on_ring(cell, k, side * side);
            self.lemma_open_from_ring(cell, k + 1);
            match self.best_on_ring(cell, k, side * side) {
                Some(found) => {
                    assert forall|ox: int, oz: int| #[trigger] ring_of(ox, oz) == k
                        && !self.blocked_at(cell.0 + ox, cell.1 + oz)
                        implies scan_preferred(found.0.0 - cell.0, found.0.1 - cell.1, ox, oz) by {
                        let p = lemma_ring_position_of(k, ox, oz);
                        assert(ring_dx(k, p) == ox);
                    }
                },
                None => {
                    assert forall|ox: int, oz: int| #[trigger] ring_of(ox, oz) == k
                        implies self.blocked_at(cell.0 + ox, cell.1 + oz) by {
                        let p = lemma_ring_position_of(k, ox, oz);
                        assert(ring_dx(k, p) == ox);
                    }
                },
            }
        }
    }

    /// The nearest open cell, stated directly: `found` is the cell itself
    /// when it is open; otherwise an open cell on the nearest ring around it
    /// (up to the ring limit) that has one, every cell on a nearer ring being
    /// blocked, with the smallest squared distance to the centre on its ring
    /// and, among equally close ones, the first scanning rows and then
    /// columns. `None` only when the cell and every ring up to the limit are
    /// blocked.
    pub open spec fn is_nearest_open(&self, cell: (i32, i32), found: Option<(i32, i32)>) -> bool {
        match found {
            Some(f) => {
                let dx = f.0 - cell.0;
                let dz = f.1 - cell.1;
                &&& !self.blocked_at(f.0 as int, f.1 as int)
                &&& ring_of(dx, dz) <= NAV_NEAREST_OPEN_RINGS
                &&& forall|ox: int, oz: int| #[trigger] ring_of(ox, oz) < ring_of(dx, dz)
                    ==> self.blocked_at(cell.0 + ox, cell.1 + oz)
                &&& forall|ox: int, oz: int| #[trigger] ring_of(ox, oz) == ring_of(dx, dz)
                    && !self.blocked_at(cell.0 + ox, cell.1 + oz) ==> scan_preferred(dx, dz, ox, oz)
            },
            None => forall|ox: int, oz: int| #[trigger] ring_of(ox, oz) <= NAV_NEAREST_OPEN_RINGS
                ==> self.blocked_at(cell.0 + ox, cell.1 + oz),
        }
    }

    /// The ring search finds exactly the nearest open cell stated directly
    /// by `is_nearest_open`.
    pub proof fn law_nearest_open_is_nearest(&self, cell: (i32, i32))
        requires
            i32::MIN + NAV_NEAREST_OPEN_RINGS <= cell.0 <= i32::MAX - NAV_NEAREST_OPEN_RINGS,
            i32::MIN + NAV_NEAREST_OPEN_RINGS <= cell.1 <= i32::MAX - NAV_NEAREST_OPEN_RINGS,
        ensures
            self.is_nearest_open(cell, self.nearest_open(cell)),
    {
        self.lemma_open_from_ring(cell, 1);
        assert forall|ox: int, oz: int| #[trigger] ring_of(ox, oz) < 1 implies ox == 0 && oz == 0 by {}
    }
}

} // verus!
