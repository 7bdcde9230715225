//! Static terrain grid.
//!
//! The grid holds one terrain classification per cell of a `size` x `size`
//! square. A continuous position is projected onto a cell by dividing each
//! coordinate by `SCALE` (flooring); the same projection gates both
//! classification queries and movement validation. Positions outside the
//! grid classify as absent and deny movement, as does an in-bounds cell
//! whose classification is still unset.

use vstd::prelude::*;

use crate::math::{Vec2, SCALE};

verus! {

/// Terrain classification of one grid cell.
#[derive(Clone, Copy, PartialEq, Eq, Structural, Debug)]
pub enum MapClass {
    /// No classification assigned yet; denies occupancy.
    Unset,
    Water,
    Floor,
    Wall,
    ClosedDoor,
    OpenDoor,
}

/// A fixed-size square grid of terrain classifications.
pub struct GameMap {
    pub size: usize,
    pub cells: Vec<MapClass>,
}

/// A classification permits occupancy exactly when it is known walkable
/// terrain: water, floor, or an open door. Absent (out of grid) and unset
/// cells deny movement, as do walls and closed doors.
pub open spec fn walkable(c: Option<MapClass>) -> bool {
    match c {
        Some(MapClass::Water) => true,
        Some(MapClass::Floor) => true,
        Some(MapClass::OpenDoor) => true,
        _ => false,
    }
}

/// Grid column of a position, in whole cells.
pub open spec fn cell_x(pos: Vec2) -> int {
    pos.x as int / SCALE as int
}

/// Grid row of a position, in whole cells.
pub open spec fn cell_y(pos: Vec2) -> int {
    pos.y as int / SCALE as int
}

impl GameMap {
    /// The cell store covers exactly the `size` x `size` square.
    pub open spec fn wf(self) -> bool {
        self.cells@.len() == self.size * self.size
    }

    /// Classification of the cell containing `pos`: `None` outside the
    /// grid, otherwise the stored value, row-major.
    pub open spec fn class_at_spec(self, pos: Vec2) -> Option<MapClass> {
        if pos.x < 0 || pos.y < 0 {
            None
        } else if cell_x(pos) >= self.size || cell_y(pos) >= self.size {
            None
        } else {
            Some(self.cells@[cell_y(pos) * self.size + cell_x(pos)])
        }
    }

    /// A position may be occupied exactly when its cell classifies as
    /// walkable terrain.
    pub open spec fn validate_move_spec(self, pos: Vec2) -> bool {
        walkable(self.class_at_spec(pos))
    }

    /// The cell sequence after storing `class` in the cell containing
    /// `pos`; unchanged when `pos` lies outside the grid.
    pub open spec fn set_class_spec(self, pos: Vec2, class: MapClass) -> Seq<MapClass> {
        if self.class_at_spec(pos) is Some {
            self.cells@.update(cell_y(pos) * self.size + cell_x(pos), class)
        } else {
            self.cells@
        }
    }

    /// Allocates a `size` x `size` grid with every cell unset.
    pub fn new(size: usize) -> (r: GameMap)
        requires
            size * size <= usize::MAX,
        ensures
            r.wf(),
            r.size == size,
            r.cells@ == Seq::new((size * size) as nat, |i: int| MapClass::Unset),
    {
        let n = size * size;
        let mut cells: Vec<MapClass> = Vec::new();
        let mut i: usize = 0;
        while i < n
            invariant
                i <= n,
                n == size * size,
                cells@ == Seq::new(i as nat, |k: int| MapClass::Unset),
            decreases n - i,
        {
            cells.push(MapClass::Unset);
            i = i + 1;
            assert(cells@ =~= Seq::new(i as nat, |k: int| MapClass::Unset));
        }
        GameMap { size, cells }
    }

    /// Classification of the cell containing `pos`, or `None` outside the
    /// grid.
    pub fn class_at(&self, pos: Vec2) -> (r: Option<MapClass>)
        requires
            self.wf(),
        ensures
            r == self.class_at_spec(pos),
    {
        if pos.x < 0 || pos.y < 0 {
            return None;
        }
        let cx = (pos.x as usize) / (SCALE as usize);
        let cy = (pos.y as usize) / (SCALE as usize);
        if cx >= self.size || cy >= self.size {
            return None;
        }
        let n = self.cells.len();
        assert(cy * self.size + cx < n) by (nonlinear_arith)
            requires
                cy < self.size,
                cx < self.size,
                n == self.size * self.size,
        ;
        Some(self.cells[cy * self.size + cx])
    }

    /// Check whether a position can be occupied by an entity, for example
    /// whether a wall stands there.
    pub fn validate_move(&self, pos: Vec2) -> (r: bool)
        requires
            self.wf(),
        ensures
            r == self.validate_move_spec(pos),
    {
        match self.class_at(pos) {
            Some(class) => match class {
                MapClass::Wall => false,
                MapClass::ClosedDoor => false,
                MapClass::Unset => false,
                _ => true,
            },
            None => false,
        }
    }

    /// Stores `class` in the cell containing `pos`; reports whether the
    /// position was inside the grid. This is the terrain-mutation entry
    /// point through which terrain-transition policies act on the grid.
    pub fn set_class_at(&mut self, pos: Vec2, class: MapClass) -> (hit: bool)
        requires
            old(self).wf(),
        ensures
            final(self).wf(),
            final(self).size == old(self).size,
            final(self).cells@ == old(self).set_class_spec(pos, class),
            hit == (old(self).class_at_spec(pos) is Some),
    {
        if pos.x < 0 || pos.y < 0 {
            return false;
        }
        let cx = (pos.x as usize) / (SCALE as usize);
        let cy = (pos.y as usize) / (SCALE as usize);
        if cx >= self.size || cy >= self.size {
            return false;
        }
        let n = self.cells.len();
        assert(cy * self.size + cx < n) by (nonlinear_arith)
            requires
                cy < self.size,
                cx < self.size,
                n == self.size * self.size,
        ;
        self.cells.set(cy * self.size + cx, class);
        true
    }
}

/// Movement legality depends only on the classification of the queried
/// cell: two grids that classify `pos` alike validate a move to `pos`
/// alike. In particular repeated queries against unchanged terrain return
/// the same result.
pub proof fn lemma_validate_move_depends_on_cell(m1: GameMap, m2: GameMap, pos: Vec2)
    requires
        m1.class_at_spec(pos) == m2.class_at_spec(pos),
    ensures
        m1.validate_move_spec(pos) == m2.validate_move_spec(pos),
{
}

} // verus!
