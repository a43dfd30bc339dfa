//! The grid store: a fixed rectangle of cells, the origin policy that maps a
//! caller's coordinates to storage, and bounds-checked reads and writes.

use vstd::prelude::*;
use crate::cell::Cell;
use crate::error::MapError;
use crate::text::push_char;
use crate::tile::ETypeFloor;

verus! {

/// A map of `X` columns by `Y` rows. `cells[row][col]` is the cell at
/// internal position `(col, row)`.
#[derive(Debug)]
pub struct MapData<const X: usize, const Y: usize> {
    pub name: String,
    pub cells: [[Cell; X]; Y],
    pub map_size_x: usize,
    pub map_size_y: usize,
    pub invert_row_origin: bool,
    pub invert_col_origin: bool,
}

/// What a map is, mathematically: its name, its rows of cells, the size it
/// declares and its two origin flags.
pub struct GridView {
    pub name: Seq<char>,
    pub rows: Seq<Seq<Cell>>,
    pub width: int,
    pub height: int,
    pub invert_row: bool,
    pub invert_col: bool,
}

/// The cell that a cleared grid holds at internal position `(col, row)`.
pub open spec fn blank_cell(col: int, row: int) -> Cell {
    Cell { x: col as usize, y: row as usize, type_floor: ETypeFloor::Empty }
}

/// `height` rows of `width` blank cells, each at its own position.
pub open spec fn blank_rows(width: nat, height: nat) -> Seq<Seq<Cell>> {
    Seq::new(height, |row: int| Seq::new(width, |col: int| blank_cell(col, row)))
}

impl GridView {
    /// Storage is no larger than a machine index reaches.
    pub open spec fn indexable(self) -> bool {
        &&& self.rows.len() <= usize::MAX
        &&& forall|row: int| 0 <= row < self.rows.len() ==> (#[trigger] self.rows[row]).len() <= usize::MAX
    }

    /// Storage is a rectangle of the declared size.
    pub open spec fn rectangular(self) -> bool {
        &&& self.rows.len() == self.height
        &&& forall|row: int| 0 <= row < self.rows.len() ==> (#[trigger] self.rows[row]).len() == self.width
    }

    /// Every cell records the position it is stored at.
    pub open spec fn canonical(self) -> bool {
        forall|row: int, col: int|
            0 <= row < self.rows.len() && 0 <= col < self.rows[row].len() ==> {
                &&& (#[trigger] self.rows[row][col]).x == col
                &&& self.rows[row][col].y == row
            }
    }

    /// The invariant of a grid: storage that a machine can index, of the
    /// declared size, in which every cell records its own position.
    pub open spec fn wf(self) -> bool {
        self.indexable() && self.rectangular() && self.canonical()
    }

    /// Storage has a cell at internal position `(col, row)`.
    pub open spec fn holds(self, col: int, row: int) -> bool {
        0 <= row < self.rows.len() && 0 <= col < self.rows[row].len()
    }

    /// The internal column of external coordinate `x`: one less, or the
    /// distance from the declared width where the row origin is inverted.
    pub open spec fn internal_x(self, x: int) -> int {
        if self.invert_row {
            self.width - x
        } else {
            x - 1
        }
    }

    /// The internal row of external coordinate `y`: one less, or the
    /// distance from the declared height where the column origin is
    /// inverted.
    pub open spec fn internal_y(self, y: int) -> int {
        if self.invert_col {
            self.height - y
        } else {
            y - 1
        }
    }

    /// The external pair `(x, y)` addresses a cell of the grid.
    pub open spec fn accepts(self, x: int, y: int) -> bool {
        self.holds(self.internal_x(x), self.internal_y(y))
    }

    /// The cell at internal position `(col, row)`, if there is one.
    pub open spec fn cell_at(self, col: int, row: int) -> Option<Cell> {
        if self.holds(col, row) {
            Some(self.rows[row][col])
        } else {
            None
        }
    }

    /// The grid with the tile at internal position `(col, row)` replaced.
    pub open spec fn with_tile(self, col: int, row: int, kind: ETypeFloor) -> GridView {
        GridView {
            rows: self.rows.update(
                row,
                self.rows[row].update(col, Cell { type_floor: kind, ..self.rows[row][col] }),
            ),
            ..self
        }
    }

    /// The grid after a write at external `(x, y)`: the addressed tile is
    /// replaced, or nothing changes where the pair addresses no cell.
    pub open spec fn put(self, x: int, y: int, kind: ETypeFloor) -> GridView {
        if self.accepts(x, y) {
            self.with_tile(self.internal_x(x), self.internal_y(y), kind)
        } else {
            self
        }
    }

    /// The name of the file a map is kept in: its name, then `.txt`.
    pub open spec fn file_name(self) -> Seq<char> {
        self.name + seq!['.', 't', 'x', 't']
    }

    /// The grid with every cell blank and at its own position.
    pub open spec fn cleared(self) -> GridView {
        GridView {
            rows: Seq::new(
                self.rows.len(),
                |row: int| Seq::new(self.rows[row].len(), |col: int| blank_cell(col, row)),
            ),
            ..self
        }
    }
}

impl GridView {
    /// A write that is accepted is seen by the read at the internal position
    /// it maps to: the cell there holds the new tile and keeps its
    /// coordinates.
    pub proof fn lemma_put_then_cell_at(self, x: int, y: int, kind: ETypeFloor)
        requires
            self.accepts(x, y),
        ensures
            self.put(x, y, kind).cell_at(self.internal_x(x), self.internal_y(y)) == Some(
                Cell { type_floor: kind, ..self.rows[self.internal_y(y)][self.internal_x(x)] },
            ),
    {
    }

    /// A write changes no cell but the one it addresses, and adds or removes
    /// none.
    pub proof fn lemma_put_keeps_others(self, x: int, y: int, kind: ETypeFloor, col: int, row: int)
        requires
            col != self.internal_x(x) || row != self.internal_y(y),
        ensures
            self.put(x, y, kind).cell_at(col, row) == self.cell_at(col, row),
    {
    }

    /// The last write wins: of two writes to one position only the second
    /// shows.
    pub proof fn lemma_put_overwrites(self, x: int, y: int, first: ETypeFloor, second: ETypeFloor)
        ensures
            self.put(x, y, first).put(x, y, second) == self.put(x, y, second),
    {
        if self.accepts(x, y) {
            assert(self.put(x, y, first).put(x, y, second).rows =~~= self.put(x, y, second).rows);
        }
    }

    /// A write keeps the invariant: the grid stays a rectangle of the
    /// declared size and no cell's coordinates change.
    pub proof fn lemma_put_keeps_wf(self, x: int, y: int, kind: ETypeFloor)
        requires
            self.wf(),
        ensures
            self.put(x, y, kind).wf(),
    {
    }

    /// With an axis not inverted, coordinate `0` on it addresses nothing:
    /// the write is refused and the grid stays as it was.
    pub proof fn lemma_zero_is_refused(self, x: int, y: int, kind: ETypeFloor)
        requires
            (x == 0 && !self.invert_row) || (y == 0 && !self.invert_col),
        ensures
            !self.accepts(x, y),
            self.put(x, y, kind) == self,
    {
    }

    /// On a rectangular grid the accepted coordinates are `1..=width` by
    /// `1..=height`, whichever axes are inverted. Coordinate `0` on an
    /// inverted axis maps to one past the last index, and is refused like
    /// any other.
    pub proof fn lemma_accepted_range(self, x: int, y: int)
        requires
            self.rectangular(),
        ensures
            self.accepts(x, y) <==> 1 <= x <= self.width && 1 <= y <= self.height,
    {
    }

    /// A cleared grid is blank everywhere, every cell records its own
    /// position, and the shape is the one before.
    pub proof fn lemma_cleared_is_blank(self)
        requires
            self.indexable(),
        ensures
            self.cleared().indexable(),
            self.cleared().canonical(),
            forall|row: int, col: int|
                self.holds(col, row) <==> #[trigger] self.cleared().holds(col, row),
            forall|row: int, col: int|
                self.holds(col, row) ==> #[trigger] self.cleared().cell_at(col, row) == Some(
                    blank_cell(col, row),
                ),
            self.rectangular() ==> self.cleared().wf(),
    {
    }

    /// Clearing twice is clearing once.
    pub proof fn lemma_cleared_idempotent(self)
        ensures
            self.cleared().cleared() == self.cleared(),
    {
        assert(self.cleared().cleared().rows =~~= self.cleared().rows);
    }
}

impl<const X: usize, const Y: usize> View for MapData<X, Y> {
    type V = GridView;

    open spec fn view(&self) -> GridView {
        GridView {
            name: self.name@,
            rows: Seq::new(Y as nat, |row: int| self.cells[row]@),
            width: self.map_size_x as int,
            height: self.map_size_y as int,
            invert_row: self.invert_row_origin,
            invert_col: self.invert_col_origin,
        }
    }
}

/// `X` by `Y` blank cells, each at its own position.
fn blank_cells<const X: usize, const Y: usize>() -> (cells: [[Cell; X]; Y])
    ensures
        forall|row: int, col: int|
            0 <= row < Y && 0 <= col < X ==> #[trigger] cells[row][col] == blank_cell(col, row),
{
    let blank = Cell { x: 0, y: 0, type_floor: ETypeFloor::Empty };
    let mut cells = [[blank; X]; Y];
    let mut row: usize = 0;
    while row < Y
        invariant
            row <= Y,
            forall|r: int, c: int|
                0 <= r < row && 0 <= c < X ==> #[trigger] cells[r][c] == blank_cell(c, r),
        decreases Y - row,
    {
        let mut col: usize = 0;
        while col < X
            invariant
                row < Y,
                col <= X,
                forall|r: int, c: int|
                    0 <= r < row && 0 <= c < X ==> #[trigger] cells[r][c] == blank_cell(c, r),
                forall|c: int| 0 <= c < col ==> #[trigger] cells[row as int][c] == blank_cell(c, row as int),
            decreases X - col,
        {
            cells[row][col] = Cell { x: col, y: row, type_floor: ETypeFloor::Empty };
            col = col + 1;
        }
        row = row + 1;
    }
    cells
}

impl<const X: usize, const Y: usize> MapData<X, Y> {
    /// The invariant of a map: it declares the size it has, and every cell
    /// records the position it is stored at.
    pub open spec fn wf(&self) -> bool {
        self@.wf()
    }

    /// The storage of a map is `Y` rows of `X` cells, so a map is
    /// rectangular when it declares that size, and only then (a map without
    /// rows has no row to hold against the declared width).
    pub proof fn lemma_view_shape(&self)
        ensures
            self@.indexable(),
            self@.rows.len() == Y,
            forall|row: int| 0 <= row < Y ==> (#[trigger] self@.rows[row]).len() == X,
            self.map_size_x == X && self.map_size_y == Y ==> self@.rectangular(),
            self@.rectangular() ==> self.map_size_y == Y && (Y > 0 ==> self.map_size_x == X),
    {
        if self@.rectangular() && Y > 0 {
            assert(self@.rows[0].len() == self.map_size_x);
        }
    }

    /// A map made of the given parts, as they are.
    pub fn new(
        name: String,
        cells: [[Cell; X]; Y],
        map_size_x: usize,
        map_size_y: usize,
        invert_row_origin: bool,
        invert_col_origin: bool,
    ) -> (map: Self)
        ensures
            map.name == name,
            map.cells == cells,
            map.map_size_x == map_size_x,
            map.map_size_y == map_size_y,
            map.invert_row_origin == invert_row_origin,
            map.invert_col_origin == invert_col_origin,
    {
        Self { name, cells, map_size_x, map_size_y, invert_row_origin, invert_col_origin }
    }

    /// The name of the file the map is kept in. It follows the name of the
    /// map, which may change at any time.
    pub fn file_name(&self) -> (path: String)
        ensures
            path@ == self@.file_name(),
    {
        let mut path = self.name.clone();
        push_char(&mut path, '.');
        push_char(&mut path, 't');
        push_char(&mut path, 'x');
        push_char(&mut path, 't');
        path
    }

    /// Makes every cell blank again, each at its own position. Name,
    /// declared size and origin flags stay as they are. Resetting a map that
    /// declares the size it has makes it well formed.
    pub fn reset(&mut self)
        ensures
            final(self)@ == old(self)@.cleared(),
            final(self)@.canonical(),
            old(self)@.rectangular() ==> final(self).wf(),
    {
        self.cells = blank_cells();
        assert(self@.rows =~~= old(self)@.cleared().rows);
    }

    /// The cell at the zero-based position `(x, y)`, read as given: no
    /// origin policy applies to reads.
    pub fn get_cell(&self, x: usize, y: usize) -> (found: Result<&Cell, MapError>)
        ensures
            match found {
                Ok(cell) => self@.cell_at(x as int, y as int) == Some(*cell),
                Err(e) => e == MapError::NotFound && self@.cell_at(x as int, y as int) is None,
            },
    {
        if y < Y && x < X {
            Ok(&self.cells[y][x])
        } else {
            Err(MapError::NotFound)
        }
    }

    /// Writes `t` at the external position `(x, y)`, which the origin policy
    /// maps to storage. A pair that addresses no cell, such as one with a
    /// coordinate `0`, is refused and the map stays as it was.
    pub fn update_cell(&mut self, x: usize, y: usize, t: ETypeFloor) -> (done: Result<(), MapError>)
        ensures
            final(self)@ == old(self)@.put(x as int, y as int, t),
            match done {
                Ok(_) => old(self)@.accepts(x as int, y as int),
                Err(e) => e == MapError::OutOfBounds && !old(self)@.accepts(x as int, y as int),
            },
            old(self).wf() ==> final(self).wf(),
    {
        let col = if self.invert_row_origin {
            self.map_size_x.checked_sub(x)
        } else {
            x.checked_sub(1)
        };
        let row = if self.invert_col_origin {
            self.map_size_y.checked_sub(y)
        } else {
            y.checked_sub(1)
        };
        match (col, row) {
            (Some(col), Some(row)) => {
                if row < Y && col < X {
                    self.cells[row][col].update(t);
                    assert(self@.rows =~~= old(self)@.put(x as int, y as int, t).rows);
                    Ok(())
                } else {
                    Err(MapError::OutOfBounds)
                }
            },
            _ => Err(MapError::OutOfBounds),
        }
    }
}

impl Default for MapData<20, 20> {
    /// The blank 20 by 20 map named `Map`, with no axis inverted.
    fn default() -> (map: Self)
        ensures
            map@ == (GridView {
                name: "Map"@,
                rows: blank_rows(20, 20),
                width: 20,
                height: 20,
                invert_row: false,
                invert_col: false,
            }),
            map.wf(),
    {
        let map = MapData::<20, 20> {
            name: "Map".to_owned(),
            cells: blank_cells(),
            map_size_x: 20,
            map_size_y: 20,
            invert_row_origin: false,
            invert_col_origin: false,
        };
        assert(map@.rows =~~= blank_rows(20, 20));
        map
    }
}

} // verus!
