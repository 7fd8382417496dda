//! Which parts of a fluid's faces show beside the solid boxes of a model.

use crate::direction::Direction;
use crate::fluid::fluid_side_outward_is_positive;
use vstd::prelude::*;

verus! {

/// The cells that boundaries cut out of the block behind one side: `columns`
/// along the side, `rows` upwards, and `layers` from one end of the block to the
/// other. Of each cell it is known whether it is open fluid and whether it is
/// solid.
#[derive(Debug)]
pub struct SideGrid {
    pub columns: usize,
    pub rows: usize,
    pub layers: usize,
    pub open: Vec<bool>,
    pub solid: Vec<bool>,
}

/// A face between two layers of cells.
#[derive(Clone, Copy, Debug, PartialEq, Eq, Structural)]
pub struct SideFace {
    pub column: usize,
    pub row: usize,
    pub boundary: usize,
}

impl SideGrid {
    pub open spec fn cells(self) -> int {
        self.columns * self.rows * self.layers
    }

    pub open spec fn well_formed(self) -> bool {
        &&& self.layers < usize::MAX
        &&& self.open@.len() == self.cells()
        &&& self.solid@.len() == self.cells()
    }

    /// The place of a cell among all cells.
    pub open spec fn cell(self, column: int, row: int, layer: int) -> int {
        (column * self.rows + row) * self.layers + layer
    }
}

/// Whether the way out of the block behind a side leads to higher layers.
pub open spec fn leads_up(direction: Direction) -> bool {
    direction == Direction::South || direction == Direction::East
}

/// The layer before a boundary, seen from the block's inside, where there is one.
pub open spec fn layer_inside(layers: int, direction: Direction, boundary: int) -> Option<int> {
    if leads_up(direction) {
        if boundary >= 1 {
            Some(boundary - 1)
        } else {
            None
        }
    } else if boundary < layers {
        Some(boundary)
    } else {
        None
    }
}

/// The layer behind a boundary, where there is one.
pub open spec fn layer_outside(layers: int, direction: Direction, boundary: int) -> Option<int> {
    if leads_up(direction) {
        if boundary < layers {
            Some(boundary)
        } else {
            None
        }
    } else if boundary >= 1 {
        Some(boundary - 1)
    } else {
        None
    }
}

/// Whether a face shows: where open fluid ends at something solid, or at the end
/// of the block where that end shows.
pub open spec fn shows(
    grid: SideGrid,
    direction: Direction,
    outer_shows: bool,
    column: int,
    row: int,
    boundary: int,
) -> bool {
    match layer_inside(grid.layers as int, direction, boundary) {
        None => false,
        Some(inside) => grid.open@[grid.cell(column, row, inside)] && match layer_outside(
            grid.layers as int,
            direction,
            boundary,
        ) {
            Some(outside) => grid.solid@[grid.cell(column, row, outside)],
            None => outer_shows,
        },
    }
}

/// The `n`-th face in the order of columns, rows and boundaries.
pub open spec fn nth_face(grid: SideGrid, n: int) -> (int, int, int) {
    let boundaries = grid.layers + 1;
    ((n / boundaries) / grid.rows as int, (n / boundaries) % grid.rows as int, n % boundaries)
}

/// The faces that show, among the first `n`.
pub open spec fn shown_faces(
    grid: SideGrid,
    direction: Direction,
    outer_shows: bool,
    n: int,
) -> Seq<(int, int, int)>
    decreases n,
{
    if n <= 0 {
        Seq::empty()
    } else {
        let before = shown_faces(grid, direction, outer_shows, n - 1);
        let (column, row, boundary) = nth_face(grid, n - 1);
        if shows(grid, direction, outer_shows, column, row, boundary) {
            before.push((column, row, boundary))
        } else {
            before
        }
    }
}

pub open spec fn face_places(faces: Seq<SideFace>) -> Seq<(int, int, int)> {
    faces.map_values(
        |face: SideFace| (face.column as int, face.row as int, face.boundary as int),
    )
}

proof fn lemma_cell_bounds(columns: int, rows: int, layers: int, c: int, r: int, l: int)
    requires
        0 <= c < columns,
        0 <= r < rows,
        0 <= l < layers,
    ensures
        0 <= c * rows + r,
        0 <= (c * rows + r) * layers,
        (c * rows + r) * layers + l < columns * rows * layers,
        c * rows + r < columns * rows,
{
    assert(0 <= c * rows && c * rows + rows <= columns * rows) by (nonlinear_arith)
        requires
            0 <= c < columns,
            0 <= rows,
    ;
    let k = c * rows + r;
    let total = columns * rows;
    assert(0 <= k * layers && k * layers + layers <= total * layers) by (nonlinear_arith)
        requires
            0 <= k < total,
            0 <= layers,
    ;
}

fn face_shows(
    grid: &SideGrid,
    direction: Direction,
    outer_shows: bool,
    column: usize,
    row: usize,
    boundary: usize,
) -> (yes: bool)
    requires
        grid.well_formed(),
        column < grid.columns,
        row < grid.rows,
        boundary <= grid.layers,
    ensures
        yes == shows(
            *grid,
            direction,
            outer_shows,
            column as int,
            row as int,
            boundary as int,
        ),
{
    let up: bool = fluid_side_outward_is_positive(direction);
    let inside: usize = if up {
        if boundary == 0 {
            return false;
        }
        boundary - 1
    } else {
        if boundary == grid.layers {
            return false;
        }
        boundary
    };
    let length: usize = grid.open.len();
    proof {
        lemma_cell_bounds(
            grid.columns as int,
            grid.rows as int,
            grid.layers as int,
            column as int,
            row as int,
            inside as int,
        );
        lemma_product_bounds(
            grid.columns as int,
            grid.rows as int,
            grid.layers as int,
        );
    }
    let start: usize = (column * grid.rows + row) * grid.layers;
    if !grid.open[start + inside] {
        return false;
    }
    let outside: usize = if up {
        if boundary == grid.layers {
            return outer_shows;
        }
        boundary
    } else {
        if boundary == 0 {
            return outer_shows;
        }
        boundary - 1
    };
    proof {
        lemma_cell_bounds(
            grid.columns as int,
            grid.rows as int,
            grid.layers as int,
            column as int,
            row as int,
            outside as int,
        );
    }
    grid.solid[start + outside]
}

proof fn lemma_product_bounds(columns: int, rows: int, layers: int)
    requires
        0 <= columns,
        0 <= rows,
        1 <= layers,
    ensures
        0 <= columns * rows <= columns * rows * layers,
{
    assert(0 <= columns * rows) by (nonlinear_arith)
        requires
            0 <= columns,
            0 <= rows,
    ;
    let area = columns * rows;
    assert(area <= area * layers) by (nonlinear_arith)
        requires
            0 <= area,
            1 <= layers,
    ;
}

proof fn lemma_nth_face(grid: SideGrid, c: int, r: int, b: int, n: int)
    requires
        0 <= r < grid.rows,
        0 <= b < grid.layers + 1,
        0 <= c,
        n == (c * grid.rows + r) * (grid.layers + 1) + b,
    ensures
        nth_face(grid, n) == (c, r, b),
{
    vstd::arithmetic::div_mod::lemma_fundamental_div_mod_converse(
        n,
        grid.layers + 1,
        c * grid.rows + r,
        b,
    );
    vstd::arithmetic::div_mod::lemma_fundamental_div_mod_converse(
        c * grid.rows + r,
        grid.rows as int,
        c,
        r,
    );
}

/// The number of all faces.
pub open spec fn face_count(grid: SideGrid) -> int {
    grid.columns * grid.rows * (grid.layers + 1)
}

/// The faces of a side that show, column by column, row by row, and from one end
/// of the block to the other.
#[verifier::rlimit(40)]
pub fn clipped_side_faces(grid: &SideGrid, direction: Direction, outer_shows: bool) -> (faces: Vec<
    SideFace,
>)
    requires
        grid.well_formed(),
    ensures
        face_places(faces@) == shown_faces(*grid, direction, outer_shows, face_count(*grid)),
{
    let mut faces: Vec<SideFace> = Vec::new();
    assert(face_places(faces@) =~= Seq::<(int, int, int)>::empty());
    let ghost boundaries = grid.layers + 1;
    let mut column: usize = 0;
    assert(0 * grid.rows * boundaries == 0) by (nonlinear_arith);
    while column < grid.columns
        invariant
            grid.well_formed(),
            boundaries == grid.layers + 1,
            column <= grid.columns,
            face_places(faces@) == shown_faces(
                *grid,
                direction,
                outer_shows,
                column * grid.rows * boundaries,
            ),
        decreases grid.columns - column,
    {
        let mut row: usize = 0;
        assert((column * grid.rows + 0) * boundaries == column * grid.rows * boundaries)
            by (nonlinear_arith);
        while row < grid.rows
            invariant
                grid.well_formed(),
                boundaries == grid.layers + 1,
                column < grid.columns,
                row <= grid.rows,
                face_places(faces@) == shown_faces(
                    *grid,
                    direction,
                    outer_shows,
                    (column * grid.rows + row) * boundaries,
                ),
            decreases grid.rows - row,
        {
            let mut boundary: usize = 0;
            assert(0 <= (column * grid.rows + row) * boundaries) by (nonlinear_arith)
                requires
                    0 <= column,
                    0 <= row,
                    0 <= grid.rows,
                    0 <= boundaries,
            ;
            while boundary < grid.layers + 1
                invariant
                    grid.well_formed(),
                    boundaries == grid.layers + 1,
                    column < grid.columns,
                    row < grid.rows,
                    boundary <= grid.layers + 1,
                    0 <= (column * grid.rows + row) * boundaries,
                    face_places(faces@) == shown_faces(
                        *grid,
                        direction,
                        outer_shows,
                        (column * grid.rows + row) * boundaries + boundary,
                    ),
                decreases grid.layers + 1 - boundary,
            {
                let ghost n = (column * grid.rows + row) * boundaries + boundary;
                proof {
                    lemma_nth_face(*grid, column as int, row as int, boundary as int, n);
                }
                let ghost before = faces@;
                if face_shows(grid, direction, outer_shows, column, row, boundary) {
                    let face: SideFace = SideFace { column, row, boundary };
                    faces.push(face);
                    assert(face_places(faces@) =~= face_places(before).push(
                        (column as int, row as int, boundary as int),
                    ));
                }
                assert(face_places(faces@) == shown_faces(*grid, direction, outer_shows, n + 1));
                boundary += 1;
            }
            assert((column * grid.rows + row) * boundaries + boundaries == (column * grid.rows + (
            row + 1)) * boundaries) by (nonlinear_arith);
            row += 1;
        }
        assert((column * grid.rows + grid.rows) * boundaries == (column + 1) * grid.rows
            * boundaries) by (nonlinear_arith);
        column += 1;
    }
    faces
}

/// A face that shows lies between open fluid on its inside and, where the block
/// goes on behind it, something solid. So no face shows inside open fluid.
pub proof fn lemma_no_face_inside_open_fluid(
    grid: SideGrid,
    direction: Direction,
    outer_shows: bool,
    column: int,
    row: int,
    boundary: int,
)
    requires
        0 < boundary < grid.layers,
        shows(grid, direction, outer_shows, column, row, boundary),
    ensures
        ({
            let inside = if leads_up(direction) {
                boundary - 1
            } else {
                boundary
            };
            let outside = if leads_up(direction) {
                boundary
            } else {
                boundary - 1
            };
            &&& grid.open@[grid.cell(column, row, inside)]
            &&& grid.solid@[grid.cell(column, row, outside)]
        }),
{
}

/// The cells of a surface, by columns and rows, that are not enclosed by the model.
pub open spec fn open_cells(enclosed: Seq<bool>, rows: int, n: int) -> Seq<(int, int)>
    decreases n,
{
    if n <= 0 {
        Seq::empty()
    } else {
        let before = open_cells(enclosed, rows, n - 1);
        if enclosed[n - 1] {
            before
        } else {
            before.push(((n - 1) / rows, (n - 1) % rows))
        }
    }
}

pub open spec fn cell_places(cells: Seq<(usize, usize)>) -> Seq<(int, int)> {
    cells.map_values(|cell: (usize, usize)| (cell.0 as int, cell.1 as int))
}

/// The cells of a fluid's surface that show, column by column.
pub fn clipped_top_cells(enclosed: &Vec<bool>, rows: usize) -> (cells: Vec<(usize, usize)>)
    requires
        rows > 0,
    ensures
        cell_places(cells@) == open_cells(enclosed@, rows as int, enclosed@.len() as int),
{
    let mut cells: Vec<(usize, usize)> = Vec::new();
    assert(cell_places(cells@) =~= Seq::<(int, int)>::empty());
    let mut i: usize = 0;
    while i < enclosed.len()
        invariant
            rows > 0,
            i <= enclosed@.len(),
            cell_places(cells@) == open_cells(enclosed@, rows as int, i as int),
        decreases enclosed@.len() - i,
    {
        if !enclosed[i] {
            let ghost before = cells@;
            cells.push((i / rows, i % rows));
            assert(cell_places(cells@) =~= cell_places(before).push(
                (i as int / rows as int, i as int % rows as int),
            ));
        }
        i += 1;
    }
    cells
}

/// A side of a fluid is looked at along its direction: the cell inside and the cell
/// outside touch at the boundary, and south and east lead to higher coordinates.
pub proof fn lemma_boundaries_lie_between_cells(layers: int, direction: Direction, boundary: int)
    requires
        0 <= boundary <= layers,
        direction != Direction::Up && direction != Direction::Down,
    ensures
        ({
            let step = direction.step();
            let along = step.0 + step.2;
            let inside = layer_inside(layers, direction, boundary);
            let outside = layer_outside(layers, direction, boundary);
            &&& inside matches Some(inside) ==> 0 <= inside < layers && 2 * inside + 1 + along == 2
                * boundary
            &&& outside matches Some(outside) ==> 0 <= outside < layers && 2 * outside + 1 - along
                == 2 * boundary
            &&& inside is None ==> boundary == (if along > 0 {
                0
            } else {
                layers
            })
            &&& outside is None ==> boundary == (if along > 0 {
                layers
            } else {
                0
            })
        }),
{
}

/// A side shows only where the fluid inside is open, and then where what lies outside is
/// solid, or at the edge of the grid where that is asked for.
pub proof fn lemma_sides_show_before_what_is_solid(
    grid: SideGrid,
    direction: Direction,
    outer_shows: bool,
    column: int,
    row: int,
    layer: int,
)
    requires
        0 <= layer < grid.layers,
        direction != Direction::Up && direction != Direction::Down,
    ensures
        ({
            let along = direction.step().0 + direction.step().2;
            let boundary = if along > 0 {
                layer + 1
            } else {
                layer
            };
            let beyond = layer + along;
            shows(grid, direction, outer_shows, column, row, boundary) <==> grid.open@[grid.cell(
                column,
                row,
                layer,
            )] && (if 0 <= beyond < grid.layers {
                grid.solid@[grid.cell(column, row, beyond)]
            } else {
                outer_shows
            })
        }),
{
}

/// Every face of a side grid is looked at once: the faces are numbered by column, row and
/// boundary.
pub proof fn lemma_faces_are_numbered(grid: SideGrid, column: int, row: int, boundary: int)
    requires
        0 <= column < grid.columns,
        0 <= row < grid.rows,
        0 <= boundary <= grid.layers,
    ensures
        ({
            let n = (column * grid.rows + row) * (grid.layers + 1) + boundary;
            0 <= n < face_count(grid) && nth_face(grid, n) == (column, row, boundary)
        }),
{
    let boundaries = grid.layers + 1;
    let rows = grid.rows as int;
    let line = column * rows + row;
    let n = line * boundaries + boundary;
    assert(line * boundaries == boundaries * line) by (nonlinear_arith);
    assert(column * rows == rows * column) by (nonlinear_arith);
    vstd::arithmetic::div_mod::lemma_fundamental_div_mod_converse(n, boundaries, line, boundary);
    vstd::arithmetic::div_mod::lemma_fundamental_div_mod_converse(line, rows, column, row);
    assert(0 <= line < grid.columns * rows) by (nonlinear_arith)
        requires
            line == column * rows + row,
            0 <= column < grid.columns,
            0 <= row < rows,
    ;
    assert(0 <= n < grid.columns * rows * boundaries) by (nonlinear_arith)
        requires
            n == line * boundaries + boundary,
            0 <= line < grid.columns * rows,
            0 <= boundary < boundaries,
    ;
}

/// The faces that are found are exactly those that show.
pub proof fn lemma_shown_faces_are_found(
    grid: SideGrid,
    direction: Direction,
    outer_shows: bool,
    column: int,
    row: int,
    boundary: int,
)
    requires
        0 <= column < grid.columns,
        0 <= row < grid.rows,
        0 <= boundary <= grid.layers,
    ensures
        shown_faces(grid, direction, outer_shows, face_count(grid)).contains(
            (column, row, boundary),
        ) <==> shows(grid, direction, outer_shows, column, row, boundary),
{
    lemma_faces_are_numbered(grid, column, row, boundary);
    let n = (column * grid.rows + row) * (grid.layers + 1) + boundary;
    let face = (column, row, boundary);
    if shows(grid, direction, outer_shows, column, row, boundary) {
        lemma_shown_face_is_kept(grid, direction, outer_shows, n, face_count(grid));
    }
    lemma_found_faces_show(grid, direction, outer_shows, face_count(grid));
}

proof fn lemma_shown_face_is_kept(
    grid: SideGrid,
    direction: Direction,
    outer_shows: bool,
    n: int,
    end: int,
)
    requires
        0 <= n < end,
        ({
            let (column, row, boundary) = nth_face(grid, n);
            shows(grid, direction, outer_shows, column, row, boundary)
        }),
    ensures
        shown_faces(grid, direction, outer_shows, end).contains(nth_face(grid, n)),
    decreases end,
{
    let all = shown_faces(grid, direction, outer_shows, end);
    if n == end - 1 {
        assert(all.last() == nth_face(grid, n));
    } else {
        lemma_shown_face_is_kept(grid, direction, outer_shows, n, end - 1);
        let before = shown_faces(grid, direction, outer_shows, end - 1);
        let i = choose|i: int| 0 <= i < before.len() && before[i] == nth_face(grid, n);
        assert(all[i] == nth_face(grid, n));
    }
}

proof fn lemma_found_faces_show(grid: SideGrid, direction: Direction, outer_shows: bool, end: int)
    ensures
        forall|i: int|
            0 <= i < shown_faces(grid, direction, outer_shows, end).len() ==> {
                let face = #[trigger] shown_faces(grid, direction, outer_shows, end)[i];
                shows(grid, direction, outer_shows, face.0, face.1, face.2)
            },
    decreases end,
{
    if end > 0 {
        lemma_found_faces_show(grid, direction, outer_shows, end - 1);
        let before = shown_faces(grid, direction, outer_shows, end - 1);
        let all = shown_faces(grid, direction, outer_shows, end);
        assert forall|i: int| 0 <= i < all.len() implies {
            let face = #[trigger] all[i];
            shows(grid, direction, outer_shows, face.0, face.1, face.2)
        } by {
            if i < before.len() {
                assert(all[i] == before[i]);
            }
        }
    }
}

/// The cells that are found open are exactly those that are not enclosed.
pub proof fn lemma_open_cells_are_found(enclosed: Seq<bool>, rows: int, column: int, row: int)
    requires
        0 <= column,
        0 <= row < rows,
        column * rows + row < enclosed.len(),
    ensures
        open_cells(enclosed, rows, enclosed.len() as int).contains((column, row)) <==> !enclosed[
        column * rows + row],
{
    let n = column * rows + row;
    assert(column * rows == rows * column) by (nonlinear_arith);
    assert(0 <= column * rows) by (nonlinear_arith)
        requires
            0 <= column,
            0 < rows,
    ;
    vstd::arithmetic::div_mod::lemma_fundamental_div_mod_converse(n, rows, column, row);
    lemma_open_cell(enclosed, rows, n, enclosed.len() as int);
}

proof fn lemma_open_cell(enclosed: Seq<bool>, rows: int, n: int, end: int)
    requires
        0 < rows,
        0 <= n < enclosed.len(),
        0 <= end <= enclosed.len(),
    ensures
        open_cells(enclosed, rows, end).contains((n / rows, n % rows)) <==> n < end
            && !enclosed[n],
    decreases end,
{
    let cell = (n / rows, n % rows);
    let all = open_cells(enclosed, rows, end);
    if end > 0 {
        lemma_open_cell(enclosed, rows, n, end - 1);
        let before = open_cells(enclosed, rows, end - 1);
        let last = ((end - 1) / rows, (end - 1) % rows);
        vstd::arithmetic::div_mod::lemma_fundamental_div_mod(n, rows);
        vstd::arithmetic::div_mod::lemma_fundamental_div_mod(end - 1, rows);
        if before.contains(cell) {
            let i = choose|i: int| 0 <= i < before.len() && before[i] == cell;
            assert(all[i] == cell);
        }
        if all.contains(cell) {
            let i = choose|i: int| 0 <= i < all.len() && all[i] == cell;
            if i < before.len() {
                assert(before[i] == cell);
            } else {
                assert(cell == last);
            }
        }
        if n == end - 1 && !enclosed[n] {
            assert(all.last() == cell);
        }
    }
}

/// The cells of a grid are numbered along its layers, then its rows and then its columns,
/// from nought on without a gap.
pub proof fn lemma_cells_are_numbered(grid: SideGrid, column: int, row: int, layer: int)
    requires
        grid.well_formed(),
        0 <= column < grid.columns,
        0 <= row < grid.rows,
        0 <= layer < grid.layers,
    ensures
        grid.cell(0, 0, 0) == 0,
        grid.cell(column, row, layer + 1) == grid.cell(column, row, layer) + 1,
        grid.cell(column, row + 1, 0) == grid.cell(column, row, grid.layers as int),
        grid.cell(column + 1, 0, 0) == grid.cell(column, grid.rows as int, 0),
        grid.cell(grid.columns as int, 0, 0) == grid.open@.len(),
        grid.open@.len() == grid.solid@.len(),
        0 <= grid.cell(column, row, layer) < grid.open@.len(),
{
    let (columns, rows, layers) = (grid.columns as int, grid.rows as int, grid.layers as int);
    assert((0 * rows + 0) * layers == 0) by (nonlinear_arith);
    assert((column * rows + row + 1) * layers == (column * rows + row) * layers + layers)
        by (nonlinear_arith);
    assert((column + 1) * rows == column * rows + rows) by (nonlinear_arith);
    assert((columns * rows + 0) * layers == columns * rows * layers) by (nonlinear_arith);
    assert(0 <= (column * rows + row) * layers + layer < columns * rows * layers)
        by (nonlinear_arith)
        requires
            0 <= column < columns,
            0 <= row < rows,
            0 <= layer < layers,
    ;
}

} // verus!
