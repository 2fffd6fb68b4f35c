//! The tile grid, and the cells of it on which a tower can be built.

use vstd::prelude::*;

verus! {

/// What stands on one cell of the map.
#[derive(Debug, Clone, Copy, PartialEq, Eq, Structural)]
pub enum Tile {
    Empty,
    Path,
    TowerPlot,
}

/// A cell of the grid. The host scales both numbers by the size of a tile to
/// get the cell's place in the world.
#[derive(Debug, Clone, Copy, PartialEq, Eq, Structural)]
pub struct Coordinate {
    pub column: usize,
    pub row: usize,
}

/// The tile grid, row by row. Rows need not have the same length.
pub struct TileMap {
    pub tiles: Vec<Vec<Tile>>,
}

/// Whether the grid has a cell at `row` and `column` and a tower plot on it.
pub open spec fn is_plot(grid: Seq<Seq<Tile>>, row: int, column: int) -> bool {
    &&& 0 <= row < grid.len()
    &&& 0 <= column < grid[row].len()
    &&& grid[row][column] == Tile::TowerPlot
}

/// Whether cell `a` comes before cell `b` when the grid is read row by row,
/// each row from its first column on.
pub open spec fn row_major_before(a: Coordinate, b: Coordinate) -> bool {
    a.row < b.row || (a.row == b.row && a.column < b.column)
}

/// The tower plots among the first `columns` cells of one row, by rising
/// column.
pub open spec fn row_plots(tiles: Seq<Tile>, row: int, columns: int) -> Seq<Coordinate>
    decreases columns,
{
    if columns <= 0 {
        Seq::empty()
    } else {
        let before = row_plots(tiles, row, columns - 1);
        if tiles[columns - 1] == Tile::TowerPlot {
            before.push(Coordinate { column: (columns - 1) as usize, row: row as usize })
        } else {
            before
        }
    }
}

/// The tower plots in the first `rows` rows of the grid, row after row.
pub open spec fn grid_plots(grid: Seq<Seq<Tile>>, rows: int) -> Seq<Coordinate>
    decreases rows,
{
    if rows <= 0 {
        Seq::empty()
    } else {
        grid_plots(grid, rows - 1) + row_plots(
            grid[rows - 1],
            rows - 1,
            grid[rows - 1].len() as int,
        )
    }
}

/// Within one row, `row_plots` lists exactly the columns below `columns` that
/// hold a tower plot, each once and by rising column.
pub proof fn lemma_row_plots(tiles: Seq<Tile>, row: int, columns: int)
    requires
        0 <= row <= usize::MAX,
        0 <= columns <= tiles.len(),
        columns <= usize::MAX,
    ensures
        forall|i: int|
            0 <= i < row_plots(tiles, row, columns).len() ==> {
                let cell = #[trigger] row_plots(tiles, row, columns)[i];
                &&& cell.row == row
                &&& cell.column < columns
                &&& tiles[cell.column as int] == Tile::TowerPlot
            },
        forall|c: int|
            0 <= c < columns && #[trigger] tiles[c] == Tile::TowerPlot ==> row_plots(
                tiles,
                row,
                columns,
            ).contains(Coordinate { column: c as usize, row: row as usize }),
        forall|i: int, j: int|
            0 <= i < j < row_plots(tiles, row, columns).len() ==> (#[trigger] row_plots(
                tiles,
                row,
                columns,
            )[i]).column < (#[trigger] row_plots(tiles, row, columns)[j]).column,
    decreases columns,
{
    if columns > 0 {
        lemma_row_plots(tiles, row, columns - 1);
        let before = row_plots(tiles, row, columns - 1);
        let all = row_plots(tiles, row, columns);
        if tiles[columns - 1] == Tile::TowerPlot {
            let last = Coordinate { column: (columns - 1) as usize, row: row as usize };
            assert(all == before.push(last));
            assert(all[before.len() as int] == last);
            assert forall|c: int| 0 <= c < columns && #[trigger] tiles[c] == Tile::TowerPlot
                implies all.contains(Coordinate { column: c as usize, row: row as usize }) by {
                let cell = Coordinate { column: c as usize, row: row as usize };
                if c < columns - 1 {
                    assert(before.contains(cell));
                    let i = choose|i: int| 0 <= i < before.len() && before[i] == cell;
                    assert(all[i] == cell);
                } else {
                    assert(all[before.len() as int] == cell);
                }
            }
        } else {
            assert(all == before);
        }
    }
}

/// `grid_plots` lists exactly the cells of the first `rows` rows that hold a
/// tower plot, each once and in row-major order.
pub proof fn lemma_grid_plots(grid: Seq<Seq<Tile>>, rows: int)
    requires
        0 <= rows <= grid.len(),
        rows <= usize::MAX,
        forall|r: int| 0 <= r < grid.len() ==> (#[trigger] grid[r]).len() <= usize::MAX,
    ensures
        forall|i: int|
            0 <= i < grid_plots(grid, rows).len() ==> {
                let cell = #[trigger] grid_plots(grid, rows)[i];
                &&& cell.row < rows
                &&& is_plot(grid, cell.row as int, cell.column as int)
            },
        forall|r: int, c: int|
            r < rows && #[trigger] is_plot(grid, r, c) ==> grid_plots(grid, rows).contains(
                Coordinate { column: c as usize, row: r as usize },
            ),
        forall|i: int, j: int|
            0 <= i < j < grid_plots(grid, rows).len() ==> row_major_before(
                #[trigger] grid_plots(grid, rows)[i],
                #[trigger] grid_plots(grid, rows)[j],
            ),
    decreases rows,
{
    if rows > 0 {
        lemma_grid_plots(grid, rows - 1);
        let above = grid_plots(grid, rows - 1);
        let tiles = grid[rows - 1];
        let here = row_plots(tiles, rows - 1, tiles.len() as int);
        let all = grid_plots(grid, rows);
        lemma_row_plots(tiles, rows - 1, tiles.len() as int);
        assert(all == above + here);
        assert forall|i: int| 0 <= i < all.len() implies {
            let cell = #[trigger] all[i];
            &&& cell.row < rows
            &&& is_plot(grid, cell.row as int, cell.column as int)
        } by {
            if i < above.len() {
                assert(all[i] == above[i]);
            } else {
                assert(all[i] == here[i - above.len()]);
            }
        }
        assert forall|r: int, c: int| r < rows && #[trigger] is_plot(grid, r, c) implies all.contains(
            Coordinate { column: c as usize, row: r as usize },
        ) by {
            let cell = Coordinate { column: c as usize, row: r as usize };
            if r < rows - 1 {
                assert(above.contains(cell));
                let i = choose|i: int| 0 <= i < above.len() && above[i] == cell;
                assert(all[i] == cell);
            } else {
                assert(tiles[c] == Tile::TowerPlot);
                assert(here.contains(cell));
                let i = choose|i: int| 0 <= i < here.len() && here[i] == cell;
                assert(all[above.len() + i] == cell);
            }
        }
        assert forall|i: int, j: int| 0 <= i < j < all.len() implies row_major_before(
            #[trigger] all[i],
            #[trigger] all[j],
        ) by {
            if j < above.len() {
                assert(all[i] == above[i] && all[j] == above[j]);
            } else if i < above.len() {
                assert(all[i] == above[i]);
                assert(all[j] == here[j - above.len()]);
            } else {
                assert(all[i] == here[i - above.len()]);
                assert(all[j] == here[j - above.len()]);
            }
        }
    }
}

impl TileMap {
    /// The grid as a sequence of rows.
    pub open spec fn view(&self) -> Seq<Seq<Tile>> {
        Seq::new(self.tiles@.len(), |r: int| self.tiles@[r]@)
    }

    /// The cells that hold a tower plot, in row-major order.
    pub open spec fn tower_plots(&self) -> Seq<Coordinate> {
        grid_plots(self@, self@.len() as int)
    }

    /// The tower plots are exactly the cells of the grid that hold one: every
    /// listed cell is a plot, every plot is listed, and the list runs in
    /// row-major order, so that no cell is listed twice.
    pub proof fn lemma_tower_plots(&self)
        ensures
            forall|i: int|
                0 <= i < self.tower_plots().len() ==> is_plot(
                    self@,
                    (#[trigger] self.tower_plots()[i]).row as int,
                    self.tower_plots()[i].column as int,
                ),
            forall|r: int, c: int| #[trigger]
                is_plot(self@, r, c) ==> self.tower_plots().contains(
                    Coordinate { column: c as usize, row: r as usize },
                ),
            forall|i: int, j: int|
                0 <= i < j < self.tower_plots().len() ==> row_major_before(
                    #[trigger] self.tower_plots()[i],
                    #[trigger] self.tower_plots()[j],
                ),
    {
        assert(self@.len() == self.tiles.len());
        assert forall|r: int| 0 <= r < self@.len() implies (#[trigger] self@[r]).len()
            <= usize::MAX by {
            assert(self@[r].len() == self.tiles@[r].len());
        }
        lemma_grid_plots(self@, self@.len() as int);
    }

    /// Reads the grid row by row and lists the cells that hold a tower plot.
    pub fn find_tower_plots(&self) -> (plots: Vec<Coordinate>)
        ensures
            plots@ == self.tower_plots(),
    {
        let mut plots: Vec<Coordinate> = Vec::new();
        let mut row: usize = 0;
        while row < self.tiles.len()
            invariant
                row <= self.tiles.len(),
                plots@ == grid_plots(self@, row as int),
            decreases self.tiles.len() - row,
        {
            let tiles = &self.tiles[row];
            let ghost above = plots@;
            let mut column: usize = 0;
            while column < tiles.len()
                invariant
                    column <= tiles.len(),
                    plots@ == above + row_plots(tiles@, row as int, column as int),
                decreases tiles.len() - column,
            {
                if tiles[column] == Tile::TowerPlot {
                    plots.push(Coordinate { column, row });
                }
                column += 1;
            }
            assert(self@[row as int] == tiles@);
            row += 1;
        }
        plots
    }
}

} // verus!
