//! Occupancy tracking for the panel's cell grid.
//!
//! The grid is kept as one number per row: how many cells of that row are
//! taken, counted from the left edge. A request for a block of cells is given
//! the topmost run of rows that all have room for it; when there is none, the
//! grid grows downward.

use vstd::prelude::*;

verus! {

/// The smaller of two numbers.
pub open spec fn min_nat(a: nat, b: nat) -> nat {
    if a <= b {
        a
    } else {
        b
    }
}

/// The number of rows that are looked at together when a block of `height`
/// rows is placed: a block without rows still asks for one row with room.
pub open spec fn run_length(height: nat) -> nat {
    if height == 0 {
        1
    } else {
        height
    }
}

/// The rows `y .. y + count` exist and each has room for `width` more cells.
pub open spec fn fits_at(rows: Seq<nat>, grid_width: nat, width: nat, count: nat, y: int) -> bool {
    &&& 0 <= y
    &&& y + count <= rows.len()
    &&& forall|k: int| y <= k < y + count ==> #[trigger] rows[k] + width <= grid_width
}

/// `col` is the largest filled width among the rows `y .. y + count`.
pub open spec fn is_max_fill(rows: Seq<nat>, y: int, count: nat, col: nat) -> bool {
    &&& forall|k: int| y <= k < y + count ==> #[trigger] rows[k] <= col
    &&& exists|k: int| y <= k < y + count && #[trigger] rows[k] == col
}

/// The rows after a block of `width` by `height` cells was put at column
/// `col` of row `row`: the rows under the block are filled up to its right
/// edge, rows that did not exist before are created, all others stay.
pub open spec fn with_block(rows: Seq<nat>, col: nat, row: nat, width: nat, height: nat) -> Seq<
    nat,
> {
    Seq::new(
        if rows.len() >= row + height {
            rows.len()
        } else {
            row + height
        },
        |k: int|
            if row <= k < row + height {
                col + width
            } else {
                rows[k]
            },
    )
}

/// What `find_space` does with a request that is already clamped to
/// `width` by `height`: the block goes to the topmost row from which
/// `run_length(height)` rows all have room, at the largest filled width among
/// them; if no such row exists it goes to column 0 of new rows at the bottom.
pub open spec fn is_placement(
    before: Seq<nat>,
    grid_width: nat,
    width: nat,
    height: nat,
    col: nat,
    row: nat,
    after: Seq<nat>,
) -> bool {
    &&& forall|y: int| 0 <= y < row ==> !fits_at(before, grid_width, width, run_length(height), y)
    &&& if fits_at(before, grid_width, width, run_length(height), row as int) {
        is_max_fill(before, row as int, run_length(height), col)
    } else {
        col == 0 && row == before.len()
    }
    &&& after == with_block(before, col, row, width, height)
}

/// A block of cells: its top-left cell and its size.
#[derive(Clone, Copy, Debug, PartialEq, Eq, Structural)]
pub struct Block {
    pub col: u32,
    pub row: u32,
    pub width: u32,
    pub height: u32,
}

impl Block {
    /// The cell at column `x` of row `y` belongs to the block.
    pub open spec fn covers(self, x: int, y: int) -> bool {
        &&& self.col <= x < self.col + self.width
        &&& self.row <= y < self.row + self.height
    }

    /// The two blocks share a cell.
    pub open spec fn overlaps(self, other: Block) -> bool {
        exists|x: int, y: int| self.covers(x, y) && other.covers(x, y)
    }
}

/// One step of a series: a block is placed, or nothing happens.
pub open spec fn is_step(
    before: Seq<nat>,
    grid_width: nat,
    block: Option<Block>,
    after: Seq<nat>,
) -> bool {
    match block {
        Some(b) => is_placement(
            before,
            grid_width,
            b.width as nat,
            b.height as nat,
            b.col as nat,
            b.row as nat,
            after,
        ),
        None => after == before,
    }
}

/// The rows before the first, between and after the last step of a series
/// of placements: `states[i]` is what step `i` found and `states[i + 1]`
/// what it left.
pub open spec fn is_placement_series(
    grid_width: nat,
    states: Seq<Seq<nat>>,
    blocks: Seq<Option<Block>>,
) -> bool {
    &&& states.len() == blocks.len() + 1
    &&& forall|i: int|
        0 <= i < blocks.len() ==> is_step(#[trigger] states[i], grid_width, blocks[i], states[i + 1])
}

/// A placement creates the rows under its block, fills them up to the
/// block's right edge, and makes no row emptier than it was.
pub proof fn lemma_placement_fills(
    before: Seq<nat>,
    grid_width: nat,
    width: nat,
    height: nat,
    col: nat,
    row: nat,
    after: Seq<nat>,
)
    requires
        is_placement(before, grid_width, width, height, col, row, after),
    ensures
        before.len() <= after.len(),
        row + height <= after.len(),
        forall|k: int| row <= k < row + height ==> #[trigger] after[k] == col + width,
        forall|k: int| 0 <= k < before.len() ==> before[k] <= #[trigger] after[k],
{
    assert forall|k: int| 0 <= k < before.len() implies before[k] <= #[trigger] after[k] by {
        if row <= k < row + height {
            assert(fits_at(before, grid_width, width, run_length(height), row as int));
        }
    }
}

/// A placement stays inside the grid: when no row was filled beyond the
/// grid's width and the block is no wider than the grid, the block ends at or
/// before the grid's right edge, its rows exist afterwards, and still no row
/// is filled beyond the grid's width.
pub proof fn lemma_placement_in_bounds(
    before: Seq<nat>,
    grid_width: nat,
    width: nat,
    height: nat,
    col: nat,
    row: nat,
    after: Seq<nat>,
)
    requires
        is_placement(before, grid_width, width, height, col, row, after),
        width <= grid_width,
        forall|k: int| 0 <= k < before.len() ==> #[trigger] before[k] <= grid_width,
    ensures
        col + width <= grid_width,
        row + height <= after.len(),
        forall|k: int| 0 <= k < after.len() ==> #[trigger] after[k] <= grid_width,
{
    if fits_at(before, grid_width, width, run_length(height), row as int) {
        let k = choose|k: int| row <= k < row + run_length(height) && #[trigger] before[k] == col;
        assert(before[k] + width <= grid_width);
    }
}

/// When no row has room for the block, the grid grows by exactly the
/// block's height and the block stands at column 0 of the new rows.
pub proof fn lemma_placement_grows(
    before: Seq<nat>,
    grid_width: nat,
    width: nat,
    height: nat,
    col: nat,
    row: nat,
    after: Seq<nat>,
)
    requires
        is_placement(before, grid_width, width, height, col, row, after),
        forall|k: int| 0 <= k < before.len() ==> #[trigger] before[k] + width > grid_width,
    ensures
        col == 0,
        row == before.len(),
        after.len() == before.len() + height,
        after == before + Seq::new(height, |k: int| width),
{
    if fits_at(before, grid_width, width, run_length(height), row as int) {
        assert(before[row as int] + width <= grid_width);
    }
    assert(after =~= before + Seq::new(height, |k: int| width));
}

/// Every later state of a series keeps the rows under an earlier block
/// filled at least up to that block's right edge.
proof fn lemma_block_stays_filled(
    grid_width: nat,
    states: Seq<Seq<nat>>,
    blocks: Seq<Option<Block>>,
    i: int,
    j: int,
    y: int,
)
    requires
        is_placement_series(grid_width, states, blocks),
        0 <= i < j <= blocks.len(),
        blocks[i] is Some,
        blocks[i]->Some_0.row <= y < blocks[i]->Some_0.row + blocks[i]->Some_0.height,
    ensures
        y < states[j].len(),
        states[j][y] >= blocks[i]->Some_0.col + blocks[i]->Some_0.width,
    decreases j - i,
{
    assert(is_step(states[j - 1], grid_width, blocks[j - 1], states[j - 1 + 1]));
    if let Some(b) = blocks[j - 1] {
        lemma_placement_fills(
            states[j - 1],
            grid_width,
            b.width as nat,
            b.height as nat,
            b.col as nat,
            b.row as nat,
            states[j],
        );
    }
    if j - 1 > i {
        lemma_block_stays_filled(grid_width, states, blocks, i, j - 1, y);
    }
}

/// The blocks of a series of placements never overlap, whatever was asked
/// for and whatever the grid held at the start.
pub proof fn lemma_blocks_never_overlap(
    grid_width: nat,
    states: Seq<Seq<nat>>,
    blocks: Seq<Option<Block>>,
)
    requires
        is_placement_series(grid_width, states, blocks),
    ensures
        forall|i: int, j: int|
            0 <= i < j < blocks.len() && (#[trigger] blocks[i]) is Some && (#[trigger] blocks[j])
                is Some ==> !blocks[i]->Some_0.overlaps(blocks[j]->Some_0),
{
    assert forall|i: int, j: int|
        0 <= i < j < blocks.len() && (#[trigger] blocks[i]) is Some && (#[trigger] blocks[j])
            is Some implies !blocks[i]->Some_0.overlaps(blocks[j]->Some_0) by {
        let a = blocks[i]->Some_0;
        let b = blocks[j]->Some_0;
        assert forall|x: int, y: int| !(a.covers(x, y) && b.covers(x, y)) by {
            if a.covers(x, y) && b.covers(x, y) {
                lemma_block_stays_filled(grid_width, states, blocks, i, j, y);
                assert(is_step(states[j], grid_width, blocks[j], states[j + 1]));
                assert(fits_at(
                    states[j],
                    grid_width,
                    b.width as nat,
                    run_length(b.height as nat),
                    b.row as int,
                ));
                assert(states[j][y] <= b.col);
            }
        }
    }
}

/// A grid of cells, kept as the filled width of each row.
pub struct Grid {
    width: u32,
    height: u32,
    filled: Vec<u32>,
}

impl Grid {
    /// The number of columns.
    pub closed spec fn width(&self) -> nat {
        self.width as nat
    }

    /// The nominal number of rows; the grid may grow beyond it.
    pub closed spec fn height(&self) -> nat {
        self.height as nat
    }

    /// The filled width of each row that exists so far, top to bottom.
    pub closed spec fn rows(&self) -> Seq<nat> {
        Seq::new(self.filled@.len(), |i: int| self.filled@[i] as nat)
    }

    /// No row is filled beyond the grid's width.
    pub open spec fn wf(&self) -> bool {
        forall|i: int| 0 <= i < self.rows().len() ==> #[trigger] self.rows()[i] <= self.width()
    }

    /// An empty grid of the given size.
    pub fn new(width: u32, height: u32) -> (grid: Grid)
        ensures
            grid.wf(),
            grid.width() == width,
            grid.height() == height,
            grid.rows() == Seq::<nat>::empty(),
    {
        Grid { width, height, filled: Vec::new() }
    }

    /// The number of columns.
    pub fn columns(&self) -> (n: u32)
        ensures
            n == self.width(),
    {
        self.width
    }

    /// The number of rows that exist so far.
    pub fn row_count(&self) -> (n: usize)
        ensures
            n == self.rows().len(),
    {
        self.filled.len()
    }

    /// The filled width of row `y`.
    pub fn filled_width(&self, y: usize) -> (f: u32)
        requires
            y < self.rows().len(),
        ensures
            f == self.rows()[y as int],
    {
        self.filled[y]
    }

    /// Marks the block of `width` by `height` cells at column `x` of row `y`
    /// as taken. The rows must exist, none may already be filled beyond `x`,
    /// and the block must end inside the grid.
    pub fn fill(&mut self, x: u32, y: u32, width: u32, height: u32)
        requires
            old(self).wf(),
            y + height <= old(self).rows().len(),
            x + width <= old(self).width(),
            forall|k: int| y <= k < y + height ==> #[trigger] old(self).rows()[k] <= x,
        ensures
            final(self).wf(),
            final(self).width() == old(self).width(),
            final(self).height() == old(self).height(),
            final(self).rows() == with_block(
                old(self).rows(),
                x as nat,
                y as nat,
                width as nat,
                height as nat,
            ),
    {
        let len: usize = self.filled.len();
        assert(y + height <= len);
        let end: usize = y as usize + height as usize;
        let mut i: usize = y as usize;
        while i < end
            invariant
                y <= i <= end,
                end == y + height,
                end <= self.filled@.len(),
                self.filled@.len() == old(self).filled@.len(),
                self.width == old(self).width,
                self.height == old(self).height,
                x + width <= self.width,
                forall|k: int|
                    0 <= k < self.filled@.len() ==> #[trigger] self.filled@[k] == (if y <= k < i {
                        (x + width) as u32
                    } else {
                        old(self).filled@[k]
                    }),
            decreases end - i,
        {
            self.filled.set(i, x + width);
            i += 1;
        }
        assert(self.rows() =~= with_block(
            old(self).rows(),
            x as nat,
            y as nat,
            width as nat,
            height as nat,
        ));
    }

    /// Finds room for a block of `width` by `height` cells and marks it as
    /// taken. The request is first clamped to the grid's width and nominal
    /// height. Returns the column and the row of the block's top-left cell.
    pub fn find_space(&mut self, width: u32, height: u32) -> (cell: (u32, u32))
        requires
            old(self).wf(),
            old(self).rows().len() + min_nat(height as nat, old(self).height()) <= u32::MAX,
        ensures
            final(self).wf(),
            final(self).width() == old(self).width(),
            final(self).height() == old(self).height(),
            is_placement(
                old(self).rows(),
                old(self).width(),
                min_nat(width as nat, old(self).width()),
                min_nat(height as nat, old(self).height()),
                cell.0 as nat,
                cell.1 as nat,
                final(self).rows(),
            ),
            cell.0 + min_nat(width as nat, old(self).width()) <= old(self).width(),
            cell.1 + min_nat(height as nat, old(self).height()) <= final(self).rows().len(),
    {
        let w: u32 = if width < self.width {
            width
        } else {
            self.width
        };
        let h: u32 = if height < self.height {
            height
        } else {
            self.height
        };
        let ghost rows = self.rows();
        let ghost grid_width = self.width();
        let ghost count = run_length(h as nat);
        let mut start_index: Option<u32> = None;
        let mut max_column: u32 = 0;
        let n: usize = self.filled.len();
        let mut i: usize = 0;
        while i < n
            invariant
                i <= n,
                n == self.filled@.len(),
                n + h <= u32::MAX,
                *self == *old(self),
                self.wf(),
                rows == self.rows(),
                grid_width == self.width(),
                w == min_nat(width as nat, self.width()),
                h == min_nat(height as nat, self.height()),
                count == run_length(h as nat),
                start_index is None ==> max_column == 0,
                start_index matches Some(si) ==> si < i && is_max_fill(
                    rows,
                    si as int,
                    (i - si) as nat,
                    max_column as nat,
                ),
                ({
                    let s: int = match start_index {
                        Some(si) => si as int,
                        None => i as int,
                    };
                    &&& i - s < count
                    &&& forall|k: int| s <= k < i ==> #[trigger] rows[k] + w <= grid_width
                    &&& forall|y: int| 0 <= y < s ==> !fits_at(rows, grid_width, w as nat, count, y)
                }),
            decreases n - i,
        {
            let f: u32 = self.filled[i];
            assert(rows[i as int] == f);
            let space_left: u32 = self.width - f;
            if space_left >= w {
                let si: u32 = match start_index {
                    Some(si) => si,
                    None => {
                        start_index = Some(i as u32);
                        i as u32
                    },
                };
                if f > max_column {
                    max_column = f;
                }
                assert(is_max_fill(rows, si as int, (i + 1 - si) as nat, max_column as nat)) by {
                    if f == max_column {
                        assert(rows[i as int] == max_column);
                    } else {
                        let k = choose|k: int| si <= k < i && #[trigger] rows[k] == max_column;
                        assert(si <= k < i + 1 && rows[k] == max_column);
                    }
                }
                if i as u32 - si + 1 >= h {
                    assert(i + 1 - si == count);
                    assert(fits_at(rows, grid_width, w as nat, count, si as int));
                    assert(max_column + w <= grid_width) by {
                        let k = choose|k: int| si <= k < i + 1 && #[trigger] rows[k] == max_column;
                        assert(rows[k] + w <= grid_width);
                    }
                    self.fill(max_column, si, w, h);
                    return (max_column, si);
                }
            } else {
                assert forall|y: int| 0 <= y < i + 1 implies !fits_at(
                    rows,
                    grid_width,
                    w as nat,
                    count,
                    y,
                ) by {
                    if y + count > i {
                        assert(!(rows[i as int] + w <= grid_width));
                    }
                }
                if start_index.is_some() {
                    start_index = None;
                    max_column = 0;
                }
            }
            i += 1;
        }
        assert forall|y: int| 0 <= y < n implies !fits_at(rows, grid_width, w as nat, count, y) by {}
        let space_y: u32 = n as u32;
        let mut added: u32 = 0;
        while added < h
            invariant
                added <= h,
                n + h <= u32::MAX,
                self.filled@.len() == n + added,
                self.width == old(self).width,
                self.height == old(self).height,
                w <= self.width,
                n == old(self).filled@.len(),
                forall|k: int| 0 <= k < n ==> #[trigger] self.filled@[k] == old(self).filled@[k],
                forall|k: int| n <= k < n + added ==> #[trigger] self.filled@[k] == 0,
                old(self).wf(),
            decreases h - added,
        {
            self.filled.push(0);
            added += 1;
        }
        assert(self.wf()) by {
            assert forall|k: int| 0 <= k < self.rows().len() implies #[trigger] self.rows()[k]
                <= self.width() by {
                if k < n {
                    assert(old(self).rows()[k] <= old(self).width());
                }
            }
        }
        self.fill(0, space_y, w, h);
        assert(self.rows() =~= with_block(rows, 0, n as nat, w as nat, h as nat));
        (0, space_y)
    }
}

} // verus!
