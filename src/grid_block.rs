//! Grid system to composite blocks.
use vstd::prelude::*;

mod grid_block_builder;
pub use grid_block_builder::{cell_value, covers, BlockGridBuilder};

verus! {

/// Row `y` of each grid of `grids`, concatenated left to right. A grid that
/// has no row `y` adds nothing.
pub open spec fn stitched_row<T>(grids: Seq<Seq<Seq<T>>>, y: int) -> Seq<T>
    decreases grids.len(),
{
    if grids.len() == 0 {
        Seq::empty()
    } else {
        let last = grids.last();
        stitched_row(grids.drop_last(), y) + if 0 <= y < last.len() {
            last[y]
        } else {
            Seq::empty()
        }
    }
}

/// The greatest number of rows among `grids`; zero where there is no grid.
pub open spec fn max_height_of<T>(grids: Seq<Seq<Seq<T>>>) -> nat
    decreases grids.len(),
{
    if grids.len() == 0 {
        0
    } else {
        let rest = max_height_of(grids.drop_last());
        if grids.last().len() > rest {
            grids.last().len()
        } else {
            rest
        }
    }
}

/// The rows of each grid of `grids`.
pub open spec fn grid_views<T>(grids: Seq<GridBlock<T>>) -> Seq<Seq<Seq<T>>> {
    grids.map_values(|g: GridBlock<T>| g@)
}

/// `refs` refers, in order, to values equal to those of `vals`.
pub open spec fn refers_to<T>(refs: Seq<&T>, vals: Seq<T>) -> bool {
    &&& refs.len() == vals.len()
    &&& forall|i: int| 0 <= i < refs.len() ==> *#[trigger] refs[i] == vals[i]
}

/// Immutable grid of values, stored row by row.
pub struct GridBlock<T> {
    rows: Vec<Vec<T>>,
    width: usize,
    height: usize,
}

impl<T> View for GridBlock<T> {
    type V = Seq<Seq<T>>;

    /// The rows of the grid, top row first.
    closed spec fn view(&self) -> Seq<Seq<T>> {
        self.rows@.map_values(|r: Vec<T>| r@)
    }
}

impl<T> GridBlock<T> {
    #[verifier::type_invariant]
    closed spec fn inv(&self) -> bool {
        &&& self.rows@.len() == self.height
        &&& forall|i: int| 0 <= i < self.rows@.len() ==> #[trigger] self.rows@[i]@.len() == self.width
    }

    /// Number of columns; it also holds for a grid without rows.
    pub closed spec fn spec_width(&self) -> nat {
        self.width as nat
    }

    fn new(rows: Vec<Vec<T>>, width: usize, height: usize) -> (r: Self)
        requires
            rows@.len() == height,
            forall|i: int| 0 <= i < rows@.len() ==> #[trigger] rows@[i]@.len() == width,
        ensures
            r@ == rows@.map_values(|v: Vec<T>| v@),
            r.spec_width() == width,
    {
        GridBlock { rows, width, height }
    }

    /// Number of elements in x direction.
    pub fn width(&self) -> (r: usize)
        ensures
            r == self.spec_width(),
            forall|i: int| 0 <= i < self@.len() ==> #[trigger] self@[i].len() == r,
    {
        proof {
            use_type_invariant(self);
        }
        self.width
    }

    /// Number of elements in y direction.
    pub fn height(&self) -> (r: usize)
        ensures
            r == self@.len(),
    {
        proof {
            use_type_invariant(self);
        }
        self.height
    }

    /// The element in column `x` of row `y`, if the grid has that cell.
    pub fn get(&self, x: usize, y: usize) -> (r: Option<&T>)
        ensures
            r.is_some() <==> (y < self@.len() && x < self@[y as int].len()),
            r.is_some() ==> *r.unwrap() == self@[y as int][x as int],
    {
        proof {
            use_type_invariant(self);
        }
        if y < self.height && x < self.width {
            Some(&self.rows[y][x])
        } else {
            None
        }
    }

    /// All elements along row `y`, if the grid has that row.
    pub fn get_row_at(&self, y: usize) -> (r: Option<&[T]>)
        ensures
            r.is_some() <==> y < self@.len(),
            r.is_some() ==> r.unwrap()@ == self@[y as int],
    {
        proof {
            use_type_invariant(self);
        }
        if y < self.height {
            Some(self.rows[y].as_slice())
        } else {
            None
        }
    }

    /// Every row of the grid, top row first.
    pub fn iter(&self) -> (r: Vec<&[T]>)
        ensures
            r@.len() == self@.len(),
            forall|i: int| 0 <= i < r@.len() ==> (#[trigger] r@[i])@ == self@[i],
    {
        let mut out: Vec<&[T]> = Vec::new();
        let h = self.height();
        let mut y: usize = 0;
        while y < h
            invariant
                h == self@.len(),
                y <= h,
                out@.len() == y,
                forall|i: int| 0 <= i < out@.len() ==> (#[trigger] out@[i])@ == self@[i],
            decreases h - y,
        {
            let row = self.get_row_at(y).unwrap();
            out.push(row);
            y += 1;
        }
        out
    }

    /// Every element of row `y` of the grids in `grid`, left to right, as if
    /// they were one grid. Grids without row `y` are skipped.
    pub fn iter_along_x_axis(grid: &[GridBlock<T>], y: usize) -> (r: Vec<&T>)
        ensures
            refers_to(r@, stitched_row(grid_views(grid@), y as int)),
    {
        let mut out: Vec<&T> = Vec::new();
        let mut i: usize = 0;
        while i < grid.len()
            invariant
                i <= grid@.len(),
                refers_to(out@, stitched_row(grid_views(grid@).take(i as int), y as int)),
            decreases grid@.len() - i,
        {
            let ghost before = out@;
            let next = &grid[i];
            match next.get_row_at(y) {
                Some(row) => {
                    let mut j: usize = 0;
                    while j < row.len()
                        invariant
                            j <= row@.len(),
                            row@ == next@[y as int],
                            out@.len() == before.len() + j,
                            out@.subrange(0, before.len() as int) == before,
                            forall|k: int| 0 <= k < j ==> *#[trigger] out@[before.len() + k] == row@[k],
                        decreases row@.len() - j,
                    {
                        out.push(&row[j]);
                        j += 1;
                    }
                },
                None => {},
            }
            proof {
                let views = grid_views(grid@);
                assert(views.take(i + 1).drop_last() =~= views.take(i as int));
                assert(views.take(i + 1).last() == next@);
                let want = stitched_row(views.take(i + 1), y as int);
                assert(want.len() == out@.len());
                assert forall|k: int| 0 <= k < out@.len() implies *#[trigger] out@[k] == want[k] by {
                    if k >= before.len() {
                        assert(*out@[before.len() + (k - before.len())] == want[k]);
                    } else {
                        assert(out@.subrange(0, before.len() as int)[k] == before[k]);
                    }
                }
            }
            i += 1;
        }
        proof {
            assert(grid_views(grid@).take(grid@.len() as int) =~= grid_views(grid@));
        }
        out
    }

    /// The greatest height among the grids of `grid`, zero where there is
    /// none: the number of rows needed to show them side by side.
    pub fn max_height(grid: &[GridBlock<T>]) -> (r: usize)
        ensures
            r == max_height_of(grid_views(grid@)),
    {
        let mut max: usize = 0;
        let mut i: usize = 0;
        while i < grid.len()
            invariant
                i <= grid@.len(),
                max == max_height_of(grid_views(grid@).take(i as int)),
            decreases grid@.len() - i,
        {
            let h = grid[i].height();
            proof {
                let views = grid_views(grid@);
                assert(views.take(i + 1).drop_last() =~= views.take(i as int));
                assert(views.take(i + 1).last() == grid@[i as int]@);
            }
            if h > max {
                max = h;
            }
            i += 1;
        }
        proof {
            assert(grid_views(grid@).take(grid@.len() as int) =~= grid_views(grid@));
        }
        max
    }

    /// Rows `0..max_len` of the grids in `grid`, each stitched left to right
    /// as `iter_along_x_axis` does: traversal from the top left corner to the
    /// bottom right one.
    pub fn iter_top_left_bottom_right(grid: &[GridBlock<T>], max_len: usize) -> (r: Vec<Vec<&T>>)
        ensures
            r@.len() == max_len,
            forall|y: int|
                0 <= y < max_len ==> refers_to(
                    #[trigger] r@[y]@,
                    stitched_row(grid_views(grid@), y),
                ),
    {
        let mut out: Vec<Vec<&T>> = Vec::new();
        let mut y: usize = 0;
        while y < max_len
            invariant
                y <= max_len,
                out@.len() == y,
                forall|k: int|
                    0 <= k < y ==> refers_to(#[trigger] out@[k]@, stitched_row(grid_views(grid@), k)),
            decreases max_len - y,
        {
            let line = Self::iter_along_x_axis(grid, y);
            out.push(line);
            y += 1;
        }
        out
    }
}

} // verus!
