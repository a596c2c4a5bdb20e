use super::GridBlock;
use vstd::prelude::*;

verus! {

/// Whether the square of cells that block (`bx`, `by`) covers, at the given
/// block size, holds cell (`x`, `y`).
pub open spec fn covers(block_size: int, bx: int, by: int, x: int, y: int) -> bool {
    &&& bx * block_size <= x < bx * block_size + block_size
    &&& by * block_size <= y < by * block_size + block_size
}

/// Value of cell (`x`, `y`) once `sectors` are drawn in order over a grid
/// filled with `default`: the value of the last sector whose block covers the
/// cell, or `default` where none does.
pub open spec fn cell_value<T>(
    block_size: int,
    sectors: Seq<(usize, usize, T)>,
    default: T,
    x: int,
    y: int,
) -> T
    decreases sectors.len(),
{
    if sectors.len() == 0 {
        default
    } else {
        let s = sectors.last();
        if covers(block_size, s.0 as int, s.1 as int, x, y) {
            s.2
        } else {
            cell_value(block_size, sectors.drop_last(), default, x, y)
        }
    }
}

/// Only one block of a given size covers a cell.
proof fn lemma_one_block_per_cell(block_size: int, a: int, b: int, x: int)
    requires
        block_size >= 1,
        a * block_size <= x < a * block_size + block_size,
        b * block_size <= x < b * block_size + block_size,
    ensures
        a == b,
{
    if a < b {
        assert((a + 1) * block_size <= b * block_size) by (nonlinear_arith)
            requires
                a + 1 <= b,
                block_size >= 1,
        ;
        assert(a * block_size + block_size == (a + 1) * block_size) by (nonlinear_arith);
    } else if b < a {
        assert((b + 1) * block_size <= a * block_size) by (nonlinear_arith)
            requires
                b + 1 <= a,
                block_size >= 1,
        ;
        assert(b * block_size + block_size == (b + 1) * block_size) by (nonlinear_arith);
    }
}

/// A cell that no sector covers keeps the default value.
proof fn lemma_uncovered_cell<T>(
    block_size: int,
    sectors: Seq<(usize, usize, T)>,
    default: T,
    x: int,
    y: int,
)
    requires
        forall|i: int|
            0 <= i < sectors.len() ==> {
                let s = #[trigger] sectors[i];
                !covers(block_size, s.0 as int, s.1 as int, x, y)
            },
    ensures
        cell_value(block_size, sectors, default, x, y) == default,
    decreases sectors.len(),
{
    if sectors.len() > 0 {
        let rest = sectors.drop_last();
        assert(sectors.last() == sectors[sectors.len() - 1]);
        assert forall|i: int| 0 <= i < rest.len() implies {
            let s = #[trigger] rest[i];
            !covers(block_size, s.0 as int, s.1 as int, x, y)
        } by {
            assert(rest[i] == sectors[i]);
        }
        lemma_uncovered_cell(block_size, rest, default, x, y);
    }
}

/// A cell takes the value of the last sector that covers it.
proof fn lemma_last_cover<T>(
    block_size: int,
    sectors: Seq<(usize, usize, T)>,
    default: T,
    x: int,
    y: int,
    j: int,
)
    requires
        0 <= j < sectors.len(),
        covers(block_size, sectors[j].0 as int, sectors[j].1 as int, x, y),
        forall|i: int|
            j < i < sectors.len() ==> {
                let s = #[trigger] sectors[i];
                !covers(block_size, s.0 as int, s.1 as int, x, y)
            },
    ensures
        cell_value(block_size, sectors, default, x, y) == sectors[j].2,
    decreases sectors.len(),
{
    let rest = sectors.drop_last();
    assert(sectors.last() == sectors[sectors.len() - 1]);
    if j < sectors.len() - 1 {
        assert(!covers(
            block_size,
            sectors[sectors.len() - 1].0 as int,
            sectors[sectors.len() - 1].1 as int,
            x,
            y,
        ));
        assert forall|i: int| j < i < rest.len() implies {
            let s = #[trigger] rest[i];
            !covers(block_size, s.0 as int, s.1 as int, x, y)
        } by {
            assert(rest[i] == sectors[i]);
        }
        assert(rest[j] == sectors[j]);
        lemma_last_cover(block_size, rest, default, x, y, j);
    }
}

/// Builder of an immutable `GridBlock`: block size, number of blocks along
/// each axis, the value of cells that no sector covers, and the sectors, in
/// the order in which they are drawn.
pub struct BlockGridBuilder<T> {
    block_size: usize,
    blocks_in_x: usize,
    blocks_in_y: usize,
    default_value: T,
    setting_blocks: Vec<(usize, usize, T)>,
}

impl<T> BlockGridBuilder<T> {
    /// A block has at least one cell, and the two axes are not both without
    /// blocks.
    pub open spec fn wf(&self) -> bool {
        &&& self.spec_block_size() >= 1
        &&& (self.spec_blocks_in_x() >= 1 || self.spec_blocks_in_y() >= 1)
    }

    /// Cells along each edge of a block.
    pub closed spec fn spec_block_size(&self) -> nat {
        self.block_size as nat
    }

    /// Blocks along the x axis.
    pub closed spec fn spec_blocks_in_x(&self) -> nat {
        self.blocks_in_x as nat
    }

    /// Blocks along the y axis.
    pub closed spec fn spec_blocks_in_y(&self) -> nat {
        self.blocks_in_y as nat
    }

    /// Value of every cell that no sector covers.
    pub closed spec fn spec_default(&self) -> T {
        self.default_value
    }

    /// Sectors as (block x, block y, value), in the order they were set.
    pub closed spec fn spec_sectors(&self) -> Seq<(usize, usize, T)> {
        self.setting_blocks@
    }

    /// Cells along the x axis of the grid that `build` makes.
    pub open spec fn spec_width(&self) -> nat {
        self.spec_block_size() * self.spec_blocks_in_x()
    }

    /// Cells along the y axis of the grid that `build` makes.
    pub open spec fn spec_height(&self) -> nat {
        self.spec_block_size() * self.spec_blocks_in_y()
    }

    /// Value that `build` gives cell (`x`, `y`).
    pub open spec fn spec_cell(&self, x: int, y: int) -> T {
        cell_value(self.spec_block_size() as int, self.spec_sectors(), self.spec_default(), x, y)
    }

    /// Whether `build` may run: both extents fit in `usize` and every sector
    /// lies inside the block grid.
    pub open spec fn buildable(&self) -> bool {
        &&& self.spec_width() <= usize::MAX
        &&& self.spec_height() <= usize::MAX
        &&& forall|i: int|
            0 <= i < self.spec_sectors().len() ==> {
                let s = #[trigger] self.spec_sectors()[i];
                s.0 < self.spec_blocks_in_x() && s.1 < self.spec_blocks_in_y()
            }
    }

    /// Same size configuration and default value as `other`.
    pub open spec fn same_frame(&self, other: &Self) -> bool {
        &&& self.spec_block_size() == other.spec_block_size()
        &&& self.spec_blocks_in_x() == other.spec_blocks_in_x()
        &&& self.spec_blocks_in_y() == other.spec_blocks_in_y()
        &&& self.spec_default() == other.spec_default()
    }
}

/// A cell that no sector's square of cells covers is drawn with the default
/// value.
pub proof fn lemma_uncovered_cell_is_default<T>(b: BlockGridBuilder<T>, x: int, y: int)
    requires
        forall|i: int|
            0 <= i < b.spec_sectors().len() ==> {
                let s = #[trigger] b.spec_sectors()[i];
                !covers(b.spec_block_size() as int, s.0 as int, s.1 as int, x, y)
            },
    ensures
        b.spec_cell(x, y) == b.spec_default(),
{
    lemma_uncovered_cell(b.spec_block_size() as int, b.spec_sectors(), b.spec_default(), x, y);
}

/// Of two sectors at one block coordinate, the later one decides every cell
/// of the block, when no sector after it is at that block coordinate.
pub proof fn lemma_last_write_wins<T>(b: BlockGridBuilder<T>, i: int, j: int, x: int, y: int)
    requires
        b.wf(),
        0 <= i < j < b.spec_sectors().len(),
        b.spec_sectors()[i].0 == b.spec_sectors()[j].0,
        b.spec_sectors()[i].1 == b.spec_sectors()[j].1,
        forall|k: int|
            j < k < b.spec_sectors().len() ==> {
                let s = #[trigger] b.spec_sectors()[k];
                s.0 != b.spec_sectors()[j].0 || s.1 != b.spec_sectors()[j].1
            },
        covers(
            b.spec_block_size() as int,
            b.spec_sectors()[j].0 as int,
            b.spec_sectors()[j].1 as int,
            x,
            y,
        ),
    ensures
        b.spec_cell(x, y) == b.spec_sectors()[j].2,
{
    let bs = b.spec_block_size() as int;
    let sectors = b.spec_sectors();
    assert forall|k: int| j < k < sectors.len() implies {
        let s = #[trigger] sectors[k];
        !covers(bs, s.0 as int, s.1 as int, x, y)
    } by {
        let s = sectors[k];
        if covers(bs, s.0 as int, s.1 as int, x, y) {
            lemma_one_block_per_cell(bs, s.0 as int, sectors[j].0 as int, x);
            lemma_one_block_per_cell(bs, s.1 as int, sectors[j].1 as int, y);
        }
    }
    lemma_last_cover(bs, sectors, b.spec_default(), x, y, j);
}

/// A builder whose sectors were reset draws the same cells as a fresh builder
/// with the same size configuration and default value: the default value
/// everywhere.
pub proof fn lemma_reset_matches_fresh<T>(
    reset: BlockGridBuilder<T>,
    fresh: BlockGridBuilder<T>,
    x: int,
    y: int,
)
    requires
        reset.spec_sectors() == Seq::<(usize, usize, T)>::empty(),
        fresh.spec_sectors() == Seq::<(usize, usize, T)>::empty(),
        reset.same_frame(&fresh),
    ensures
        reset.spec_cell(x, y) == fresh.spec_cell(x, y),
        reset.spec_cell(x, y) == reset.spec_default(),
{
}

impl<T: Default + Clone> Default for BlockGridBuilder<T> {
    /// A builder of a single cell whose default value is `T`'s default.
    fn default() -> (r: Self)
        ensures
            r.spec_block_size() == 1,
            r.spec_blocks_in_x() == 1,
            r.spec_blocks_in_y() == 1,
            r.spec_sectors() == Seq::<(usize, usize, T)>::empty(),
            r.wf(),
    {
        Self::init(T::default())
    }
}

impl<T: Clone> BlockGridBuilder<T> {
    /// A builder of a single cell, one block of size one; every cell that no
    /// sector covers holds `default_value`.
    pub fn with_default(default_value: T) -> (r: Self)
        ensures
            r.spec_block_size() == 1,
            r.spec_blocks_in_x() == 1,
            r.spec_blocks_in_y() == 1,
            r.spec_default() == default_value,
            r.spec_sectors() == Seq::<(usize, usize, T)>::empty(),
            r.wf(),
    {
        Self::init(default_value)
    }

    /// Sets how many cells a block edge has. The grid is then
    /// `block_size * blocks_in_x` cells wide and `block_size * blocks_in_y`
    /// cells high. A block size of zero is not accepted.
    pub fn block_size(&mut self, new_block_size: usize) -> (r: &mut Self)
        requires
            new_block_size >= 1,
        ensures
            r.spec_block_size() == new_block_size,
            r.spec_blocks_in_x() == old(self).spec_blocks_in_x(),
            r.spec_blocks_in_y() == old(self).spec_blocks_in_y(),
            r.spec_default() == old(self).spec_default(),
            r.spec_sectors() == old(self).spec_sectors(),
            old(self).wf() ==> r.wf(),
            *final(self) == *final(r),
    {
        self.block_size = new_block_size;
        self
    }

    /// Removes every sector; the size configuration stays.
    pub fn reset_sectors(&mut self) -> (r: &mut Self)
        ensures
            old(self).same_frame(r),
            r.spec_sectors() == Seq::<(usize, usize, T)>::empty(),
            old(self).wf() ==> r.wf(),
            *final(self) == *final(r),
    {
        self.setting_blocks.clear();
        self
    }

    /// Appends one sector per coordinate of `sectors`, in order, each with a
    /// clone of `value`: as many calls of `set_block_sector`.
    pub fn set_bulk_sectors(&mut self, value: T, sectors: &[(usize, usize)]) -> (r: &mut Self)
        ensures
            old(self).same_frame(r),
            r.spec_sectors().len() == old(self).spec_sectors().len() + sectors@.len(),
            r.spec_sectors().take(old(self).spec_sectors().len() as int) == old(self).spec_sectors(),
            forall|i: int|
                0 <= i < sectors@.len() ==> {
                    let s = #[trigger] r.spec_sectors()[old(self).spec_sectors().len() + i];
                    &&& s.0 == sectors@[i].0
                    &&& s.1 == sectors@[i].1
                    &&& cloned(value, s.2)
                },
            old(self).wf() ==> r.wf(),
            *final(self) == *final(r),
    {
        let ghost start = self.setting_blocks@;
        let mut i: usize = 0;
        while i < sectors.len()
            invariant
                i <= sectors@.len(),
                self.setting_blocks@.len() == start.len() + i,
                self.setting_blocks@.take(start.len() as int) == start,
                forall|k: int|
                    0 <= k < i ==> {
                        let s = #[trigger] self.setting_blocks@[start.len() + k];
                        &&& s.0 == sectors@[k].0
                        &&& s.1 == sectors@[k].1
                        &&& cloned(value, s.2)
                    },
                self.block_size == old(self).block_size,
                self.blocks_in_x == old(self).blocks_in_x,
                self.blocks_in_y == old(self).blocks_in_y,
                self.default_value == old(self).default_value,
            decreases sectors@.len() - i,
        {
            let (x, y) = sectors[i];
            self.setting_blocks.push((x, y, value.clone()));
            proof {
                assert(self.setting_blocks@.take(start.len() as int) =~= start);
            }
            i += 1;
        }
        self
    }

    /// Sets the number of blocks along the x axis. Zero blocks along both
    /// axes is not accepted.
    pub fn blocks_in_x(&mut self, new_blocks_in_x: usize) -> (r: &mut Self)
        requires
            new_blocks_in_x >= 1 || old(self).spec_blocks_in_y() >= 1,
        ensures
            r.spec_block_size() == old(self).spec_block_size(),
            r.spec_blocks_in_x() == new_blocks_in_x,
            r.spec_blocks_in_y() == old(self).spec_blocks_in_y(),
            r.spec_default() == old(self).spec_default(),
            r.spec_sectors() == old(self).spec_sectors(),
            old(self).wf() ==> r.wf(),
            *final(self) == *final(r),
    {
        self.blocks_in_x = new_blocks_in_x;
        self
    }

    /// Sets the number of blocks along the y axis. Zero blocks along both
    /// axes is not accepted.
    pub fn blocks_in_y(&mut self, new_blocks_in_y: usize) -> (r: &mut Self)
        requires
            new_blocks_in_y >= 1 || old(self).spec_blocks_in_x() >= 1,
        ensures
            r.spec_block_size() == old(self).spec_block_size(),
            r.spec_blocks_in_x() == old(self).spec_blocks_in_x(),
            r.spec_blocks_in_y() == new_blocks_in_y,
            r.spec_default() == old(self).spec_default(),
            r.spec_sectors() == old(self).spec_sectors(),
            old(self).wf() ==> r.wf(),
            *final(self) == *final(r),
    {
        self.blocks_in_y = new_blocks_in_y;
        self
    }

    /// Appends the sector (`x`, `y`) with `value`: every cell of that block
    /// holds `value` in the built grid, unless a later sector covers it.
    pub fn set_block_sector(&mut self, x: usize, y: usize, value: T) -> (r: &mut Self)
        ensures
            old(self).same_frame(r),
            r.spec_sectors() == old(self).spec_sectors().push((x, y, value)),
            old(self).wf() ==> r.wf(),
            *final(self) == *final(r),
    {
        self.setting_blocks.push((x, y, value));
        self
    }

    /// Draws the grid: every cell starts as a clone of the default value,
    /// then each sector, in the order set, fills the square of cells of its
    /// block with clones of its value, so that the last sector over a cell
    /// decides it.
    pub fn build(&self) -> (r: GridBlock<T>)
        requires
            self.buildable(),
        ensures
            r@.len() == self.spec_height(),
            r.spec_width() == self.spec_width(),
            forall|y: int| 0 <= y < r@.len() ==> #[trigger] r@[y].len() == self.spec_width(),
            forall|x: int, y: int|
                0 <= x < self.spec_width() && 0 <= y < self.spec_height() ==> cloned(
                    self.spec_cell(x, y),
                    #[trigger] r@[y][x],
                ),
    {
        let block_size = self.block_size;
        let width = block_size * self.blocks_in_x;
        let height = block_size * self.blocks_in_y;
        let ghost bs = block_size as int;
        let ghost sectors = self.setting_blocks@;
        let ghost dflt = self.default_value;
        let mut build: Vec<Vec<T>> = Vec::new();
        let mut y: usize = 0;
        while y < height
            invariant
                y <= height,
                dflt == self.default_value,
                build@.len() == y,
                forall|i: int| 0 <= i < y ==> #[trigger] build@[i]@.len() == width,
                forall|i: int, j: int|
                    0 <= i < y && 0 <= j < width ==> cloned(dflt, #[trigger] build@[i]@[j]),
            decreases height - y,
        {
            let mut row: Vec<T> = Vec::new();
            let mut x: usize = 0;
            while x < width
                invariant
                    x <= width,
                    dflt == self.default_value,
                    row@.len() == x,
                    forall|j: int| 0 <= j < x ==> cloned(dflt, #[trigger] row@[j]),
                decreases width - x,
            {
                row.push(self.default_value.clone());
                x += 1;
            }
            build.push(row);
            y += 1;
        }
        proof {
            assert(sectors.take(0).len() == 0);
        }
        let mut k: usize = 0;
        while k < self.setting_blocks.len()
            invariant
                k <= sectors.len(),
                sectors == self.setting_blocks@,
                bs == block_size,
                width == bs * self.blocks_in_x,
                height == bs * self.blocks_in_y,
                self.buildable(),
                build@.len() == height,
                forall|i: int| 0 <= i < height ==> #[trigger] build@[i]@.len() == width,
                forall|i: int, j: int|
                    0 <= i < height && 0 <= j < width ==> cloned(
                        cell_value(bs, sectors.take(k as int), dflt, j, i),
                        #[trigger] build@[i]@[j],
                    ),
            decreases sectors.len() - k,
        {
            let sector = &self.setting_blocks[k];
            let value = &sector.2;
            proof {
                assert(self.spec_sectors()[k as int] == sectors[k as int]);
                let bx = self.blocks_in_x as int;
                let by = self.blocks_in_y as int;
                let sx = sector.0 as int;
                let sy = sector.1 as int;
                assert(sx * bs + bs <= bs * bx) by (nonlinear_arith)
                    requires
                        sx + 1 <= bx,
                        bs >= 0,
                ;
                assert(sy * bs + bs <= bs * by) by (nonlinear_arith)
                    requires
                        sy + 1 <= by,
                        bs >= 0,
                ;
            }
            let scaled_x = sector.0 * block_size;
            let scaled_y = sector.1 * block_size;
            let max_x = scaled_x + block_size;
            let max_y = scaled_y + block_size;
            let ghost before = build@;
            let mut next_y = scaled_y;
            while next_y < max_y
                invariant
                    scaled_y <= next_y <= max_y,
                    max_y <= height,
                    max_x <= width,
                    max_x == scaled_x + block_size,
                    build@.len() == height,
                    forall|i: int| 0 <= i < height ==> #[trigger] build@[i]@.len() == width,
                    forall|i: int, j: int|
                        0 <= i < height && 0 <= j < width ==> cloned(
                            if scaled_x <= j < max_x && scaled_y <= i < next_y {
                                *value
                            } else {
                                cell_value(bs, sectors.take(k as int), dflt, j, i)
                            },
                            #[trigger] build@[i]@[j],
                        ),
                decreases max_y - next_y,
            {
                let mut next_x = scaled_x;
                while next_x < max_x
                    invariant
                        scaled_y <= next_y < max_y,
                        scaled_x <= next_x <= max_x,
                        max_y <= height,
                        max_x <= width,
                        build@.len() == height,
                        forall|i: int| 0 <= i < height ==> #[trigger] build@[i]@.len() == width,
                        forall|i: int, j: int|
                            0 <= i < height && 0 <= j < width ==> cloned(
                                if scaled_x <= j < max_x && (scaled_y <= i < next_y || (i
                                    == next_y && j < next_x)) {
                                    *value
                                } else {
                                    cell_value(bs, sectors.take(k as int), dflt, j, i)
                                },
                                #[trigger] build@[i]@[j],
                            ),
                    decreases max_x - next_x,
                {
                    build[next_y][next_x] = value.clone();
                    next_x += 1;
                }
                next_y += 1;
            }
            proof {
                let next = sectors.take(k + 1);
                assert(next.drop_last() =~= sectors.take(k as int));
                assert(next.last() == sectors[k as int]);
                assert forall|i: int, j: int|
                    0 <= i < height && 0 <= j < width implies covers(
                        bs,
                        sector.0 as int,
                        sector.1 as int,
                        j,
                        i,
                    ) == (scaled_x <= j < max_x && scaled_y <= i < max_y) by {}
            }
            k += 1;
        }
        proof {
            assert(sectors.take(sectors.len() as int) =~= sectors);
        }
        let r = GridBlock::new(build, width, height);
        proof {
            assert forall|y: int| 0 <= y < r@.len() implies #[trigger] r@[y].len()
                == self.spec_width() by {
                assert(r@[y] == build@[y]@);
            }
            assert forall|x: int, y: int|
                0 <= x < self.spec_width() && 0 <= y < self.spec_height() implies cloned(
                self.spec_cell(x, y),
                #[trigger] r@[y][x],
            ) by {
                assert(r@[y] == build@[y]@);
            }
        }
        r
    }

    fn init(value: T) -> (r: Self)
        ensures
            r.block_size == 1,
            r.blocks_in_x == 1,
            r.blocks_in_y == 1,
            r.default_value == value,
            r.setting_blocks@ == Seq::<(usize, usize, T)>::empty(),
    {
        BlockGridBuilder {
            block_size: 1,
            blocks_in_x: 1,
            blocks_in_y: 1,
            setting_blocks: Vec::new(),
            default_value: value,
        }
    }
}

} // verus!
