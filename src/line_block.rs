//! A line of glyphs at one block size, drawn side by side.
use crate::ascii_art_lib::{
    build_0, build_1, build_2, build_3, build_4, build_5, build_6, build_7, build_8, build_9,
    build_double_point, build_space, digit_cells, draws_glyph, lemma_digit_cells_within,
    separator_cells, within,
};
use crate::grid_block::{
    cell_value, covers, grid_views, max_height_of, refers_to, stitched_row, BlockGridBuilder,
    GridBlock,
};
use vstd::prelude::*;

verus! {

/// A glyph of a line: a digit, the `:` separator, or blank space.
#[derive(Clone, Copy, Debug, PartialEq, Eq)]
pub enum Glyph {
    Zero,
    One,
    Two,
    Three,
    Four,
    Five,
    Six,
    Seven,
    Eight,
    Nine,
    Separator,
    Space,
}

/// The glyph of digit `d`, for `d` below ten.
pub open spec fn digit_glyph(d: nat) -> Glyph {
    if d == 0 {
        Glyph::Zero
    } else if d == 1 {
        Glyph::One
    } else if d == 2 {
        Glyph::Two
    } else if d == 3 {
        Glyph::Three
    } else if d == 4 {
        Glyph::Four
    } else if d == 5 {
        Glyph::Five
    } else if d == 6 {
        Glyph::Six
    } else if d == 7 {
        Glyph::Seven
    } else if d == 8 {
        Glyph::Eight
    } else {
        Glyph::Nine
    }
}

/// Blocks that glyph `g` fills.
pub open spec fn glyph_cells(g: Glyph) -> Seq<(usize, usize)> {
    match g {
        Glyph::Zero => digit_cells(0),
        Glyph::One => digit_cells(1),
        Glyph::Two => digit_cells(2),
        Glyph::Three => digit_cells(3),
        Glyph::Four => digit_cells(4),
        Glyph::Five => digit_cells(5),
        Glyph::Six => digit_cells(6),
        Glyph::Seven => digit_cells(7),
        Glyph::Eight => digit_cells(8),
        Glyph::Nine => digit_cells(9),
        Glyph::Separator => separator_cells(),
        Glyph::Space => Seq::empty(),
    }
}

/// Blocks along the x axis of glyph `g`.
pub open spec fn glyph_blocks_x(g: Glyph) -> nat {
    match g {
        Glyph::Space => 1,
        _ => 3,
    }
}

/// Blocks along the y axis of glyph `g`.
pub open spec fn glyph_blocks_y(g: Glyph) -> nat {
    match g {
        Glyph::Space => 3,
        _ => 5,
    }
}

/// Whether glyph `g`, drawn at block size `block_size`, fills cell (`x`, `y`).
pub open spec fn glyph_fills(g: Glyph, block_size: nat, x: int, y: int) -> bool {
    exists|i: int|
        0 <= i < glyph_cells(g).len() && #[trigger] covers(
            block_size as int,
            glyph_cells(g)[i].0 as int,
            glyph_cells(g)[i].1 as int,
            x,
            y,
        )
}

/// The rows of glyph `g` drawn at block size `block_size`: `taken_v` where it
/// fills a cell, `default_v` elsewhere.
pub open spec fn glyph_view<T>(g: Glyph, block_size: nat, default_v: T, taken_v: T) -> Seq<Seq<T>> {
    Seq::new(
        block_size * glyph_blocks_y(g),
        |y: int|
            Seq::new(
                block_size * glyph_blocks_x(g),
                |x: int|
                    if glyph_fills(g, block_size, x, y) {
                        taken_v
                    } else {
                        default_v
                    },
            ),
    )
}

/// The rows of each glyph of `glyphs`.
pub open spec fn line_views<T>(glyphs: Seq<Glyph>, block_size: nat, default_v: T, taken_v: T) -> Seq<
    Seq<Seq<T>>,
> {
    glyphs.map_values(|g: Glyph| glyph_view(g, block_size, default_v, taken_v))
}

/// Glyphs of the decimal digits of `n`, most significant first, with one
/// space between each two digits.
pub open spec fn number_glyphs(n: nat) -> Seq<Glyph>
    decreases n,
{
    if n < 10 {
        seq![digit_glyph(n)]
    } else {
        number_glyphs(n / 10) + seq![Glyph::Space, digit_glyph(n % 10)]
    }
}

/// The glyphs of a number alternate digit, space, digit: one space between
/// each two digits, and none first or last.
pub proof fn lemma_number_spacing(n: nat)
    ensures
        number_glyphs(n).len() % 2 == 1,
        forall|i: int|
            0 <= i < number_glyphs(n).len() ==> {
                let g = #[trigger] number_glyphs(n)[i];
                &&& (g == Glyph::Space) == (i % 2 == 1)
                &&& g != Glyph::Separator
            },
    decreases n,
{
    if n >= 10 {
        lemma_number_spacing(n / 10);
        let a = number_glyphs(n / 10);
        let b = number_glyphs(n);
        assert(b =~= a + seq![Glyph::Space, digit_glyph(n % 10)]);
        assert forall|i: int| 0 <= i < b.len() implies {
            let g = #[trigger] b[i];
            &&& (g == Glyph::Space) == (i % 2 == 1)
            &&& g != Glyph::Separator
        } by {
            if i < a.len() {
                assert(b[i] == a[i]);
            }
        }
    }
}

/// Cloning a `T` gives a value equal to the original.
pub open spec fn clone_keeps_value<T: Clone>() -> bool {
    forall|a: T, b: T| #[trigger] cloned(a, b) ==> a == b
}

/// `a` and `b` have as many rows, and each row of `a` as many cells as that
/// of `b`.
pub open spec fn same_shape<T>(a: Seq<Seq<T>>, b: Seq<Seq<T>>) -> bool {
    &&& a.len() == b.len()
    &&& forall|y: int| 0 <= y < a.len() ==> (#[trigger] a[y]).len() == b[y].len()
}

/// Grids of equal shapes, one for one, have the same greatest height and
/// stitch to rows of equal lengths.
proof fn lemma_same_shapes<T>(a: Seq<Seq<Seq<T>>>, b: Seq<Seq<Seq<T>>>, y: int)
    requires
        a.len() == b.len(),
        forall|k: int| 0 <= k < a.len() ==> same_shape(#[trigger] a[k], b[k]),
    ensures
        max_height_of(a) == max_height_of(b),
        stitched_row(a, y).len() == stitched_row(b, y).len(),
    decreases a.len(),
{
    if a.len() > 0 {
        let ra = a.drop_last();
        let rb = b.drop_last();
        assert forall|k: int| 0 <= k < ra.len() implies same_shape(#[trigger] ra[k], rb[k]) by {
            assert(ra[k] == a[k]);
            assert(rb[k] == b[k]);
        }
        lemma_same_shapes(ra, rb, y);
        assert(same_shape(a[a.len() - 1], b[b.len() - 1]));
    }
}

/// Where every sector carries `taken_v`, a cell holds `taken_v` if a sector
/// covers it and `default_v` otherwise.
proof fn lemma_uniform_sectors<T>(
    block_size: int,
    sectors: Seq<(usize, usize, T)>,
    default_v: T,
    taken_v: T,
    x: int,
    y: int,
)
    requires
        forall|i: int| 0 <= i < sectors.len() ==> (#[trigger] sectors[i]).2 == taken_v,
    ensures
        cell_value(block_size, sectors, default_v, x, y) == if exists|i: int|
            0 <= i < sectors.len() && #[trigger] covers(
                block_size,
                sectors[i].0 as int,
                sectors[i].1 as int,
                x,
                y,
            ) {
            taken_v
        } else {
            default_v
        },
    decreases sectors.len(),
{
    if sectors.len() > 0 {
        let rest = sectors.drop_last();
        let n = sectors.len() - 1;
        assert(sectors.last() == sectors[n]);
        assert forall|i: int| 0 <= i < rest.len() implies (#[trigger] rest[i]).2 == taken_v by {
            assert(rest[i] == sectors[i]);
        }
        lemma_uniform_sectors(block_size, rest, default_v, taken_v, x, y);
        if covers(block_size, sectors[n].0 as int, sectors[n].1 as int, x, y) {
        } else {
            if exists|i: int|
                0 <= i < sectors.len() && #[trigger] covers(
                    block_size,
                    sectors[i].0 as int,
                    sectors[i].1 as int,
                    x,
                    y,
                ) {
                let i = choose|i: int|
                    0 <= i < sectors.len() && #[trigger] covers(
                        block_size,
                        sectors[i].0 as int,
                        sectors[i].1 as int,
                        x,
                        y,
                    );
                assert(rest[i] == sectors[i]);
            }
            if exists|i: int|
                0 <= i < rest.len() && #[trigger] covers(
                    block_size,
                    rest[i].0 as int,
                    rest[i].1 as int,
                    x,
                    y,
                ) {
                let i = choose|i: int|
                    0 <= i < rest.len() && #[trigger] covers(
                        block_size,
                        rest[i].0 as int,
                        rest[i].1 as int,
                        x,
                        y,
                    );
                assert(rest[i] == sectors[i]);
            }
        }
    }
}

/// The builder of glyph `g`.
fn glyph_builder<T: Clone>(g: Glyph, default_v: T, taken_v: T) -> (r: BlockGridBuilder<T>)
    ensures
        draws_glyph(r, default_v, taken_v, glyph_blocks_x(g), glyph_blocks_y(g), glyph_cells(g)),
        within(glyph_cells(g), glyph_blocks_x(g), glyph_blocks_y(g)),
{
    proof {
        lemma_digit_cells_within(0);
        lemma_digit_cells_within(1);
        lemma_digit_cells_within(2);
        lemma_digit_cells_within(3);
        lemma_digit_cells_within(4);
        lemma_digit_cells_within(5);
        lemma_digit_cells_within(6);
        lemma_digit_cells_within(7);
        lemma_digit_cells_within(8);
        lemma_digit_cells_within(9);
    }
    match g {
        Glyph::Zero => build_0(default_v, taken_v),
        Glyph::One => build_1(default_v, taken_v),
        Glyph::Two => build_2(default_v, taken_v),
        Glyph::Three => build_3(default_v, taken_v),
        Glyph::Four => build_4(default_v, taken_v),
        Glyph::Five => build_5(default_v, taken_v),
        Glyph::Six => build_6(default_v, taken_v),
        Glyph::Seven => build_7(default_v, taken_v),
        Glyph::Eight => build_8(default_v, taken_v),
        Glyph::Nine => build_9(default_v, taken_v),
        Glyph::Separator => build_double_point(default_v, taken_v),
        Glyph::Space => build_space(default_v),
    }
}

/// The glyph of digit `d`.
fn digit_glyph_of(d: u32) -> (r: Glyph)
    requires
        d < 10,
    ensures
        r == digit_glyph(d as nat),
{
    match d {
        0 => Glyph::Zero,
        1 => Glyph::One,
        2 => Glyph::Two,
        3 => Glyph::Three,
        4 => Glyph::Four,
        5 => Glyph::Five,
        6 => Glyph::Six,
        7 => Glyph::Seven,
        8 => Glyph::Eight,
        _ => Glyph::Nine,
    }
}

/// Builder of a line of glyphs: digits, separators and spaces, drawn at one
/// block size, with one value for filled cells and one for blank cells.
pub struct LineBlockBuilder<T> {
    block_size: usize,
    taken_value: T,
    default_value: T,
    glyphs: Vec<Glyph>,
}

impl<T> LineBlockBuilder<T> {
    /// Cells along each edge of a block.
    pub closed spec fn spec_block_size(&self) -> nat {
        self.block_size as nat
    }

    /// Value of the cells that a glyph fills.
    pub closed spec fn spec_taken(&self) -> T {
        self.taken_value
    }

    /// Value of the cells that a glyph leaves blank.
    pub closed spec fn spec_default(&self) -> T {
        self.default_value
    }

    /// The glyphs of the line, left to right.
    pub closed spec fn spec_glyphs(&self) -> Seq<Glyph> {
        self.glyphs@
    }

    /// Same block size and values as `other`.
    pub open spec fn same_settings(&self, other: &Self) -> bool {
        &&& self.spec_block_size() == other.spec_block_size()
        &&& self.spec_taken() == other.spec_taken()
        &&& self.spec_default() == other.spec_default()
    }

    /// The rows of each glyph of the line.
    pub open spec fn spec_views(&self) -> Seq<Seq<Seq<T>>> {
        line_views(self.spec_glyphs(), self.spec_block_size(), self.spec_default(), self.spec_taken())
    }
}

impl<T: Clone> LineBlockBuilder<T> {
    /// An empty line drawn at `block_size`, with `taken_value` in filled
    /// cells and `default_value` in blank ones.
    pub fn new(block_size: usize, taken_value: T, default_value: T) -> (r: Self)
        ensures
            r.spec_block_size() == block_size,
            r.spec_taken() == taken_value,
            r.spec_default() == default_value,
            r.spec_glyphs() == Seq::<Glyph>::empty(),
    {
        LineBlockBuilder { taken_value, default_value, block_size, glyphs: Vec::new() }
    }

    /// Appends a blank space.
    pub fn space(&mut self) -> (r: &mut Self)
        ensures
            r.same_settings(old(self)),
            r.spec_glyphs() == old(self).spec_glyphs().push(Glyph::Space),
            *final(self) == *final(r),
    {
        self.glyphs.push(Glyph::Space);
        self
    }

    /// Appends the glyph of digit 1.
    pub fn one(&mut self) -> (r: &mut Self)
        ensures
            r.same_settings(old(self)),
            r.spec_glyphs() == old(self).spec_glyphs().push(Glyph::One),
            *final(self) == *final(r),
    {
        self.glyphs.push(Glyph::One);
        self
    }

    /// Appends the glyph of digit 2.
    pub fn two(&mut self) -> (r: &mut Self)
        ensures
            r.same_settings(old(self)),
            r.spec_glyphs() == old(self).spec_glyphs().push(Glyph::Two),
            *final(self) == *final(r),
    {
        self.glyphs.push(Glyph::Two);
        self
    }

    /// Appends the glyph of digit 3.
    pub fn three(&mut self) -> (r: &mut Self)
        ensures
            r.same_settings(old(self)),
            r.spec_glyphs() == old(self).spec_glyphs().push(Glyph::Three),
            *final(self) == *final(r),
    {
        self.glyphs.push(Glyph::Three);
        self
    }

    /// Appends the glyph of digit 4.
    pub fn four(&mut self) -> (r: &mut Self)
        ensures
            r.same_settings(old(self)),
            r.spec_glyphs() == old(self).spec_glyphs().push(Glyph::Four),
            *final(self) == *final(r),
    {
        self.glyphs.push(Glyph::Four);
        self
    }

    /// Appends the glyph of digit 5.
    pub fn five(&mut self) -> (r: &mut Self)
        ensures
            r.same_settings(old(self)),
            r.spec_glyphs() == old(self).spec_glyphs().push(Glyph::Five),
            *final(self) == *final(r),
    {
        self.glyphs.push(Glyph::Five);
        self
    }

    /// Appends the glyph of digit 6.
    pub fn six(&mut self) -> (r: &mut Self)
        ensures
            r.same_settings(old(self)),
            r.spec_glyphs() == old(self).spec_glyphs().push(Glyph::Six),
            *final(self) == *final(r),
    {
        self.glyphs.push(Glyph::Six);
        self
    }

    /// Appends the glyph of digit 7.
    pub fn seven(&mut self) -> (r: &mut Self)
        ensures
            r.same_settings(old(self)),
            r.spec_glyphs() == old(self).spec_glyphs().push(Glyph::Seven),
            *final(self) == *final(r),
    {
        self.glyphs.push(Glyph::Seven);
        self
    }

    /// Appends the glyph of digit 8.
    pub fn eight(&mut self) -> (r: &mut Self)
        ensures
            r.same_settings(old(self)),
            r.spec_glyphs() == old(self).spec_glyphs().push(Glyph::Eight),
            *final(self) == *final(r),
    {
        self.glyphs.push(Glyph::Eight);
        self
    }

    /// Appends the glyph of digit 9.
    pub fn nine(&mut self) -> (r: &mut Self)
        ensures
            r.same_settings(old(self)),
            r.spec_glyphs() == old(self).spec_glyphs().push(Glyph::Nine),
            *final(self) == *final(r),
    {
        self.glyphs.push(Glyph::Nine);
        self
    }

    /// Appends the glyph of digit 0.
    pub fn zero(&mut self) -> (r: &mut Self)
        ensures
            r.same_settings(old(self)),
            r.spec_glyphs() == old(self).spec_glyphs().push(Glyph::Zero),
            *final(self) == *final(r),
    {
        self.glyphs.push(Glyph::Zero);
        self
    }

    /// Appends the `:` separator.
    pub fn seperator(&mut self) -> (r: &mut Self)
        ensures
            r.same_settings(old(self)),
            r.spec_glyphs() == old(self).spec_glyphs().push(Glyph::Separator),
            *final(self) == *final(r),
    {
        self.glyphs.push(Glyph::Separator);
        self
    }

    /// The grid of glyph `g` at the line's block size and values.
    fn glyph_grid(&self, g: Glyph) -> (r: GridBlock<T>)
        requires
            1 <= self.block_size,
            self.block_size * 5 <= usize::MAX,
        ensures
            same_shape(r@, glyph_view(g, self.spec_block_size(), self.default_value, self.taken_value)),
            clone_keeps_value::<T>() ==> r@ == glyph_view(
                g,
                self.spec_block_size(),
                self.default_value,
                self.taken_value,
            ),
    {
        let default_v = self.default_value.clone();
        let taken_v = self.taken_value.clone();
        let mut builder = glyph_builder(g, default_v, taken_v);
        builder.block_size(self.block_size);
        let ghost bs = self.block_size as nat;
        let ghost cells = glyph_cells(g);
        proof {
            assert(bs * glyph_blocks_x(g) <= usize::MAX) by (nonlinear_arith)
                requires
                    bs * 5 <= usize::MAX,
                    glyph_blocks_x(g) <= 5,
            ;
            assert(bs * glyph_blocks_y(g) <= usize::MAX) by (nonlinear_arith)
                requires
                    bs * 5 <= usize::MAX,
                    glyph_blocks_y(g) <= 5,
            ;
            assert forall|i: int| 0 <= i < builder.spec_sectors().len() implies {
                let s = #[trigger] builder.spec_sectors()[i];
                s.0 < builder.spec_blocks_in_x() && s.1 < builder.spec_blocks_in_y()
            } by {
                assert(cells[i].0 < glyph_blocks_x(g));
            }
        }
        let grid = builder.build();
        let ghost view = glyph_view(g, bs, self.default_value, self.taken_value);
        proof {
            assert forall|y: int| 0 <= y < grid@.len() implies (#[trigger] grid@[y]).len()
                == view[y].len() by {}
            if clone_keeps_value::<T>() {
                let sectors = builder.spec_sectors();
                assert(cloned(self.default_value, default_v));
                assert(cloned(self.taken_value, taken_v));
                assert forall|i: int| 0 <= i < sectors.len() implies (#[trigger] sectors[i]).2
                    == taken_v by {
                    assert(cloned(taken_v, sectors[i].2));
                }
                assert forall|y: int| 0 <= y < grid@.len() implies #[trigger] grid@[y] =~= view[y] by {
                    assert forall|x: int| 0 <= x < grid@[y].len() implies grid@[y][x]
                        == view[y][x] by {
                        assert(cloned(builder.spec_cell(x, y), grid@[y][x]));
                        lemma_uniform_sectors(bs as int, sectors, default_v, taken_v, x, y);
                        if glyph_fills(g, bs, x, y) {
                            let i = choose|i: int|
                                0 <= i < cells.len() && #[trigger] covers(
                                    bs as int,
                                    cells[i].0 as int,
                                    cells[i].1 as int,
                                    x,
                                    y,
                                );
                            assert(covers(
                                bs as int,
                                sectors[i].0 as int,
                                sectors[i].1 as int,
                                x,
                                y,
                            ));
                        }
                        if exists|i: int|
                            0 <= i < sectors.len() && #[trigger] covers(
                                bs as int,
                                sectors[i].0 as int,
                                sectors[i].1 as int,
                                x,
                                y,
                            ) {
                            let i = choose|i: int|
                                0 <= i < sectors.len() && #[trigger] covers(
                                    bs as int,
                                    sectors[i].0 as int,
                                    sectors[i].1 as int,
                                    x,
                                    y,
                                );
                            assert(covers(
                                bs as int,
                                cells[i].0 as int,
                                cells[i].1 as int,
                                x,
                                y,
                            ));
                        }
                    }
                }
                assert(grid@ =~= view);
            }
        }
        grid
    }

    /// The rows of the line: each glyph drawn at the line's block size, side
    /// by side, as many rows as the tallest glyph has. A glyph adds nothing to
    /// the rows below its own.
    pub fn build_line(&self) -> (r: Vec<Vec<T>>)
        requires
            1 <= self.spec_block_size(),
            self.spec_block_size() * 5 <= usize::MAX,
        ensures
            r@.len() == max_height_of(self.spec_views()),
            forall|y: int|
                0 <= y < r@.len() ==> (#[trigger] r@[y])@.len() == stitched_row(
                    self.spec_views(),
                    y,
                ).len(),
            clone_keeps_value::<T>() ==> forall|y: int|
                0 <= y < r@.len() ==> (#[trigger] r@[y])@ == stitched_row(self.spec_views(), y),
    {
        let ghost views = self.spec_views();
        let mut grids: Vec<GridBlock<T>> = Vec::new();
        let mut i: usize = 0;
        while i < self.glyphs.len()
            invariant
                i <= self.glyphs@.len(),
                1 <= self.block_size,
                self.block_size * 5 <= usize::MAX,
                views == self.spec_views(),
                views.len() == self.glyphs@.len(),
                grids@.len() == i,
                forall|k: int| 0 <= k < i ==> same_shape(#[trigger] grids@[k]@, views[k]),
                clone_keeps_value::<T>() ==> forall|k: int| 0 <= k < i ==> #[trigger] grids@[k]@ == views[k],
            decreases self.glyphs@.len() - i,
        {
            let grid = self.glyph_grid(self.glyphs[i]);
            grids.push(grid);
            i += 1;
        }
        let ghost gv = grid_views(grids@);
        proof {
            assert forall|k: int| 0 <= k < gv.len() implies same_shape(#[trigger] gv[k], views[k]) by {
                assert(gv[k] == grids@[k]@);
            }
            lemma_same_shapes(gv, views, 0);
            if clone_keeps_value::<T>() {
                assert forall|k: int| 0 <= k < gv.len() implies #[trigger] gv[k] == views[k] by {
                    assert(gv[k] == grids@[k]@);
                }
                assert(gv =~= views);
            }
        }
        let height = GridBlock::max_height(grids.as_slice());
        let rows = GridBlock::iter_top_left_bottom_right(grids.as_slice(), height);
        let mut lines: Vec<Vec<T>> = Vec::new();
        let mut y: usize = 0;
        while y < height
            invariant
                y <= height,
                rows@.len() == height,
                height == max_height_of(views),
                gv == grid_views(grids@),
                forall|k: int| 0 <= k < gv.len() ==> same_shape(#[trigger] gv[k], views[k]),
                gv.len() == views.len(),
                clone_keeps_value::<T>() ==> gv == views,
                forall|k: int| 0 <= k < height ==> refers_to(#[trigger] rows@[k]@, stitched_row(gv, k)),
                lines@.len() == y,
                forall|k: int|
                    0 <= k < y ==> (#[trigger] lines@[k])@.len() == stitched_row(views, k).len(),
                clone_keeps_value::<T>() ==> forall|k: int|
                    0 <= k < y ==> (#[trigger] lines@[k])@ == stitched_row(views, k),
            decreases height - y,
        {
            let row = &rows[y];
            let ghost want = stitched_row(gv, y as int);
            proof {
                lemma_same_shapes(gv, views, y as int);
                assert(refers_to(rows@[y as int]@, want));
            }
            let mut line: Vec<T> = Vec::new();
            let mut j: usize = 0;
            while j < row.len()
                invariant
                    j <= row@.len(),
                    refers_to(row@, want),
                    line@.len() == j,
                    forall|m: int| 0 <= m < j ==> cloned(want[m], #[trigger] line@[m]),
                decreases row@.len() - j,
            {
                let v = row[j].clone();
                proof {
                    assert(*row@[j as int] == want[j as int]);
                }
                line.push(v);
                j += 1;
            }
            proof {
                if clone_keeps_value::<T>() {
                    assert forall|m: int| 0 <= m < line@.len() implies #[trigger] line@[m]
                        == want[m] by {
                        assert(cloned(want[m], line@[m]));
                    }
                    assert(line@ =~= stitched_row(views, y as int));
                }
            }
            lines.push(line);
            y += 1;
        }
        lines
    }

    fn push_number(&mut self, n: u32)
        ensures
            final(self).block_size == old(self).block_size,
            final(self).taken_value == old(self).taken_value,
            final(self).default_value == old(self).default_value,
            final(self).glyphs@ == old(self).glyphs@ + number_glyphs(n as nat),
        decreases n,
    {
        let ghost before = self.glyphs@;
        if n >= 10 {
            self.push_number(n / 10);
            self.glyphs.push(Glyph::Space);
        }
        self.glyphs.push(digit_glyph_of(n % 10));
        proof {
            assert(self.glyphs@ =~= before + number_glyphs(n as nat));
        }
    }

    /// Appends the glyphs of the decimal digits of `number`, most
    /// significant first, with one space between each two digits.
    pub fn number(&mut self, number: u32) -> (r: &mut Self)
        ensures
            r.same_settings(old(self)),
            r.spec_glyphs() == old(self).spec_glyphs() + number_glyphs(number as nat),
            *final(self) == *final(r),
    {
        self.push_number(number);
        self
    }
}

} // verus!
