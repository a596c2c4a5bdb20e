//! Glyphs of block numbers, the `:` separator and blank space, as grid
//! builders. A digit is drawn on 3 × 5 blocks.
use crate::grid_block::BlockGridBuilder;
use vstd::prelude::*;

verus! {

pub const TOP_LEFT: (usize, usize) = (0, 0);
pub const TOP_CENTER: (usize, usize) = (1, 0);
pub const TOP_RIGHT: (usize, usize) = (2, 0);

pub const UPPER_LEFT: (usize, usize) = (0, 1);
pub const UPPER_RIGHT: (usize, usize) = (2, 1);

pub const MIDDLE_LEFT: (usize, usize) = (0, 2);
pub const MIDDLE_CENTER: (usize, usize) = (1, 2);
pub const MIDDLE_RIGHT: (usize, usize) = (2, 2);

pub const LOWER_LEFT: (usize, usize) = (0, 3);
pub const LOWER_RIGHT: (usize, usize) = (2, 3);

pub const BOTTOM_LEFT: (usize, usize) = (0, 4);
pub const BOTTOM_CENTER: (usize, usize) = (1, 4);
pub const BOTTOM_RIGHT: (usize, usize) = (2, 4);

/// Blocks that the glyph of digit `d` fills, in drawing order.
pub open spec fn digit_cells(d: nat) -> Seq<(usize, usize)> {
    if d == 1 {
        seq![TOP_RIGHT, UPPER_RIGHT, MIDDLE_RIGHT, LOWER_RIGHT, BOTTOM_RIGHT]
    } else if d == 2 {
        seq![
            TOP_LEFT, TOP_CENTER, TOP_RIGHT,
            UPPER_RIGHT,
            MIDDLE_LEFT, MIDDLE_CENTER, MIDDLE_RIGHT,
            LOWER_LEFT,
            BOTTOM_LEFT, BOTTOM_CENTER, BOTTOM_RIGHT,
        ]
    } else if d == 3 {
        seq![
            TOP_LEFT, TOP_CENTER, TOP_RIGHT,
            UPPER_RIGHT,
            MIDDLE_LEFT, MIDDLE_CENTER, MIDDLE_RIGHT,
            LOWER_RIGHT,
            BOTTOM_LEFT, BOTTOM_CENTER, BOTTOM_RIGHT,
        ]
    } else if d == 4 {
        seq![
            TOP_LEFT, TOP_RIGHT,
            UPPER_LEFT, UPPER_RIGHT,
            MIDDLE_LEFT, MIDDLE_CENTER, MIDDLE_RIGHT,
            LOWER_RIGHT,
            BOTTOM_RIGHT,
        ]
    } else if d == 5 {
        seq![
            TOP_LEFT, TOP_CENTER, TOP_RIGHT,
            UPPER_LEFT,
            MIDDLE_LEFT, MIDDLE_CENTER, MIDDLE_RIGHT,
            LOWER_RIGHT,
            BOTTOM_LEFT, BOTTOM_CENTER, BOTTOM_RIGHT,
        ]
    } else if d == 6 {
        seq![
            TOP_LEFT, TOP_CENTER, TOP_RIGHT,
            UPPER_LEFT,
            MIDDLE_LEFT, MIDDLE_CENTER, MIDDLE_RIGHT,
            LOWER_LEFT, LOWER_RIGHT,
            BOTTOM_LEFT, BOTTOM_CENTER, BOTTOM_RIGHT,
        ]
    } else if d == 7 {
        seq![
            TOP_LEFT, TOP_CENTER, TOP_RIGHT,
            UPPER_RIGHT,
            MIDDLE_RIGHT,
            LOWER_RIGHT,
            BOTTOM_RIGHT,
        ]
    } else if d == 8 {
        seq![
            TOP_LEFT, TOP_CENTER, TOP_RIGHT,
            UPPER_LEFT, UPPER_RIGHT,
            MIDDLE_LEFT, MIDDLE_CENTER, MIDDLE_RIGHT,
            LOWER_LEFT, LOWER_RIGHT,
            BOTTOM_LEFT, BOTTOM_CENTER, BOTTOM_RIGHT,
        ]
    } else if d == 9 {
        seq![
            TOP_LEFT, TOP_CENTER, TOP_RIGHT,
            UPPER_LEFT, UPPER_RIGHT,
            MIDDLE_LEFT, MIDDLE_CENTER, MIDDLE_RIGHT,
            LOWER_RIGHT,
            BOTTOM_LEFT, BOTTOM_CENTER, BOTTOM_RIGHT,
        ]
    } else {
        seq![
            TOP_LEFT, TOP_CENTER, TOP_RIGHT,
            UPPER_LEFT, UPPER_RIGHT,
            MIDDLE_LEFT, MIDDLE_RIGHT,
            LOWER_LEFT, LOWER_RIGHT,
            BOTTOM_LEFT, BOTTOM_CENTER, BOTTOM_RIGHT,
        ]
    }
}

/// Blocks that the `:` separator fills.
pub open spec fn separator_cells() -> Seq<(usize, usize)> {
    seq![(1, 1), (1, 3)]
}

/// Every block of `cells` lies inside `blocks_in_x` × `blocks_in_y` blocks.
pub open spec fn within(cells: Seq<(usize, usize)>, blocks_in_x: nat, blocks_in_y: nat) -> bool {
    forall|i: int|
        0 <= i < cells.len() ==> (#[trigger] cells[i]).0 < blocks_in_x && cells[i].1 < blocks_in_y
}

/// Each digit's blocks lie on the 3 × 5 blocks of a digit.
pub proof fn lemma_digit_cells_within(d: nat)
    ensures
        within(digit_cells(d), 3, 5),
        within(separator_cells(), 3, 5),
{
    let s = digit_cells(d);
    assert forall|i: int| 0 <= i < s.len() implies (#[trigger] s[i]).0 < 3 && s[i].1 < 5 by {
    }
    let t = separator_cells();
    assert forall|i: int| 0 <= i < t.len() implies (#[trigger] t[i]).0 < 3 && t[i].1 < 5 by {
    }
}

/// `b` draws a glyph at block size one on `blocks_in_x` × `blocks_in_y`
/// blocks: `default_v` where the glyph is blank, and one sector per block of
/// `cells`, in order, each with a clone of `taken_v`.
pub open spec fn draws_glyph<T: Clone>(
    b: BlockGridBuilder<T>,
    default_v: T,
    taken_v: T,
    blocks_in_x: nat,
    blocks_in_y: nat,
    cells: Seq<(usize, usize)>,
) -> bool {
    &&& b.wf()
    &&& b.spec_block_size() == 1
    &&& b.spec_blocks_in_x() == blocks_in_x
    &&& b.spec_blocks_in_y() == blocks_in_y
    &&& b.spec_default() == default_v
    &&& b.spec_sectors().len() == cells.len()
    &&& forall|i: int|
        0 <= i < cells.len() ==> {
            let s = #[trigger] b.spec_sectors()[i];
            &&& s.0 == cells[i].0
            &&& s.1 == cells[i].1
            &&& cloned(taken_v, s.2)
        }
}

/// The builder of the glyph whose filled blocks are `cells`, on the 3 × 5
/// blocks of a digit.
fn glyph<T: Clone>(default_v: T, taken_v: T, cells: &[(usize, usize)]) -> (r: BlockGridBuilder<T>)
    ensures
        draws_glyph(r, default_v, taken_v, 3, 5, cells@),
{
    let mut builder = build_thin_number_base(default_v);
    let ghost before = builder;
    builder.set_bulk_sectors(taken_v, cells);
    proof {
        assert(before.spec_sectors().len() == 0);
        assert forall|i: int| 0 <= i < cells@.len() implies {
            let s = #[trigger] builder.spec_sectors()[i];
            &&& s.0 == cells@[i].0
            &&& s.1 == cells@[i].1
            &&& cloned(taken_v, s.2)
        } by {
            assert(builder.spec_sectors()[before.spec_sectors().len() + i] == builder.spec_sectors()[i]);
        }
    }
    builder
}

/// The glyph of digit 1.
pub fn build_1<T: Clone>(default_v: T, taken_v: T) -> (r: BlockGridBuilder<T>)
    ensures
        draws_glyph(r, default_v, taken_v, 3, 5, digit_cells(1)),
{
    let cells = [TOP_RIGHT, UPPER_RIGHT, MIDDLE_RIGHT, LOWER_RIGHT, BOTTOM_RIGHT];
    proof {
        assert(cells@ =~= digit_cells(1));
    }
    glyph(default_v, taken_v, &cells)
}

/// The glyph of digit 2.
pub fn build_2<T: Clone>(default_v: T, taken_v: T) -> (r: BlockGridBuilder<T>)
    ensures
        draws_glyph(r, default_v, taken_v, 3, 5, digit_cells(2)),
{
    let cells = [
        TOP_LEFT, TOP_CENTER, TOP_RIGHT,
        UPPER_RIGHT,
        MIDDLE_LEFT, MIDDLE_CENTER, MIDDLE_RIGHT,
        LOWER_LEFT,
        BOTTOM_LEFT, BOTTOM_CENTER, BOTTOM_RIGHT,
    ];
    proof {
        assert(cells@ =~= digit_cells(2));
    }
    glyph(default_v, taken_v, &cells)
}

/// The glyph of digit 3.
pub fn build_3<T: Clone>(default_v: T, taken_v: T) -> (r: BlockGridBuilder<T>)
    ensures
        draws_glyph(r, default_v, taken_v, 3, 5, digit_cells(3)),
{
    let cells = [
        TOP_LEFT, TOP_CENTER, TOP_RIGHT,
        UPPER_RIGHT,
        MIDDLE_LEFT, MIDDLE_CENTER, MIDDLE_RIGHT,
        LOWER_RIGHT,
        BOTTOM_LEFT, BOTTOM_CENTER, BOTTOM_RIGHT,
    ];
    proof {
        assert(cells@ =~= digit_cells(3));
    }
    glyph(default_v, taken_v, &cells)
}

/// The glyph of digit 4.
pub fn build_4<T: Clone>(default_v: T, taken_v: T) -> (r: BlockGridBuilder<T>)
    ensures
        draws_glyph(r, default_v, taken_v, 3, 5, digit_cells(4)),
{
    let cells = [
        TOP_LEFT, TOP_RIGHT,
        UPPER_LEFT, UPPER_RIGHT,
        MIDDLE_LEFT, MIDDLE_CENTER, MIDDLE_RIGHT,
        LOWER_RIGHT,
        BOTTOM_RIGHT,
    ];
    proof {
        assert(cells@ =~= digit_cells(4));
    }
    glyph(default_v, taken_v, &cells)
}

/// The glyph of digit 5.
pub fn build_5<T: Clone>(default_v: T, taken_v: T) -> (r: BlockGridBuilder<T>)
    ensures
        draws_glyph(r, default_v, taken_v, 3, 5, digit_cells(5)),
{
    let cells = [
        TOP_LEFT, TOP_CENTER, TOP_RIGHT,
        UPPER_LEFT,
        MIDDLE_LEFT, MIDDLE_CENTER, MIDDLE_RIGHT,
        LOWER_RIGHT,
        BOTTOM_LEFT, BOTTOM_CENTER, BOTTOM_RIGHT,
    ];
    proof {
        assert(cells@ =~= digit_cells(5));
    }
    glyph(default_v, taken_v, &cells)
}

/// The glyph of digit 6.
pub fn build_6<T: Clone>(default_v: T, taken_v: T) -> (r: BlockGridBuilder<T>)
    ensures
        draws_glyph(r, default_v, taken_v, 3, 5, digit_cells(6)),
{
    let cells = [
        TOP_LEFT, TOP_CENTER, TOP_RIGHT,
        UPPER_LEFT,
        MIDDLE_LEFT, MIDDLE_CENTER, MIDDLE_RIGHT,
        LOWER_LEFT, LOWER_RIGHT,
        BOTTOM_LEFT, BOTTOM_CENTER, BOTTOM_RIGHT,
    ];
    proof {
        assert(cells@ =~= digit_cells(6));
    }
    glyph(default_v, taken_v, &cells)
}

/// The glyph of digit 7.
pub fn build_7<T: Clone>(default_v: T, taken_v: T) -> (r: BlockGridBuilder<T>)
    ensures
        draws_glyph(r, default_v, taken_v, 3, 5, digit_cells(7)),
{
    let cells = [
        TOP_LEFT, TOP_CENTER, TOP_RIGHT,
        UPPER_RIGHT,
        MIDDLE_RIGHT,
        LOWER_RIGHT,
        BOTTOM_RIGHT,
    ];
    proof {
        assert(cells@ =~= digit_cells(7));
    }
    glyph(default_v, taken_v, &cells)
}

/// The glyph of digit 8.
pub fn build_8<T: Clone>(default_v: T, taken_v: T) -> (r: BlockGridBuilder<T>)
    ensures
        draws_glyph(r, default_v, taken_v, 3, 5, digit_cells(8)),
{
    let cells = [
        TOP_LEFT, TOP_CENTER, TOP_RIGHT,
        UPPER_LEFT, UPPER_RIGHT,
        MIDDLE_LEFT, MIDDLE_CENTER, MIDDLE_RIGHT,
        LOWER_LEFT, LOWER_RIGHT,
        BOTTOM_LEFT, BOTTOM_CENTER, BOTTOM_RIGHT,
    ];
    proof {
        assert(cells@ =~= digit_cells(8));
    }
    glyph(default_v, taken_v, &cells)
}

/// The glyph of digit 9.
pub fn build_9<T: Clone>(default_v: T, taken_v: T) -> (r: BlockGridBuilder<T>)
    ensures
        draws_glyph(r, default_v, taken_v, 3, 5, digit_cells(9)),
{
    let cells = [
        TOP_LEFT, TOP_CENTER, TOP_RIGHT,
        UPPER_LEFT, UPPER_RIGHT,
        MIDDLE_LEFT, MIDDLE_CENTER, MIDDLE_RIGHT,
        LOWER_RIGHT,
        BOTTOM_LEFT, BOTTOM_CENTER, BOTTOM_RIGHT,
    ];
    proof {
        assert(cells@ =~= digit_cells(9));
    }
    glyph(default_v, taken_v, &cells)
}

/// The glyph of digit 0.
pub fn build_0<T: Clone>(default_v: T, taken_v: T) -> (r: BlockGridBuilder<T>)
    ensures
        draws_glyph(r, default_v, taken_v, 3, 5, digit_cells(0)),
{
    let cells = [
        TOP_LEFT, TOP_CENTER, TOP_RIGHT,
        UPPER_LEFT, UPPER_RIGHT,
        MIDDLE_LEFT, MIDDLE_RIGHT,
        LOWER_LEFT, LOWER_RIGHT,
        BOTTOM_LEFT, BOTTOM_CENTER, BOTTOM_RIGHT,
    ];
    proof {
        assert(cells@ =~= digit_cells(0));
    }
    glyph(default_v, taken_v, &cells)
}

/// The `:` separator: two single blocks on the 3 × 5 blocks of a digit.
pub fn build_double_point<T: Clone>(default_v: T, taken_v: T) -> (r: BlockGridBuilder<T>)
    ensures
        draws_glyph(r, default_v, taken_v, 3, 5, separator_cells()),
{
    let cells = [(1, 1), (1, 3)];
    proof {
        assert(cells@ =~= separator_cells());
    }
    glyph(default_v, taken_v, &cells)
}

/// Blank space between glyphs: a column of 1 × 3 blocks, all `default_v`.
pub fn build_space<T: Clone>(default_v: T) -> (r: BlockGridBuilder<T>)
    ensures
        draws_glyph(r, default_v, default_v, 1, 3, Seq::empty()),
{
    let mut builder = BlockGridBuilder::with_default(default_v);
    builder.block_size(1).blocks_in_x(1).blocks_in_y(3);
    builder
}

/// The glyph of `digit`.
pub fn build_digit<T: Clone>(digit: u8, default_v: T, taken_v: T) -> (r: BlockGridBuilder<T>)
    requires
        digit < 10,
    ensures
        draws_glyph(r, default_v, taken_v, 3, 5, digit_cells(digit as nat)),
{
    match digit {
        0 => build_0(default_v, taken_v),
        1 => build_1(default_v, taken_v),
        2 => build_2(default_v, taken_v),
        3 => build_3(default_v, taken_v),
        4 => build_4(default_v, taken_v),
        5 => build_5(default_v, taken_v),
        6 => build_6(default_v, taken_v),
        7 => build_7(default_v, taken_v),
        8 => build_8(default_v, taken_v),
        _ => build_9(default_v, taken_v),
    }
}

/// The 3 × 5 blocks of a digit at block size one, all `default_v`.
pub fn build_thin_number_base<T: Clone>(default_v: T) -> (r: BlockGridBuilder<T>)
    ensures
        draws_glyph(r, default_v, default_v, 3, 5, Seq::empty()),
{
    let mut builder = BlockGridBuilder::with_default(default_v);
    builder.block_size(1).blocks_in_x(3).blocks_in_y(5);
    builder
}

} // verus!
