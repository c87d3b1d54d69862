//! How many cells a palette texture needs, and where each entry goes.

use crate::color::is_empty_cell;
use vstd::prelude::*;

verus! {

/// The largest number of entries a palette texture can hold.
pub const MAX_ENTRIES: usize = 256;

/// Why a palette cannot be laid out.
#[derive(Debug, Clone, Copy, PartialEq, Eq, Structural)]
pub enum LayoutError {
    /// The palette has more entries than the largest texture has cells.
    PaletteTooLarge,
    /// An entry would be written past the last cell of the texture.
    LayoutOverflow,
}

/// The side of the square texture for `n` entries: the step table
/// 1 -> 1, 2..=4 -> 2, up to 16 -> 4, up to 64 -> 8, up to 256 -> 16.
/// A count of 0 falls under the third step.
pub open spec fn spec_texture_size(n: nat) -> nat {
    if n == 1 {
        1
    } else if 2 <= n <= 4 {
        2
    } else if n <= 16 {
        4
    } else if n <= 64 {
        8
    } else {
        16
    }
}

/// Picks the side of the square texture that holds `n` entries.
pub fn texture_size(n: usize) -> (r: Result<u32, LayoutError>)
    ensures
        n <= MAX_ENTRIES <==> r is Ok,
        r matches Ok(size) ==> size == spec_texture_size(n as nat) && size * size >= n,
        r matches Err(e) ==> e == LayoutError::PaletteTooLarge,
{
    if n == 1 {
        Ok(1)
    } else if n >= 2 && n <= 4 {
        Ok(2)
    } else if n <= 16 {
        Ok(4)
    } else if n <= 64 {
        Ok(8)
    } else if n <= 256 {
        Ok(16)
    } else {
        Err(LayoutError::PaletteTooLarge)
    }
}

/// The texture picked for `n` entries has a cell for each of them.
pub proof fn lemma_texture_holds_entries(n: nat)
    requires
        n <= MAX_ENTRIES,
    ensures
        spec_texture_size(n) * spec_texture_size(n) >= n,
{
}

/// Where entry number `index`, counted from 0, goes in a texture of side
/// `side`: entries fill the first row from the left, then the next row, from
/// the top. Gives the column and the row, or `LayoutOverflow` when every
/// cell is already taken.
pub fn cell_position(index: usize, side: u32) -> (r: Result<(u32, u32), LayoutError>)
    ensures
        index < side * side <==> r is Ok,
        r matches Ok((x, y)) ==> {
            &&& x == (index as int) % (side as int)
            &&& y == (index as int) / (side as int)
            &&& x < side
            &&& y < side
            &&& y * side + x == index
        },
        r matches Err(e) ==> e == LayoutError::LayoutOverflow,
{
    let width: u64 = side as u64;
    assert(width * width <= 0xffff_ffff * 0xffff_ffff) by (nonlinear_arith)
        requires
            0 <= width <= 0xffff_ffff,
    ;
    let cells: u64 = width * width;
    let at: u64 = index as u64;
    if at < cells {
        let x: u64 = at % width;
        let y: u64 = at / width;
        assert(y < width && y * width + x == at) by (nonlinear_arith)
            requires
                0 <= at < width * width,
                0 < width,
                x == at % width,
                y == at / width,
        ;
        Ok((x as u32, y as u32))
    } else {
        Err(LayoutError::LayoutOverflow)
    }
}

/// The channel bytes of a texture of side `side` that holds `entries`, four
/// bytes each, row after row from the top left, with every cell after the
/// last entry empty.
pub open spec fn raster(entries: Seq<Seq<u8>>, side: nat) -> Seq<u8> {
    Seq::new(
        4 * (side * side),
        |k: int|
            if k / 4 < entries.len() {
                entries[k / 4][k % 4]
            } else {
                0u8
            },
    )
}

/// Pixel number `i`, counted from 0, of the channel bytes `data`.
pub open spec fn cell_at(data: Seq<u8>, i: int) -> Seq<u8> {
    data.subrange(4 * i, 4 * i + 4)
}

/// The entries that the first `cells` pixels of `data` hold: the pixels that
/// are not empty, in their order.
pub open spec fn entries_in(data: Seq<u8>, cells: nat) -> Seq<Seq<u8>> {
    Seq::new(cells, |i: int| cell_at(data, i)).filter(|cell: Seq<u8>| !is_empty_cell(cell))
}

/// Among cells that are all empty there is no entry.
proof fn lemma_empty_cells_hold_nothing(cells: Seq<Seq<u8>>)
    requires
        forall|i: int| 0 <= i < cells.len() ==> is_empty_cell(#[trigger] cells[i]),
    ensures
        cells.filter(|cell: Seq<u8>| !is_empty_cell(cell)).len() == 0,
    decreases cells.len(),
{
    reveal(Seq::filter);
    if cells.len() > 0 {
        lemma_empty_cells_hold_nothing(cells.drop_last());
    }
}

/// A texture laid out from `entries` and scanned again gives back the
/// entries that are not empty, in their order.
pub proof fn lemma_scan_of_raster(entries: Seq<Seq<u8>>, side: nat)
    requires
        entries.len() <= side * side,
        forall|i: int| 0 <= i < entries.len() ==> (#[trigger] entries[i]).len() == 4,
    ensures
        entries_in(raster(entries, side), side * side) == entries.filter(
            |cell: Seq<u8>| !is_empty_cell(cell),
        ),
{
    let keep = |cell: Seq<u8>| !is_empty_cell(cell);
    let data = raster(entries, side);
    let all = Seq::new(side * side, |i: int| cell_at(data, i));
    let rest = all.skip(entries.len() as int);
    assert forall|i: int| 0 <= i < all.len() implies #[trigger] all[i] == if i < entries.len() {
        entries[i]
    } else {
        seq![0u8, 0u8, 0u8, 0u8]
    } by {
        let cell = cell_at(data, i);
        assert(cell.len() == 4);
        assert forall|c: int| 0 <= c < 4 implies cell[c] == data[4 * i + c] by {}
        if i < entries.len() {
            assert(cell =~= entries[i]);
        } else {
            assert(cell =~= seq![0u8, 0u8, 0u8, 0u8]);
        }
    }
    assert(all =~= entries + rest);
    Seq::filter_distributes_over_add(entries, rest, keep);
    lemma_empty_cells_hold_nothing(rest);
    assert(entries.filter(keep) + rest.filter(keep) =~= entries.filter(keep));
}

} // verus!
