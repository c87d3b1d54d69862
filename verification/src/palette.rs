//! The palette: an ordered list of colours and whether it has unsaved changes.

use crate::color::is_empty_cell;
use crate::color::Color;
use crate::layout::cell_at;
use crate::layout::cell_position;
use crate::layout::entries_in;
use crate::layout::lemma_scan_of_raster;
use crate::layout::lemma_texture_holds_entries;
use crate::layout::raster;
use crate::layout::spec_texture_size;
use crate::layout::texture_size;
use crate::layout::LayoutError;
use crate::layout::MAX_ENTRIES;
use crate::texture::blank;
use crate::texture::from_raw;
use crate::texture::into_raw;
use crate::texture::pixels;
use crate::texture::put_pixel;
use crate::texture::texture_data;
use crate::texture::texture_height;
use crate::texture::texture_width;
use vstd::prelude::*;

verus! {

/// An ordered list of palette entries, the name of the file it belongs to,
/// and a flag that tells whether entries were added since it was last saved.
#[derive(Debug)]
pub struct LowTexPal {
    filename: String,
    was_modified: bool,
    colors: Vec<Color>,
}

impl LowTexPal {
    /// The entries in insertion order, each as its four channel bytes.
    pub closed spec fn entries(&self) -> Seq<Seq<u8>> {
        self.colors@.map_values(|c: Color| c@)
    }

    /// Whether entries were added since the palette was created, loaded or saved.
    pub closed spec fn modified(&self) -> bool {
        self.was_modified
    }

    /// The name of the file the palette is kept in.
    pub closed spec fn file(&self) -> Seq<char> {
        self.filename@
    }

    /// Every entry has four channel bytes.
    pub proof fn lemma_entries_have_four_channels(&self)
        ensures
            forall|i: int| 0 <= i < self.entries().len() ==> (#[trigger] self.entries()[i]).len() == 4,
    {
        assert forall|i: int| 0 <= i < self.entries().len() implies (#[trigger] self.entries()[i]).len()
            == 4 by {
            self.colors@[i].lemma_four_channels();
        }
    }

    /// What `render` writes, `load` reads back: scanned for pixels that are
    /// not empty, the texture of a palette holds the palette's entries that
    /// are not empty, in their order.
    pub proof fn lemma_render_reads_back(&self)
        requires
            self.entries().len() <= MAX_ENTRIES,
        ensures
            ({
                let side = spec_texture_size(self.entries().len());
                entries_in(raster(self.entries(), side), side * side) == self.entries().filter(
                    |cell: Seq<u8>| !is_empty_cell(cell),
                )
            }),
    {
        let side = spec_texture_size(self.entries().len());
        self.lemma_entries_have_four_channels();
        lemma_texture_holds_entries(self.entries().len());
        lemma_scan_of_raster(self.entries(), side);
    }

    /// An empty, unmodified palette for the file `filename`.
    pub fn new(filename: &str) -> (palette: Self)
        ensures
            palette.entries() == Seq::<Seq<u8>>::empty(),
            !palette.modified(),
            palette.file() == filename@,
    {
        let palette = LowTexPal { filename: filename.to_owned(), was_modified: false, colors: Vec::new() };
        assert(palette.entries() =~= Seq::<Seq<u8>>::empty());
        palette
    }

    /// The name of the file the palette is kept in.
    pub fn filename(&self) -> (name: &str)
        ensures
            name@ == self.file(),
    {
        self.filename.as_str()
    }

    /// Whether entries were added since the palette was created, loaded or saved.
    pub fn was_modified(&self) -> (modified: bool)
        ensures
            modified == self.modified(),
    {
        self.was_modified
    }

    /// The number of entries.
    pub fn len(&self) -> (n: usize)
        ensures
            n == self.entries().len(),
    {
        self.colors.len()
    }

    /// Appends `color` and marks the palette modified. Returns the entry's
    /// position, counted from 1.
    pub fn add_color(&mut self, color: &Color) -> (index: usize)
        ensures
            final(self).entries() == old(self).entries().push(color@),
            final(self).modified(),
            final(self).file() == old(self).file(),
            index == old(self).entries().len() + 1,
    {
        self.was_modified = true;
        self.colors.push(*color);
        assert(self.entries() =~= old(self).entries().push(color@));
        self.colors.len()
    }

    /// Appends the opaque colour with the channels `r`, `g`, `b` and marks
    /// the palette modified. Returns the entry's position, counted from 1.
    pub fn add_color_rgb(&mut self, r: u8, g: u8, b: u8) -> (index: usize)
        ensures
            final(self).entries() == old(self).entries().push(seq![r, g, b, 0xffu8]),
            final(self).modified(),
            final(self).file() == old(self).file(),
            index == old(self).entries().len() + 1,
    {
        let a: u8 = 0xff;
        let color = Color::from([r, g, b, a]);
        assert(color@ =~= seq![r, g, b, 0xffu8]);
        self.add_color(&color)
    }

    /// Appends the samples of a gradient in their order. The palette is
    /// marked modified if there is at least one. Returns the positions of
    /// the new entries, counted from 1.
    pub fn add_gradient(&mut self, samples: &Vec<Color>) -> (indices: Vec<usize>)
        ensures
            final(self).entries() == old(self).entries() + samples@.map_values(|c: Color| c@),
            final(self).modified() == (old(self).modified() || samples.len() > 0),
            final(self).file() == old(self).file(),
            indices.len() == samples.len(),
            forall|i: int| 0 <= i < indices.len() ==> indices[i] == old(self).entries().len() + i + 1,
    {
        let mut indices: Vec<usize> = Vec::new();
        let mut i: usize = 0;
        while i < samples.len()
            invariant
                i <= samples.len(),
                self.entries() == old(self).entries() + samples@.take(i as int).map_values(
                    |c: Color| c@,
                ),
                self.modified() == (old(self).modified() || i > 0),
                self.file() == old(self).file(),
                indices.len() == i,
                forall|j: int| 0 <= j < i ==> indices[j] == old(self).entries().len() + j + 1,
            decreases samples.len() - i,
        {
            let index = self.add_color(&samples[i]);
            indices.push(index);
            assert(samples@.take(i + 1).map_values(|c: Color| c@) =~= samples@.take(
                i as int,
            ).map_values(|c: Color| c@).push(samples@[i as int]@));
            i += 1;
        }
        assert(samples@.take(samples.len() as int) =~= samples@);
        indices
    }

    /// Takes in the entries of a decoded texture of `width` by `height`
    /// pixels, whose channel bytes are `data`: every pixel that is not empty
    /// is appended, row after row, and the palette counts as unmodified.
    /// Returns how many entries came in, or `None`, with the palette left as
    /// it was, when `data` is too short for that many pixels.
    pub fn load(&mut self, width: u32, height: u32, data: Vec<u8>) -> (loaded: Option<usize>)
        ensures
            loaded is Some <==> 4 * (width * height) <= data.len(),
            loaded matches Some(count) ==> {
                &&& final(self).entries() == old(self).entries() + entries_in(
                    data@,
                    (width * height) as nat,
                )
                &&& count == entries_in(data@, (width * height) as nat).len()
                &&& !final(self).modified()
            },
            loaded is None ==> {
                &&& final(self).entries() == old(self).entries()
                &&& final(self).modified() == old(self).modified()
            },
            final(self).file() == old(self).file(),
    {
        if width == 0 || height == 0 {
            // A texture without pixels has nothing to scan.
            proof {
                assert(width * height == 0) by (nonlinear_arith)
                    requires
                        width == 0 || height == 0,
                ;
                reveal(Seq::filter);
                assert(self.entries() =~= old(self).entries() + entries_in(data@, 0));
            }
            self.was_modified = false;
            return Some(0);
        }
        assert(4 * width <= 4 * (width * height)) by (nonlinear_arith)
            requires
                height >= 1,
        ;
        let ghost bytes = data@;
        let texture = match from_raw(width, height, data) {
            Some(texture) => texture,
            None => {
                return None;
            },
        };
        let cells = pixels(&texture);
        let ghost all = Seq::new((width * height) as nat, |i: int| cell_at(bytes, i));
        let ghost keep = |cell: Seq<u8>| !is_empty_cell(cell);
        let mut count: usize = 0;
        let mut i: usize = 0;
        proof {
            reveal(Seq::filter);
            assert(all.take(0).filter(keep) =~= Seq::<Seq<u8>>::empty());
            assert(self.entries() =~= old(self).entries() + all.take(0).filter(keep));
        }
        while i < cells.len()
            invariant
                i <= cells.len(),
                cells.len() == width * height,
                4 * cells.len() <= bytes.len(),
                all == Seq::new((width * height) as nat, |i: int| cell_at(bytes, i)),
                keep == |cell: Seq<u8>| !is_empty_cell(cell),
                forall|j: int, c: int|
                    0 <= j < cells.len() && 0 <= c < 4 ==> #[trigger] cells[j]@[c] == bytes[4 * j
                        + c],
                self.entries() == old(self).entries() + all.take(i as int).filter(keep),
                count == all.take(i as int).filter(keep).len(),
                self.file() == old(self).file(),
            decreases cells.len() - i,
        {
            let color = Color::from(cells[i]);
            proof {
                // The pixel at hand is cell `i` of the texture.
                let cell = cells[i as int]@;
                assert(cell[0] == bytes[4 * i + 0] && cell[1] == bytes[4 * i + 1] && cell[2]
                    == bytes[4 * i + 2] && cell[3] == bytes[4 * i + 3]);
                assert(color@ =~= all[i as int]);
                // One more cell scanned: it is kept or it is not.
                reveal(Seq::filter);
                assert(all.take(i + 1).drop_last() =~= all.take(i as int));
                all.take(i as int).lemma_filter_len(keep);
            }
            if !color.is_empty() {
                let ghost before = self.entries();
                self.colors.push(color);
                count += 1;
                assert(self.entries() =~= before.push(color@));
            }
            i += 1;
        }
        self.was_modified = false;
        assert(all.take(cells.len() as int) =~= all);
        Some(count)
    }

    /// Lays the palette out as a square texture. An empty palette gives
    /// `None`: there is nothing to write. Otherwise the result is the side of
    /// the texture and its channel bytes, the entries row after row from the
    /// top left and every cell after them empty. A palette of more than 256
    /// entries fits no texture.
    pub fn render(&self) -> (r: Result<Option<(u32, Vec<u8>)>, LayoutError>)
        ensures
            match r {
                Ok(None) => self.entries().len() == 0,
                Ok(Some((side, data))) => {
                    &&& 1 <= self.entries().len() <= MAX_ENTRIES
                    &&& side == spec_texture_size(self.entries().len())
                    &&& data@ == raster(self.entries(), side as nat)
                },
                Err(e) => self.entries().len() > MAX_ENTRIES && e == LayoutError::PaletteTooLarge,
            },
    {
        let n = self.colors.len();
        if n == 0 {
            return Ok(None);
        }
        let side = match texture_size(n) {
            Ok(side) => side,
            Err(e) => {
                return Err(e);
            },
        };
        assert(4 * (side * side) <= 1024) by (nonlinear_arith)
            requires
                side <= 16,
        ;
        let mut texture = blank(side);
        assert(texture_data(texture) =~= raster(self.entries().take(0), side as nat));
        let mut i: usize = 0;
        while i < n
            invariant
                i <= n,
                n == self.colors.len(),
                n <= side * side,
                side <= 16,
                texture_width(texture) == side,
                texture_height(texture) == side,
                texture_data(texture) == raster(self.entries().take(i as int), side as nat),
            decreases n - i,
        {
            match cell_position(i, side) {
                Ok((x, y)) => {
                    let rgba = self.colors[i].rgba_u8();
                    put_pixel(&mut texture, x, y, rgba);
                    assert(texture_data(texture) =~= raster(
                        self.entries().take(i + 1),
                        side as nat,
                    ));
                },
                Err(e) => {
                    // Not reached: the texture has a cell for every entry.
                    return Err(e);
                },
            }
            i += 1;
        }
        assert(self.entries().take(n as int) =~= self.entries());
        Ok(Some((side, into_raw(texture))))
    }

    /// Records that the palette was written out: it is no longer modified.
    pub fn mark_saved(&mut self)
        ensures
            final(self).entries() == old(self).entries(),
            !final(self).modified(),
            final(self).file() == old(self).file(),
    {
        self.was_modified = false;
    }
}

} // verus!
