//! A palette colour in the 8-bit form in which a texture cell stores it.

use vstd::prelude::*;

verus! {

/// One palette entry: red, green, blue and alpha, each as the byte a texture
/// cell holds. A channel's normalised value is its byte over 255.
#[derive(Debug, Clone, Copy)]
pub struct Color {
    rgba: [u8; 4],
}

impl View for Color {
    type V = Seq<u8>;

    /// The four channel bytes, red first.
    closed spec fn view(&self) -> Seq<u8> {
        self.rgba@
    }
}

/// True of the four-byte sequences that stand for "no entry": every channel zero.
pub open spec fn is_empty_cell(cell: Seq<u8>) -> bool {
    cell.len() == 4 && cell[0] == 0 && cell[1] == 0 && cell[2] == 0 && cell[3] == 0
}

impl Color {
    /// The colour whose channel bytes are `bytes`.
    pub closed spec fn of_bytes(bytes: [u8; 4]) -> Color {
        Color { rgba: bytes }
    }

    /// A colour has four channel bytes.
    pub proof fn lemma_four_channels(self)
        ensures
            self@.len() == 4,
    {
    }

    /// Four bytes made into a colour and read back are the same four bytes,
    /// channel for channel.
    pub proof fn lemma_bytes_round_trip(bytes: [u8; 4])
        ensures
            Color::of_bytes(bytes)@ == bytes@,
    {
    }

    /// The colour made of four bytes is the "no entry" colour exactly when
    /// all four are zero: one channel that is not zero makes it an entry.
    pub proof fn lemma_empty_is_all_zero(bytes: [u8; 4])
        ensures
            is_empty_cell(Color::of_bytes(bytes)@) <==> bytes[0] == 0 && bytes[1] == 0 && bytes[2]
                == 0 && bytes[3] == 0,
    {
    }

    /// The channel bytes, red first.
    pub fn rgba_u8(&self) -> (bytes: [u8; 4])
        ensures
            bytes@ == self@,
    {
        self.rgba
    }

    /// Whether this is the "no entry" colour, all four channels zero.
    pub fn is_empty(&self) -> (empty: bool)
        ensures
            empty == is_empty_cell(self@),
    {
        self.rgba[0] == 0 && self.rgba[1] == 0 && self.rgba[2] == 0 && self.rgba[3] == 0
    }
}

impl From<[u8; 4]> for Color {
    fn from(src: [u8; 4]) -> (color: Color)
        ensures
            color@ == src@,
    {
        Color { rgba: src }
    }
}

impl vstd::std_specs::convert::FromSpecImpl<[u8; 4]> for Color {
    open spec fn obeys_from_spec() -> bool {
        true
    }

    open spec fn from_spec(src: [u8; 4]) -> Color {
        Color::of_bytes(src)
    }
}

} // verus!
