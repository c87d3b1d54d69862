//! The colour spaces in which a gradient can be computed.

use vstd::prelude::*;

verus! {

/// The space in which the steps between two colours are taken.
#[derive(Debug, Clone, Copy, PartialEq, Eq, Structural)]
pub enum ColorSpace {
    /// Straight lines between the stored channel values.
    Rgb,
    /// Straight lines between OKLab lightness and the two opponent axes.
    Oklab,
    /// Lightness and chroma on straight lines, hue along the shorter arc.
    Oklch,
}

/// What `str::to_lowercase` makes of a text.
pub uninterp spec fn lowercase_of(text: Seq<char>) -> Seq<char>;

/// Calls `str::to_lowercase`. Not proved: the result is the lowercase form
/// of `text`, which depends on nothing but `text`.
#[verifier::external_body]
fn to_lowercase(text: &str) -> (lower: String)
    ensures
        lower@ == lowercase_of(text@),
{
    text.to_lowercase()
}

impl ColorSpace {
    /// The space that a name in lowercase stands for: `oklab`, `oklch`, and
    /// `Rgb` for every other name.
    pub open spec fn named(lower: Seq<char>) -> ColorSpace {
        if lower == "oklab"@ {
            ColorSpace::Oklab
        } else if lower == "oklch"@ {
            ColorSpace::Oklch
        } else {
            ColorSpace::Rgb
        }
    }

    /// The space that `lower`, a name already in lowercase, stands for.
    pub fn from_lowercase(lower: &str) -> (space: ColorSpace)
        ensures
            space == Self::named(lower@),
    {
        let name = lower.to_owned();
        if name == "oklab".to_owned() {
            ColorSpace::Oklab
        } else if name == "oklch".to_owned() {
            ColorSpace::Oklch
        } else {
            ColorSpace::Rgb
        }
    }

    /// The space that `name` stands for, whatever the case of its letters.
    pub fn from_name(name: &str) -> (space: ColorSpace)
        ensures
            space == Self::named(lowercase_of(name@)),
    {
        let lower = to_lowercase(name);
        Self::from_lowercase(lower.as_str())
    }
}

} // verus!
