//! A small palette of colours kept as a square texture.
//!
//! A [`LowTexPal`] is an ordered list of [`Color`]s. It is written out as a
//! square RGBA texture whose side [`texture_size`] picks from the number of
//! entries, the entries filling the rows from the top left, and it is read
//! back from such a texture by skipping the pixels that are empty.
//!
//! The library holds every colour in its 8-bit form. Reading and writing
//! image files, turning colour names into channel bytes and computing the
//! samples of a gradient, which is floating-point work, are left to the
//! caller, who hands the library channel bytes.

pub mod color;
pub mod colorspace;
pub mod layout;
pub mod palette;
mod texture;

pub use color::Color;
pub use colorspace::ColorSpace;
pub use layout::texture_size;
pub use layout::LayoutError;
pub use palette::LowTexPal;
