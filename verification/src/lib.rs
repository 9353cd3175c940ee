//! Integer core of a perceptual colour-scale generator: the `#RRGGBB`
//! colour grammar, the sampling schedule of a colour curve, the sentiment
//! hue tables, and the geometry of the palette preview.

pub mod hex;
pub mod layout;
pub mod sampling;
pub mod sentiment;
