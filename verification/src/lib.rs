//! Deep-zoom coordinate engine for gigapixel whole-slide images.
//!
//! A whole-slide image is stored as a pyramid of native resolution levels.
//! A deep-zoom viewer instead requests tiles from a *virtual* pyramid whose
//! levels run from 1x1 pixels up to the slide's full resolution, each level
//! half the size of the next. This crate derives the full virtual pyramid
//! for a slide, maps every virtual level to the best-matching native level,
//! and, for each requested tile, computes exactly which native region must
//! be read and how the pixels must be decoded and rescaled.
//!
//! The slide reader itself (file parsing, region reads) is an external
//! collaborator: callers query it for the slide's geometry, hand the plain
//! values to [`generator::DeepZoomGenerator::new`], and perform the region
//! read that [`generator::DeepZoomGenerator::get_tile_info`] asks for.
//! Native downsample factors, which slide readers report as floating-point
//! numbers, are carried here as exact rationals ([`ratio::Ratio`]), so the
//! whole coordinate computation is exact integer arithmetic.

pub mod codec;
pub mod errors;
pub mod generator;
pub mod numfmt;
pub mod pyramid;
pub mod ratio;
pub mod render;
