//! Design of rotary cam discs: the text side of turning the description of
//! a disc into a vector drawing.
//!
//! A disc is cut into equal sectors, one for each stroke, and each stroke
//! brings a profile: a height over the sector's width. The library reads the
//! profiles, says what has to be computed for the disc, down to the number
//! of corners of each hole, and writes the drawing from the numbers that it
//! is then given. It computes no coordinate itself.

pub mod circle;
pub mod cli;
pub mod document;
pub mod error;
pub mod fit;
pub mod geometry;
pub mod numeral;
pub mod path;
pub mod plan;
pub mod profile;
pub mod scan;
pub mod settings;
pub mod text;
