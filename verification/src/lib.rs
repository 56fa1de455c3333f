//! Julia-set fractal rendering with a verified numeric core.
//!
//! The library evaluates an escape-time fractal field over a pixel grid in
//! exact fixed-point arithmetic, maps iteration counts to palette colors
//! through one shared linear range map, assembles a row-major RGBA pixel
//! buffer, and serializes it as a PNG byte stream through an external
//! image codec. Writing the stream to disk is left to the caller.

pub mod color;
pub mod fixed;
pub mod image;
pub mod julia;
pub mod linmap;
pub mod render;
