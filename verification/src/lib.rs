//! A verified tile-selection engine for building image mosaics.
//!
//! A library of candidate images is summarised into colour fingerprints;
//! a target image is partitioned into a grid of cells; a strategy picks,
//! for every cell, the library tile whose fingerprint matches best.  A
//! colour-blind "random pile" strategy is also provided.  Image decoding,
//! resizing and compositing are delegated to the pixel layer; everything
//! the strategies decide is specified and proved here.

pub mod analysis;
pub mod geometry;
pub mod matching;
pub mod pile;
pub mod pixels;
pub mod strategy;
pub mod tiling;
