//! A multi-dimensional histogram engine.
//!
//! Axes map input values to bin indices along one dimension each; a
//! histogram composes several axes by row-major striding into one flat
//! bin address and accumulates weighted observations there, in one of
//! three storage backends (dense vector, hash map, parallel sparse
//! lists).
//!
//! Coordinates and weights are fixed-point integers ("ticks"): the
//! caller picks a scale and converts its measurements once at the
//! boundary. All binning, addressing and accumulation logic is then
//! exact integer arithmetic, verified here.

pub mod axis;
pub mod bin;
pub mod category;
pub mod filled;
pub mod hashmaphist;
pub mod hist;
pub mod integer;
pub mod sparsehist;
pub mod storage;
pub mod uniform;
pub mod variable;
pub mod vechist;
