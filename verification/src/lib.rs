//! Survey: the deterministic core of a star-survey game.
pub mod matching;
pub mod rng;
pub mod spectral;
pub mod star;
pub mod starfield;
pub mod survey;
