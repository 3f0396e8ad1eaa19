//! Harmonic interpretation of slash chords and augmented upper structures.
//!
//! [`interpreter`] produces every plausible local reading of one symbol;
//! [`blackadder`] factorizes the `{0,2,6,10}` sonority into structure,
//! function and origin; [`harmony`] holds the multi-axis classification
//! shared by both.

pub mod evidence;
pub mod harmony;

pub mod blackadder;
pub mod interpreter;
pub mod key;
pub mod context;
pub mod ordinary;
pub mod lattice;
pub mod candidates;
pub mod modulation;
pub mod memory;
