//! Notes, scale degrees, chord qualities and parsed progression events.

pub mod note;
pub mod degree;
pub mod quality;
pub mod chord;
