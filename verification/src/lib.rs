//! A fixed-size, two-dimensional spatial container for grid- and hex-based
//! worlds. Cells are addressed by signed integer coordinates; each cell holds
//! at most one foreground occupant plus a mandatory background descriptor.
//! Every operation is specified by a contract and verified.

pub mod basic;
pub mod direction;
pub mod errors;
pub mod grid;
pub mod pos;
