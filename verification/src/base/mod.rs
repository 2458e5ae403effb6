//! Positions and spans shared by the whole front-end.

pub mod pos;
