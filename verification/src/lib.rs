use vstd::prelude::*;

pub mod hexgrid;
pub mod input;
pub mod lcg;
pub mod mesh;
pub mod rng;
pub mod rounding;
pub mod score;
pub mod shootable;
