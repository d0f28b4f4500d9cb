//! A bounded 2D arena of point masses under mutual Newtonian-style
//! attraction, advanced in discrete time steps until a step budget is
//! reached. All quantities are fixed-point integers in thousandths of a
//! unit, so every step is exact and every bound is proved.

pub mod color;
pub mod laws;
pub mod num;
pub mod params;
pub mod particle;
pub mod sim;
mod rng;
