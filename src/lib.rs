//! Slippy-map tile addressing for a bike-share station finder: Web-Mercator
//! tile arithmetic, the search for the finest tile that holds a set of points,
//! placement of points in a rendered tile window, and the decisions of a
//! read-through cache of tile images.

pub mod cache;
pub mod conf;
pub mod err;
pub mod page;
pub mod projection;
pub mod solver;
pub mod station;
pub mod text;
pub mod tile;

pub use projection::{lon_x, x_lon, WorldPoint};
