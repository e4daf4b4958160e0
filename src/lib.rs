pub mod console;
pub mod encode;
pub mod evolve;
pub mod geometry;
pub mod level;
pub mod options;
pub mod precompute;
pub mod retained;
pub mod search;
pub mod spatial;
