//! A falling-sand simulation: granular and fluid materials moving on a fixed
//! rectangular grid, one tick at a time.

pub mod brush;
pub mod conservation;
pub mod determinism;
pub mod engine;
pub mod falling;
pub mod grid;
pub mod line;
pub mod marking;
pub mod material;
pub mod painting;
pub mod random;
pub mod render;
pub mod rules;
pub mod scan;
pub mod stasis;
pub mod toolbar;
pub mod world;
