pub mod bits;
pub mod cells;
pub mod engine;

