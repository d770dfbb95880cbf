//! Escape-time fractal evaluation over a fixed-point number model, with the
//! grid buffers and view bookkeeping around it.
//!
//! Real numbers are held as `i64` values scaled by `FIX_ONE` (32 fraction bits).
pub mod animator;
pub mod fixed;
pub mod fractal;
pub mod grid;
pub mod views;

pub use animator::{Anim, Animator, VectorAnim, VectorAnimator};
pub use fixed::{FixedComplex, Rotation, Vector2, FIX_ONE, COORD_LIMIT};
pub use fractal::{FractalType, FractalSpecs, FractalCalc, MAX_GRID_SIDE};
pub use grid::Matrix;
pub use views::{View, Views};
