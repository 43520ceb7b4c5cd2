pub mod canvas;
pub mod matrix;
pub mod projectile;
pub mod scalar;
pub mod tuple;
