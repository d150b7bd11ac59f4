//! The types of missile.

pub mod bomb;
pub mod normal;

pub use bomb::Bomb;
pub use normal::Normal;
