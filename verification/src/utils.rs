pub mod error;
pub mod text;
pub mod clock;
pub mod keyed;
