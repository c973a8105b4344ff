pub mod c4;
pub mod logic;
pub mod runtime;
pub mod code;
pub mod builds;

pub mod delivery;
pub mod deployment;
pub mod workspace;
pub use self::builds as build;
