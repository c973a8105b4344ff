//! Architecture models (context, logic, runtime, code, build, delivery and
//! deployment views), the rules that validate them, the operations that edit
//! them and the PlantUML text generated from them.

pub mod utils;
pub mod model;
pub mod validator;
pub mod store;
pub mod generator;
pub mod cli;
