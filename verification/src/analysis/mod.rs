pub mod checker;
pub mod resolver;
pub mod laws;
