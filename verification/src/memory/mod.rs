pub mod heap;
pub mod stack;
