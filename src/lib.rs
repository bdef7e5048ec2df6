pub mod adapter;
pub mod buffer;
pub mod driver;
pub mod input;
pub mod point;
