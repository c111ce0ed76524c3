//! Laws of the interpreter: what holds of its parts taken together.
pub mod frames;
pub mod pairs;
pub mod parsing;
pub mod reading;
pub mod running;
pub mod safety;
