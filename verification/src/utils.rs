pub mod random;
pub mod time;
