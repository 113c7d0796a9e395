pub mod order;
pub mod pattern;
pub mod text;
pub mod types;
pub mod value;
