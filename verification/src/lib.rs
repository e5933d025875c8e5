pub mod clock;
pub mod stdlib;
pub mod text;
pub mod value;
pub mod types;
pub mod diag;
