pub mod ctx;
pub mod regex;
pub mod os;
pub mod re;
