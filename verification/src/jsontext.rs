pub mod chars;
pub mod print;
pub mod value;
pub mod parse;
