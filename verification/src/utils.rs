pub mod cursor;
pub mod indent_write;
