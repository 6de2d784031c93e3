pub mod dot_quote;
pub mod if_else_then;
pub mod word_def;
