pub mod context;
pub mod dict;
pub mod errors;
pub mod expression;
pub mod interpreter;
pub mod number;
pub mod operator;
pub mod parser;
pub mod runner;
pub mod stack;
pub mod text;
