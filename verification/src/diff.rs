pub mod lemmas;
pub mod parser;
pub mod splitter;
pub mod types;
