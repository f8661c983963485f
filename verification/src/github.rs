pub mod types;
pub mod urls;
