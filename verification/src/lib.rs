pub mod text;
pub mod board;
pub mod app;
pub mod editing;
pub mod config;
pub mod input;
pub mod view;
