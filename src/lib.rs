pub mod cli;
pub mod commands;
pub mod input;
pub mod models;
pub mod parse;
pub mod reduce;
pub mod text;
pub mod utils;
pub mod view;
