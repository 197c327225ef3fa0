pub mod client;
pub mod error;
pub mod game;
pub mod logic;
pub mod parse;
pub mod protocol;
pub mod text;
pub mod xml;
