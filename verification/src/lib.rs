pub mod error;
pub mod locate;
pub mod text;
pub mod tokenize;
pub mod fuzzy;
pub mod chat;
pub mod position;
pub mod resolve;
