//! Redaction of links, addresses, caller patterns and profane vocabulary in text.

pub mod censor;
pub mod error;
pub mod mask;
pub mod pattern;
pub mod text;
pub mod vulgar;

pub use error::Error;
pub use rustrict::Type;
pub use vulgar::{check_words, Vulgar};
