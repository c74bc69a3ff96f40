//! This crate provides a library for translating intergalactic numerals to
//! Roman numerals.
//!
//! The primary interfaces are `Language`, which translates numerals and
//! answers questions about the prices of items, and `Ford`, an assistant
//! that also learns the words of a dialect and the prices of items from what
//! it is told.
//!
//! ```text
//! let mut ford = Ford::new();
//! ford.query("glob is I");
//! ford.query("prok is V");
//! ford.query("glob glob Silver is 34 Credits");
//! ford.query("how many credits is glob prok Silver?");
//! // Ok(Some("glob prok Silver is 68 Credits"))
//! ```

pub mod amount;
pub mod assistant;
pub mod collections;
pub mod error;
pub mod language;
pub mod patterns;
pub mod pricebook;
pub mod roman;
pub mod sentence;
pub mod text;

pub use amount::Amount;
pub use assistant::Ford;
pub use language::Language;
pub use pricebook::PriceBook;
pub use roman::Roman;
