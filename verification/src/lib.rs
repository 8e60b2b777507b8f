//! A baker's-percentage recipe calculator core.
//!
//! The crate turns a total flour mass, a set of named flour fractions and a
//! set of fermentation preferments into mass-conserving quantities for every
//! ingredient.  Masses are fixed-point decimals (hundredths of a gram),
//! percentages are bounded integer-encoded fixed-point values, and the flour
//! allocation engine distributes the total flour across fractions while
//! deducting the portion consumed by preferments.

pub mod common;
pub mod descriptor;
pub mod error;
pub mod ingredient;
pub mod recipe;
