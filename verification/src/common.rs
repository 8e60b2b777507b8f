pub mod mass;
pub mod percent;

pub use crate::common::mass::Gram;
pub use crate::common::percent::Percent;
