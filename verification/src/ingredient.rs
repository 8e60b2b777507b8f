pub mod enrichment;
pub mod flour;
pub mod ingredient;
pub mod poolish;
pub mod preferment;
pub mod starter;
pub mod tangzhong;
pub mod salt;
pub mod water;

pub use crate::ingredient::enrichment::Enrichment;
pub use crate::ingredient::ingredient::Ingredient;
pub use crate::ingredient::salt::SaltPercentage;
pub use crate::ingredient::water::Water;
