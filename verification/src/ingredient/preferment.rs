pub mod builder;
pub mod preferment;
pub mod starter;
pub mod tangzhong;

pub use crate::ingredient::preferment::builder::Builder;
pub use crate::ingredient::preferment::preferment::{HydrationPercent, PortionPercent, Preferment};
pub use crate::ingredient::preferment::starter::Starter;
