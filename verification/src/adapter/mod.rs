//! What the gateway knows of its trading adapters.

pub mod bracket_links;
pub mod cancel_all;
pub mod capabilities;

pub use bracket_links::BracketLinks;
pub use cancel_all::CancelAllTally;
pub use capabilities::{BracketStrategy, ProviderCapabilities};
