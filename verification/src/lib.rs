//! Position & risk engine: the verified core of a portfolio service.
//!
//! The library keeps the book of positions, finds a position by its ticker
//! (ignoring ASCII case), applies mark-to-market price updates, and renders the
//! error and status outcomes that the HTTP layer hands back to clients.

pub mod asset;
pub mod handlers;
pub mod repository;
pub mod ticker;

pub use asset::AssetType;
pub use handlers::{portfolio_failure, price_update_response};
pub use repository::{PositionBook, PositionRecord, RepositoryError};
pub use ticker::eq_ignore_ascii_case;
