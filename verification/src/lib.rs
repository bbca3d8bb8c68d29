//! A verified lending-protocol core: overflow-safe arithmetic, dynamic
//! reserve factors, cross-asset positions and their health, oracle price
//! validation with fallback, swap routing decisions and event naming.
pub mod cross_asset;
pub mod error;
pub mod events;
pub mod health;
pub mod int128;
pub mod oracle;
pub mod reserve_factor;
pub mod swap_router;
pub mod traits;
