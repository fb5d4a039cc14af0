//! ADM partner integration
//!
//! The partner provides a list of tiles (the name of the advertiser, various
//! URLs, etc.). Only a known set of advertisers is allowed, and the tile
//! information offered is validated against expected values.
pub mod decode;
pub mod filter;
pub mod settings;
pub mod tiles;
