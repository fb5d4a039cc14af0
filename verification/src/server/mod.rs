//! The service's state: the tile cache, the image store and the location providers.
pub mod cache;
pub mod img_storage;
pub mod location;
pub mod remote_cache;
