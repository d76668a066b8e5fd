//! Reconciles launcher-platform game entries into a Steam shortcut catalog and
//! plans the artwork downloads that keep each shortcut's images complete.
pub mod cache;
pub mod cache_file;
pub mod images;
pub mod merge;
pub mod shortcut;
pub mod sync;
