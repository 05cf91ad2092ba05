//! A command log for 2D drawing: records clears, color and draw-state
//! changes and triangle lists into shared geometry buffers, merges repeated
//! state changes, and plans the replay on a backend with a per-call vertex
//! limit. A texture cache uploads each texture handle once, and again only
//! after its image was edited.

pub mod geometry;
pub mod state;
pub mod texture;
pub mod tree;
