//! Display pipeline: output encodings and swapchain paths, the view
//! transform registry, the post-processing stage order and the hair tiers.

pub mod hair;
pub mod post_chain;
pub mod swapchain;
pub mod view_transform;
