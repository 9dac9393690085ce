//! Verified runtime decisions of the renderer: the device capability
//! matrix and its fail-closed degradation chains, the display pipeline's
//! swapchain paths, plugin registry, stage order and hair tiers, and the
//! byte, text, digest, calendar and report helpers that its evidence
//! harnesses share.

pub mod bytes;
pub mod calendar;
pub mod capability_matrix;
pub mod digest;
pub mod display;
pub mod report;
pub mod text;
