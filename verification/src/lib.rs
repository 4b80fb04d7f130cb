//! An action-orchestration and window-resolution engine: runs ordered lists
//! of automation steps (launch, kill, open a folder or URL, wait) and, when
//! asked, deterministically locates and repositions the window a step
//! produced, despite the operating system creating windows asynchronously.
//! A second pipeline rasterizes a source image into a multi-resolution icon
//! with anti-aliased rounded-corner masking.

pub mod geometry;
pub mod icon;
pub mod links;
pub mod outcome;
pub mod procs;
pub mod sequencer;
pub mod resolver;
pub mod apps;
pub mod browser;
pub mod data;
pub mod executor;
pub mod text;
