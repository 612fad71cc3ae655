//! Analysis library for StarCraft II replays: map assets (minimap TGA
//! decoding, `MapInfo` parsing, cache-handle resolution), production
//! efficiency sweeps, camera attention, engagement clustering and the
//! small classifiers and formatters the analysis views rely on.

pub mod text;
pub mod replay;
pub mod timeline;
pub mod map_image;
pub mod loss_analysis;
pub mod series;
pub mod sorting;
pub mod insights;
pub mod charts;
pub mod units;
pub mod tabs;
pub mod playback;
pub mod settings;
pub mod watch;
pub mod production_efficiency;
