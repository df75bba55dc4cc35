//! Verified core of the Soulless launcher: drawers, the stable-id registry,
//! search-query interpretation, text and path helpers, and the small state
//! machines the UI drives.

pub mod text;
pub mod paths;
pub mod easter_egg;
pub mod placement;
pub mod sources;
pub mod drawer_view;
pub mod organizer;
pub mod navigation;
pub mod icons;
pub mod entries;
pub mod index_order;
pub mod startup;
pub mod config;
pub mod cache_policy;
pub mod procfs;
pub mod background;
pub mod seqs;
pub mod drawers;
pub mod utils;
pub mod catalog;
pub mod query;
pub mod terminal;
pub mod strmap;
pub mod registry;
pub mod appid;
pub mod migrate;
pub mod monitors;
pub mod hardware;
pub mod sampling;
