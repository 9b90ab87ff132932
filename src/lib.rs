//! The indexing and ranking engine of an application launcher: a catalogue of launchable
//! entries parsed from desktop files, a usage history ("heatmap"), a query router over browse,
//! path and fuzzy modes (with binary, calculator and web-search fallbacks), and a dmenu-style
//! line filter. Every function here is verified; calls into outside crates go through small
//! trusted wrappers whose contracts name what they rely on.
pub mod config;
pub mod desktop;
pub mod entry;
pub mod fuzzy;
pub mod keyed;
pub mod launch;
pub mod matching;
pub mod path;
pub mod paths;
pub mod rank;
pub mod search;
pub mod synthetic;
pub mod text;
pub mod usage;
