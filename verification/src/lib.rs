//! Verified core of the JX3 PVP damage calculator: data types, the level
//! constant snapshot parser, version labels, profession selection, combo
//! bookkeeping, the call protocol and the update/module decision logic.

pub mod api;
pub mod combo;
pub mod config;
pub mod ffi;
pub mod level_constant;
pub mod presets;
pub mod profession;
pub mod text;
pub mod update;
pub mod updater;
pub mod xinfa;
