//! Aperture's observation core: the session model, the reducers that fold
//! provider transcripts and optional hook events into it, and the pure
//! policies around persistence and integration health.

pub mod model;
pub mod text;
pub mod keyed;
pub mod clock;
pub mod state;
pub mod hook_payload;
pub mod transcript;
pub mod hook_bridge;
pub mod passive;
pub mod db;
pub mod tail;
pub mod installer;
pub mod paths;
pub mod commands;
