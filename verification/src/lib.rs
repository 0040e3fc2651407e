//! Gameplay-timing and entity-lifecycle core of a VR rhythm game.
//!
//! Notes and obstacles, spawned from a parsed chart, travel toward the player
//! at a tempo-derived speed, are culled past trigger and exit planes, and
//! trigger sound and visibility side effects. The crate owns the chart model,
//! the entity store, the per-tick motion and culling engine, the deferred
//! side-effect queue, and chart placement; rendering, audio devices, VR
//! session handling and file input live in unverified collaborators that
//! exchange plain values with this core.
//!
//! All world-space and time scalars are fixed-point integers in thousandths:
//! a position of `5.0` world units is stored as `5000`, a time of `1.5 ms` as
//! `1500`. This keeps every formula exact and free of rounding surprises.
pub mod chart;
pub mod components;
pub mod engine;
pub mod songs;
pub mod sound;
pub mod world;
