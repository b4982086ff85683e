//! An interactive task tracker's core: the task and archive store, selection
//! and scrolling, a soft-wrap-aware text cursor, and the view state machine
//! that ties them together. Drawing, key capture and persistence live outside
//! this crate and talk to it through plain values.

pub mod app;
pub mod cli;
pub mod colour;
pub mod display;
pub mod editor;
pub mod invariants;
pub mod model;
pub mod settings;
pub mod state;
pub mod store;
pub mod task;
pub mod text;
pub mod time;
