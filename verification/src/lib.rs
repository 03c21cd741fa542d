//! Keyboard-activity focus engine: a bounded history of per-tick key counts,
//! a focus score that decays while the keyboard is idle, the transform that
//! turns the history into a waveform grid, and the bookkeeping of a small
//! append-only journal.

pub mod focus;
pub mod history;
pub mod journal;
pub mod monitor;
pub mod state;
pub mod text;
pub mod time;
pub mod ui;
pub mod waveform;

pub use crate::state::App;
