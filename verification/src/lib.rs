//! Verified core of the IronBoy desktop and web frontend: save-file naming and
//! format selection, frame pacing, joypad key selection and the decisions that
//! the window event loop takes on each event.

pub mod text;
pub mod save_file;
pub mod frame;
pub mod keys;
pub mod session;
