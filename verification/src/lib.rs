//! Verified core of the LCD link of a Lian Li HydroShift II wired AIO.
//!
//! The panel and the AIO controller share one USB bulk pipe. While the panel
//! plays an H.264 stream, control commands are queued and sent only at safe
//! points; this crate holds that queue, the rule that decides when it may be
//! flushed, and the pure decisions of the stream thread.
pub mod pending;
pub mod headroom;
pub mod recovery;
pub mod buffer_wait;
pub mod stream;
pub mod wire;
pub mod screen;
pub mod blank;
pub mod serial;
pub mod session;
pub mod delivery;
