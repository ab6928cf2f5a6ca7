//! A terminal session that draws one titled panel showing the terminal's
//! size, and stops on a plain `q` key-press.
//!
//! The decisions of the program stand here, verified: the three-band layout
//! of a frame, the panel's title, the quit key, and the order in which the
//! terminal is set up and restored. The terminal I/O itself is done by the
//! caller, which feeds each outcome back in.

pub mod frame;
pub mod render_loop;
pub mod session;
