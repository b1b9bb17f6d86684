//! Core of a minimal modal terminal application: a diff-based screen buffer
//! that turns queued cell writes into an explicit sequence of terminal
//! commands, a modal input state machine, and the frame-pacing decisions of
//! the event loop. All terminal I/O is kept outside: the library computes
//! which commands to emit, and the surrounding program performs them.

pub mod buffer;
pub mod cell;
pub mod frame;
pub mod input;
