//! Verified core of the UltraCam console: the wire format of the packets sent
//! to the game, the command table, the keyframe-sequence store and the small
//! state machines that drive the console's user interface.

pub mod commands;
pub mod config;
pub mod decimal;
pub mod keyframes;
pub mod network;
pub mod protocol;
pub mod session;
pub mod text;
pub mod text_map;
