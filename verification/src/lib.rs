//! Core logic of a terminal MUD client: screen layout arithmetic, scrollback
//! history, output line splitting, speech queueing, tab routing and input
//! editing, each proved against its contract.

pub mod display;
pub mod model;
pub mod net;
pub mod output_buffer;
pub mod screen;
pub mod tabs;
pub mod timer;
pub mod tools;
pub mod text;
pub mod tts;
pub mod ui;
