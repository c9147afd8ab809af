//! Console stream adapter: line framing, line classification, status block
//! parsing and the session state reducer.
pub mod text;
pub mod ui_state;
pub mod damage;
pub mod game_mode;
pub mod status;
pub mod event;
pub mod classify;
pub mod console;
pub mod state;
pub mod reader;
