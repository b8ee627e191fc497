//! RocoKnight: the logic of a desktop launcher that captures a game's login
//! parameters, starts the game's projector process and embeds its window.

pub mod cache;
pub mod config;
pub mod debug;
pub mod debug_console_layer;
pub mod debug_log_bus;
pub mod embed_win32;
pub mod error;
pub mod error_handling;
pub mod flash_vars;
pub mod launcher;
pub mod logging;
pub mod login3_capture;
pub mod login_flow;
pub mod outside;
pub mod plugins;
pub mod process;
pub mod projector;
pub mod redact;
pub mod request_context;
pub mod sorting;
pub mod state;
pub mod text;
pub mod url_parts;
pub mod window;
pub mod window_embed;
pub mod window_layout;
pub mod wpe;
