//! Core of a terminal login/registration client: the line-delimited JSON
//! command codec, the connection lifecycle state machine, the application
//! state snapshot, and the store's decision logic. The surrounding process
//! (terminal rendering, TLS sockets, channels) lives outside this crate and
//! drives these verified pieces.

pub mod action;
pub mod codec;
pub mod command;
pub mod event;
pub mod focus;
pub mod state;
pub mod store;
pub mod text_input;
pub mod utils;
