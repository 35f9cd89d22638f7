//! The logic of the terminal interface: its state, the alias tree and the
//! mapping of keys to messages.
pub mod input;
pub mod model;
pub mod text_input;
pub mod transfer;
pub mod tree;
pub mod update;
pub mod view;
