//! Building blocks of an easily configurable tmux menu: the shell and tmux
//! command lines that a menu file turns into, with their contracts.

pub mod command;
pub mod dirs;
pub mod error;
pub mod menu;
pub mod number;
pub mod popup;
pub mod position;
pub mod shell;
pub mod text;
pub mod this;
pub mod tmux;
