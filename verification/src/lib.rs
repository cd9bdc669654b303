//! A desktop client for tmux sessions on remote hosts: everything that it decides.
//!
//! Nothing here opens a connection, a file or a window. What was read comes in as
//! values, and what is to be done goes out as values.
pub mod cli;
pub mod clock;
pub mod command;
pub mod demo;
pub mod desktop;
pub mod exchange;
pub mod fault;
pub mod gesture;
pub mod ids;
pub mod input;
pub mod inspect;
pub mod interact;
pub mod keys;
pub mod links;
pub mod model;
pub mod paint;
pub mod pane;
pub mod reconnect;
pub mod screen;
pub mod sessions;
pub mod sftp;
pub mod snapshot;
pub mod ssh;
pub mod store;
pub mod terminal;
pub mod text;
pub mod tmux;
pub mod wake_flag;
pub mod width;
pub mod window;
pub mod workspace;
