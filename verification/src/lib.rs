//! Server records for an SSH connection manager, with the rules that decide
//! what is stored, what is launched and how the interactive menu moves.

pub mod error;
pub mod listing;
pub mod models;
pub mod ssh;
pub mod storage;
pub mod terminal;
pub mod text;
pub mod tui;

pub use error::SshManagerError;
pub use models::{AuthMethod, Config, Server, TerminalConfig};
pub use ssh::Ssh;
pub use storage::Storage;
pub use terminal::Terminal;
pub use tui::Tui;
