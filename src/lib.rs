//! Relay between a terminal and a line-oriented console server, with the
//! command history read back from the server's output.
pub mod history;
pub mod layout;
pub mod scan;
pub mod shell;
pub mod telnet;

pub use history::{ActiveWidget, History};
pub use shell::{Input, Key, Lang, Locale, Loop, MenuCommand, MenuOutcome, Mods, ReadAction, RelayAction, RelayOutcome, VppSh};
