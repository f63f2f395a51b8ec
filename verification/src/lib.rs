//! Supervision of a long-running game server.
//!
//! The server tells its state in its log. `log_line` reads the lines of
//! that log, and `server_process` keeps what they say: the lifecycle state
//! of the server and the players that are online. The supervisor of a run
//! (`server_process::supervisor`), the run's owner (`server::run_once`) and
//! the serving, which is one run after the other with the updates between
//! them (`server::serve`), are machines that are handed one event at a time
//! and answer with what is to be done; `interrupt` says what an interrupt
//! from outside means.
//!
//! Around them stands the bookkeeping of a server: version numbers
//! (`version`), the releases of the game (`download`), mods (`modportal`),
//! the configuration and the data of a server (`config`, `server`), the
//! names of its directories (`dirs`) and what the commands of the program
//! decide (`commands`).
//!
//! Nothing here reads or writes a file, starts a process or uses the
//! network: what is read elsewhere is handed in, and what is to be done is
//! handed out.

pub mod commands;
pub mod config;
pub mod decimal;
pub mod dirs;
pub mod download;
pub mod error;
pub mod interrupt;
pub mod json;
pub mod log_line;
pub mod modportal;
pub mod server;
pub mod server_process;
pub mod text;
pub mod version;
