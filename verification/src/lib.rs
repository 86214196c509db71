//! Verified core of the Codex browser daemon: configuration validation, browser
//! session cookies, restart recovery bookkeeping, live event replay and the small
//! text transformations used by the web views.

#![allow(unused_imports)]

use vstd::prelude::*;

pub mod error;
pub mod text;
pub mod paths;
pub mod daemon_config;
pub mod auth;
pub mod utf8;
pub mod stream;
pub mod text_map;
pub mod recovery;
pub mod present;
pub mod dashboard;
pub mod server;
pub mod ssh_tunnel;
pub mod markdown;
pub mod bridge;
pub mod directory;
pub mod startup;
pub mod html_probe;
pub mod flows;

verus! {

/// Command used to launch the app-server that backs the browser UI.
#[derive(Debug, Clone, PartialEq, Eq)]
pub enum AppServerCommand {
    /// Re-execute the standalone web binary in its hidden app-server mode.
    Standalone { executable: String },
    /// Re-execute the full Codex CLI using its public `app-server` subcommand.
    CodexCli { executable: String },
}

/// Settings supplied by the `codex web` command.
#[derive(Debug, Clone, PartialEq, Eq)]
pub struct WebOptions {
    pub port: u16,
    pub open_browser: bool,
    pub cwd: Option<String>,
    pub app_server_command: AppServerCommand,
    pub config_overrides: Vec<String>,
    pub strict_config: bool,
    pub reset_token: bool,
    pub daemon_config: Option<String>,
}

} // verus!
