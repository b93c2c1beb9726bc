//! The decisions of the command-line MCP server: how it is configured and
//! described, and what each of its tools runs and answers. Starting the
//! server, creating the command context and running the commands are left
//! to the caller, which hands the outcomes back.
use std::sync::Arc;
use vstd::prelude::*;

verus! {

/// The port the server listens on when none is given.
pub const DEFAULT_PORT: u16 = 8080;

/// The transport timeout, in seconds, when none is given.
pub const DEFAULT_TIMEOUT_SECS: u64 = 6;

/// The subcommands of `mcp-server`.
pub enum McpServerSubcommand {
    /// Run the server, on `port` and with `timeout` seconds where given.
    Run { port: Option<u16>, timeout: Option<u64> },
}

/// How the server is started.
pub struct ServerSettings {
    pub host: String,
    pub port: u16,
    pub timeout_secs: u64,
}

/// How the server describes itself to clients.
pub struct ServerDescription {
    pub name: String,
    pub version: String,
    pub instructions: String,
    /// Whether the server offers tools.
    pub tools: bool,
    /// The protocol version it names, where it names one itself.
    pub protocol_version: Option<String>,
}

/// Handles the `mcp-server` command with the command context `C`.
pub struct McpServerCommandHandler<C> {
    _ctx: Arc<C>,
}

impl<C> McpServerCommandHandler<C> {
    /// The context the handler was made with.
    pub closed spec fn context(&self) -> Arc<C> {
        self._ctx
    }

    /// A handler working in `_ctx`.
    pub fn new(_ctx: Arc<C>) -> (h: Self)
        ensures
            h.context() == _ctx,
    {
        Self { _ctx }
    }

    /// The context the handler was made with.
    pub fn ctx(&self) -> (r: &Arc<C>)
        ensures
            *r == self.context(),
    {
        &self._ctx
    }

    /// How to start the server for `subcommand`: on the loopback address,
    /// with the given port and timeout or their defaults.
    pub fn server_settings(&self, subcommand: McpServerSubcommand) -> (s: ServerSettings)
        ensures
            s.host@ == "127.0.0.1"@,
            match subcommand {
                McpServerSubcommand::Run { port, timeout } => {
                    &&& s.port == (match port {
                        Some(p) => p,
                        None => DEFAULT_PORT,
                    })
                    &&& s.timeout_secs == (match timeout {
                        Some(t) => t,
                        None => DEFAULT_TIMEOUT_SECS,
                    })
                },
            },
    {
        match subcommand {
            McpServerSubcommand::Run { port, timeout } => server_settings_for(port, timeout),
        }
    }
}

/// Settings for a server on `port` with a transport timeout of `timeout`
/// seconds, each defaulted where not given.
pub fn server_settings_for(port: Option<u16>, timeout: Option<u64>) -> (s: ServerSettings)
    ensures
        s.host@ == "127.0.0.1"@,
        s.port == (match port {
            Some(p) => p,
            None => DEFAULT_PORT,
        }),
        s.timeout_secs == (match timeout {
            Some(t) => t,
            None => DEFAULT_TIMEOUT_SECS,
        }),
{
    let port: u16 = match port {
        Some(p) => p,
        None => DEFAULT_PORT,
    };
    let timeout_secs: u64 = match timeout {
        Some(t) => t,
        None => DEFAULT_TIMEOUT_SECS,
    };
    ServerSettings { host: "127.0.0.1".to_owned(), port, timeout_secs }
}

/// How the HTTP server describes itself when it starts: with tools, and
/// with the protocol version that the SDK names as its latest.
pub fn server_details() -> (d: ServerDescription)
    ensures
        d.name@ == "Golem Cli Mcp Server"@,
        d.version@ == "0.1.0"@,
        d.instructions@ == "Help user to do what normally they can do using golem cli directly"@,
        d.tools,
        d.protocol_version is None,
{
    ServerDescription {
        name: "Golem Cli Mcp Server".to_owned(),
        version: "0.1.0".to_owned(),
        instructions: "Help user to do what normally they can do using golem cli directly".to_owned(),
        tools: true,
        protocol_version: None,
    }
}

/// How the tool handler describes itself: with tools, on protocol version 2025-03-26.
pub fn server_info() -> (d: ServerDescription)
    ensures
        d.name@ == "Golem Cli Mcp Server"@,
        d.version@ == "0.1.0"@,
        d.instructions@ == "Help user to do what normally they can do using golem cli"@,
        d.tools,
        d.protocol_version matches Some(v) && v@ == "2025-03-26"@,
{
    ServerDescription {
        name: "Golem Cli Mcp Server".to_owned(),
        version: "0.1.0".to_owned(),
        instructions: "Help user to do what normally they can do using golem cli".to_owned(),
        tools: true,
        protocol_version: Some("2025-03-26".to_owned()),
    }
}

} // verus!
