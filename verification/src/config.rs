//! MCP server configuration entries and where the configuration file is looked for.
use vstd::prelude::*;
use std::collections::HashMap;
use crate::text::{opt_str_view, opt_string_view, owned, trim, trimmed};

verus! {

/// The MCP configuration file: the servers to connect to.
#[derive(Debug, Clone)]
pub struct McpConfigFile {
    pub servers: Vec<McpServerEntry>,
}

/// One MCP server.
#[derive(Debug, Clone)]
pub struct McpServerEntry {
    /// Short id used to prefix tool names, e.g. `fs__read_file`.
    pub label: String,
    /// Local MCP server: the executable to start.
    pub command: String,
    /// Arguments of `command`.
    pub args: Vec<String>,
    /// Environment variables set for `command`.
    pub env: HashMap<String, String>,
    /// Remote MCP endpoint (`http://` or `https://`).
    pub url: Option<String>,
    /// Extra HTTP headers for a remote server.
    pub headers: HashMap<String, String>,
    /// Bearer token for a remote server, without the `Bearer ` prefix.
    pub bearer_token: Option<String>,
}

/// How the program reaches one MCP server.
pub enum McpTransport {
    /// Start `command` with `args` and `env`, and speak MCP over its standard input and output.
    ChildProcess { command: String, args: Vec<String>, env: HashMap<String, String> },
    /// MCP streamable HTTP at `url`, with extra `headers` and, when given, `bearer_token` as the
    /// `Authorization` value.
    StreamableHttp { url: String, headers: HashMap<String, String>, bearer_token: Option<String> },
}

/// The transport an entry asks for: a remote endpoint when `url` is set (then `command`, `args`
/// and `env` are not used), else the local command.
pub open spec fn transport_of(e: McpServerEntry) -> McpTransport {
    match e.url {
        Some(url) => McpTransport::StreamableHttp {
            url,
            headers: e.headers,
            bearer_token: e.bearer_token,
        },
        None => McpTransport::ChildProcess { command: e.command, args: e.args, env: e.env },
    }
}

/// Splits an entry into its label and the transport it asks for.
pub fn mcp_transport(entry: McpServerEntry) -> (res: (String, McpTransport))
    ensures
        res.0 == entry.label,
        res.1 == transport_of(entry),
{
    let McpServerEntry { label, command, args, env, url, headers, bearer_token } = entry;
    match url {
        Some(url) => (label, McpTransport::StreamableHttp { url, headers, bearer_token }),
        None => (label, McpTransport::ChildProcess { command, args, env }),
    }
}

/// The configuration path named by the environment value, if it names one: a value that is
/// empty or only white space names none.
pub open spec fn config_path_spec(env_value: Option<Seq<char>>) -> Option<Seq<char>> {
    match env_value {
        Some(p) => if trimmed(p).len() == 0 {
            None
        } else {
            Some(p)
        },
        None => None,
    }
}

/// Path of the MCP configuration file from the value of `AGENTLITE_MCP_CONFIG` (`None` when it
/// is unset). The path is used as given, untrimmed.
pub fn mcp_config_path(env_value: Option<&str>) -> (res: Option<String>)
    ensures
        opt_string_view(res) == config_path_spec(opt_str_view(env_value)),
{
    match env_value {
        Some(p) => {
            if trim(p).unicode_len() == 0 {
                None
            } else {
                Some(owned(p))
            }
        },
        None => None,
    }
}

} // verus!
