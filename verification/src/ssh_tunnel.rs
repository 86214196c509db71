//! The command line of the managed SSH tunnel: a dynamic SOCKS forward on the
//! loopback interface that fails fast instead of prompting.

use vstd::prelude::*;
use crate::daemon_config::{SshTunnelConfig, SshTunnelView, opt_text, tunnel_error};
use crate::error::WebError;
use crate::text::{decimal, decimal_string};

verus! {

/// The arguments passed to `ssh` for a tunnel listening on `local_port`.
pub open spec fn ssh_args_spec(
    destination: Seq<char>,
    identity_file: Option<Seq<char>>,
    ssh_port: Option<u16>,
    local_port: u16,
) -> Seq<Seq<char>> {
    let fixed = seq![
        "-N"@,
        "-D"@,
        "127.0.0.1:"@ + decimal(local_port as nat),
        "-o"@,
        "ExitOnForwardFailure=yes"@,
        "-o"@,
        "BatchMode=yes"@,
        "-o"@,
        "ServerAliveInterval=30"@,
    ];
    let port = match ssh_port {
        Some(p) => seq!["-p"@, decimal(p as nat)],
        None => Seq::empty(),
    };
    let identity = match identity_file {
        Some(path) => seq!["-i"@, path],
        None => Seq::empty(),
    };
    fixed + port + identity + seq![destination]
}

/// The arguments for `ssh` that open the tunnel of `config` on `local_port`.
pub fn ssh_args(config: &SshTunnelConfig, local_port: u16) -> (args: Vec<String>)
    ensures
        args@.map_values(|a: String| a@) == ssh_args_spec(
            config.destination@,
            opt_text(config.identity_file),
            config.ssh_port,
            local_port,
        ),
{
    let mut args: Vec<String> = Vec::new();
    args.push(String::from_str("-N"));
    args.push(String::from_str("-D"));
    let mut forward = String::from_str("127.0.0.1:");
    let digits = decimal_string(local_port as u64);
    forward.append(digits.as_str());
    args.push(forward);
    args.push(String::from_str("-o"));
    args.push(String::from_str("ExitOnForwardFailure=yes"));
    args.push(String::from_str("-o"));
    args.push(String::from_str("BatchMode=yes"));
    args.push(String::from_str("-o"));
    args.push(String::from_str("ServerAliveInterval=30"));
    let ghost fixed = args@.map_values(|a: String| a@);
    match config.ssh_port {
        Some(p) => {
            args.push(String::from_str("-p"));
            args.push(decimal_string(p as u64));
        },
        None => {},
    }
    let ghost with_port = args@.map_values(|a: String| a@);
    match &config.identity_file {
        Some(path) => {
            args.push(String::from_str("-i"));
            args.push(path.clone());
        },
        None => {},
    }
    let ghost with_identity = args@.map_values(|a: String| a@);
    args.push(config.destination.clone());
    proof {
        let port = match config.ssh_port {
            Some(p) => seq!["-p"@, decimal(p as nat)],
            None => Seq::<Seq<char>>::empty(),
        };
        let identity = match opt_text(config.identity_file) {
            Some(path) => seq!["-i"@, path],
            None => Seq::<Seq<char>>::empty(),
        };
        assert(with_port =~= fixed + port);
        assert(with_identity =~= fixed + port + identity);
        assert(args@.map_values(|a: String| a@) =~= fixed + port + identity + seq![config.destination@]);
        assert(fixed =~= seq![
            "-N"@,
            "-D"@,
            "127.0.0.1:"@ + decimal(local_port as nat),
            "-o"@,
            "ExitOnForwardFailure=yes"@,
            "-o"@,
            "BatchMode=yes"@,
            "-o"@,
            "ServerAliveInterval=30"@,
        ]);
    }
    args
}

/// A tunnel configuration as the settings page submits it.
#[derive(Debug)]
pub struct SshTunnelInput {
    pub destination: String,
    pub identity_file: Option<String>,
    pub ssh_port: Option<u16>,
    pub local_port: Option<u16>,
}

impl SshTunnelInput {
    /// The submitted values as a tunnel configuration, checked as the
    /// `[ssh_tunnel]` table is.
    pub fn validate(self) -> (r: Result<SshTunnelConfig, WebError>)
        ensures
            ({
                let input = SshTunnelView {
                    destination: self.destination@,
                    identity_file: opt_text(self.identity_file),
                    ssh_port: self.ssh_port,
                    local_port: self.local_port,
                };
                match tunnel_error(input) {
                    Some(e) => r is Err && r->Err_0@ == e,
                    None => r is Ok && r->Ok_0@ == input,
                }
            }),
    {
        SshTunnelConfig::validated(self.destination, self.identity_file, self.ssh_port, self.local_port)
    }
}

/// The state a tunnel change reports: connected with a tunnel, disabled without.
pub fn tunnel_state(configured: bool) -> (state: &'static str)
    ensures
        state@ == (if configured {
            "connected"@
        } else {
            "disabled"@
        }),
{
    if configured {
        "connected"
    } else {
        "disabled"
    }
}

/// The state the settings page shows for the tunnel: disabled without a
/// configuration, connected while its process runs, failed otherwise.
pub fn tunnel_status(configured: bool, running: bool) -> (state: &'static str)
    ensures
        state@ == (if !configured {
            "disabled"@
        } else if running {
            "connected"@
        } else {
            "failed"@
        }),
{
    if !configured {
        "disabled"
    } else if running {
        "connected"
    } else {
        "failed"
    }
}

/// The proxy URL of a tunnel listening on `local_port`.
pub fn tunnel_proxy_url(local_port: u16) -> (url: String)
    ensures
        url@ == "socks5h://127.0.0.1:"@ + decimal(local_port as nat),
{
    let mut url = String::from_str("socks5h://127.0.0.1:");
    let digits = decimal_string(local_port as u64);
    url.append(digits.as_str());
    url
}

} // verus!
