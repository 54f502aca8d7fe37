//! The local PO-token provider server: how it is started and how yt-dlp finds it.
use vstd::prelude::*;
use vstd::string::*;
use crate::text::{concat, decimal, u64_to_decimal};

verus! {

broadcast use vstd::string::group_string_axioms;

/// What yt-dlp needs to reach the running PO-token provider.
#[derive(Clone, Debug)]
pub struct PotInfo {
    pub base_url: String,
    pub plugin_dir: String,
    pub cli_path: String,
}

/// The provider's address on the loopback interface.
pub open spec fn spec_pot_base_url(port: u16) -> Seq<char> {
    "http://127.0.0.1:"@ + decimal(port as nat)
}

/// The provider's base URL for `port`.
pub fn pot_base_url(port: u16) -> (r: String)
    ensures
        r@ == spec_pot_base_url(port),
{
    let p = u64_to_decimal(port as u64);
    concat("http://127.0.0.1:", p.as_str())
}

/// The arguments that start the provider as a loopback HTTP server on `port`.
pub fn pot_server_args(port: u16) -> (r: Vec<String>)
    ensures
        r.deep_view() == seq!["server"@, "--host"@, "127.0.0.1"@, "--port"@, decimal(port as nat)],
{
    let mut r: Vec<String> = Vec::new();
    r.push(String::from_str("server"));
    r.push(String::from_str("--host"));
    r.push(String::from_str("127.0.0.1"));
    r.push(String::from_str("--port"));
    r.push(u64_to_decimal(port as u64));
    assert(r.deep_view() =~= seq!["server"@, "--host"@, "127.0.0.1"@, "--port"@, decimal(port as nat)]);
    r
}

/// The provider's info once started on `port`.
pub fn pot_info(port: u16, plugin_dir: String, cli_path: String) -> (r: PotInfo)
    ensures
        r.base_url@ == spec_pot_base_url(port),
        r.plugin_dir == plugin_dir,
        r.cli_path == cli_path,
{
    PotInfo { base_url: pot_base_url(port), plugin_dir, cli_path }
}

} // verus!
