//! The JS runtime and PO-token settings every yt-dlp call carries.
use vstd::prelude::*;
use vstd::string::*;
use crate::pot::PotInfo;
use crate::spec::RuntimeEnv;
use crate::text::concat;

verus! {

broadcast use vstd::string::group_string_axioms;

/// yt-dlp's `--js-runtimes` value for the bundled quickjs-ng, when it was found.
pub fn js_runtime_arg(qjs_path: Option<&str>) -> (r: Option<String>)
    ensures
        match qjs_path {
            Some(p) => r matches Some(a) && a@ == "quickjs:"@ + p@,
            None => r is None,
        },
{
    match qjs_path {
        Some(p) => Some(concat("quickjs:", p)),
        None => None,
    }
}

/// The runtime environment: the JS runtime flag, and the PO-token provider's
/// fields only when the provider is running (otherwise those flags are skipped).
pub fn runtime_env(js_runtime_arg: Option<String>, pot: Option<PotInfo>) -> (r: RuntimeEnv)
    ensures
        r.js_runtime_arg == js_runtime_arg,
        match pot {
            Some(p) => r.pot_plugin_dir == Some(p.plugin_dir) && r.pot_base_url == Some(p.base_url)
                && r.pot_cli_path == Some(p.cli_path),
            None => r.pot_plugin_dir is None && r.pot_base_url is None && r.pot_cli_path is None,
        },
{
    match pot {
        Some(p) => RuntimeEnv {
            js_runtime_arg,
            pot_plugin_dir: Some(p.plugin_dir),
            pot_base_url: Some(p.base_url),
            pot_cli_path: Some(p.cli_path),
        },
        None => RuntimeEnv { js_runtime_arg, pot_plugin_dir: None, pot_base_url: None, pot_cli_path: None },
    }
}

} // verus!
