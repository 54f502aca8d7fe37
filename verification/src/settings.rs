//! User settings and the defaults they fall back to.
use vstd::prelude::*;
use vstd::string::*;
use crate::spec::{copy_opt, NetworkOpts};

verus! {

broadcast use vstd::string::group_string_axioms;

/// yt-dlp's own `--retries`/`--fragment-retries` when nothing is configured.
pub fn default_network_retries() -> (r: u32)
    ensures
        r == 10,
{
    10
}

/// How often the queue re-queues a failed job when nothing is configured.
pub fn default_auto_retry_attempts() -> (r: u32)
    ensures
        r == 2,
{
    2
}

/// The user's settings.
#[derive(Clone, Debug)]
pub struct Settings {
    pub download_dir: String,
    pub filename_template: String,
    pub concurrency: usize,
    pub rate_limit_kbps: Option<u32>,
    pub proxy: Option<String>,
    pub cookies_from_browser: Option<String>,
    /// A `cookies.txt` file, preferred over `cookies_from_browser` when both are set.
    pub cookies_file: Option<String>,
    pub theme: String,
    pub locale: String,
    /// Passed to yt-dlp's own --retries/--fragment-retries for transient network
    /// hiccups within a single attempt.
    pub network_retries: u32,
    /// How many times the queue automatically re-queues a job that ended in Error,
    /// before leaving it for the user to retry manually.
    pub auto_retry_attempts: u32,
}

/// `Path::join` of `base` and `segment`, as text.
pub uninterp spec fn spec_path_join(base: Seq<char>, segment: Seq<char>) -> Seq<char>;

/// Calls `std::path::Path::join` (the path converted back with
/// `to_string_lossy`); the result is the named joining of the two arguments.
#[verifier::external_body]
pub(crate) fn path_join(base: &str, segment: &str) -> (r: String)
    ensures
        r@ == spec_path_join(base@, segment@),
{
    std::path::Path::new(base).join(segment).to_string_lossy().into_owned()
}

/// The default settings, given the platform's download directory when it is known:
/// files go to `<Downloads>/YouTube`, or to the empty path when it is not.
pub open spec fn is_default_settings(s: Settings, downloads: Option<Seq<char>>) -> bool {
    &&& s.download_dir@ == (match downloads {
        Some(d) => spec_path_join(d, "YouTube"@),
        None => Seq::<char>::empty(),
    })
    &&& s.filename_template@ == "%(title)s.%(ext)s"@
    &&& s.concurrency == 3
    &&& s.rate_limit_kbps is None
    &&& s.proxy is None
    &&& s.cookies_from_browser is None
    &&& s.cookies_file is None
    &&& s.theme@ == "dark"@
    &&& s.locale@ == "ru"@
    &&& s.network_retries == 10
    &&& s.auto_retry_attempts == 2
}

impl Settings {
    /// Default settings around the platform's download directory.
    pub fn with_default_dir(downloads: Option<String>) -> (r: Settings)
        ensures
            is_default_settings(r, downloads.deep_view()),
    {
        let download_dir = match downloads {
            Some(d) => path_join(d.as_str(), "YouTube"),
            None => String::new(),
        };
        Settings {
            download_dir,
            filename_template: String::from_str("%(title)s.%(ext)s"),
            concurrency: 3,
            rate_limit_kbps: None,
            proxy: None,
            cookies_from_browser: None,
            cookies_file: None,
            theme: String::from_str("dark"),
            locale: String::from_str("ru"),
            network_retries: default_network_retries(),
            auto_retry_attempts: default_auto_retry_attempts(),
        }
    }

    /// The stored settings when they could be read, else the defaults.
    pub fn stored_or_default(stored: Option<Settings>, downloads: Option<String>) -> (r: Settings)
        ensures
            stored matches Some(s) ==> r == s,
            stored is None ==> is_default_settings(r, downloads.deep_view()),
    {
        match stored {
            Some(s) => s,
            None => Settings::with_default_dir(downloads),
        }
    }
}

/// The network options analysis uses: the settings' when they could be read,
/// else 10 retries and nothing else.
pub open spec fn spec_network_from_settings(s: Option<Settings>) -> NetworkOpts {
    match s {
        Some(s) => NetworkOpts {
            proxy: s.proxy,
            cookies_from_browser: s.cookies_from_browser,
            cookies_file: s.cookies_file,
            network_retries: s.network_retries,
        },
        None => NetworkOpts { proxy: None, cookies_from_browser: None, cookies_file: None, network_retries: 10 },
    }
}

/// Network options taken from the settings (or their fallback).
pub fn network_from_settings(s: Option<&Settings>) -> (r: NetworkOpts)
    ensures
        r == spec_network_from_settings(match s {
            Some(x) => Some(*x),
            None => None,
        }),
{
    match s {
        Some(s) => NetworkOpts {
            proxy: copy_opt(&s.proxy),
            cookies_from_browser: copy_opt(&s.cookies_from_browser),
            cookies_file: copy_opt(&s.cookies_file),
            network_retries: s.network_retries,
        },
        None => NetworkOpts { proxy: None, cookies_from_browser: None, cookies_file: None, network_retries: 10 },
    }
}

/// The automatic retry budget for new or retried jobs: the configured one, or 2
/// when the settings could not be read.
pub fn auto_retry_attempts_of(s: Option<&Settings>) -> (r: u32)
    ensures
        r == (match s {
            Some(x) => x.auto_retry_attempts,
            None => 2,
        }),
{
    match s {
        Some(x) => x.auto_retry_attempts,
        None => default_auto_retry_attempts(),
    }
}

} // verus!
