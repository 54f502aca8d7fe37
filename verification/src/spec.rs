//! What a download asks for, and the yt-dlp argument vector that carries it out.
use vstd::prelude::*;
use vstd::string::*;
use crate::text::{concat, decimal, digit_char, has_substring, join, join_with, occurs_at, u64_to_decimal};

verus! {

broadcast use vstd::string::group_string_axioms;

/// Whether the job keeps the video or extracts audio only.
#[derive(Clone, Copy, Debug, PartialEq, Eq)]
pub enum Mode {
    Video,
    Audio,
}

/// Container the video and audio streams are merged into.
#[derive(Clone, Copy, Debug, PartialEq, Eq)]
pub enum VideoContainer {
    Mp4,
    Mkv,
    Webm,
}

/// yt-dlp's name for a container.
pub open spec fn container_name(c: VideoContainer) -> Seq<char> {
    match c {
        VideoContainer::Mp4 => "mp4"@,
        VideoContainer::Mkv => "mkv"@,
        VideoContainer::Webm => "webm"@,
    }
}

impl VideoContainer {
    /// The container's name as yt-dlp expects it.
    pub fn as_str(&self) -> (r: &'static str)
        ensures
            r@ == container_name(*self),
    {
        match self {
            VideoContainer::Mp4 => "mp4",
            VideoContainer::Mkv => "mkv",
            VideoContainer::Webm => "webm",
        }
    }
}

/// Target format of audio extraction.
#[derive(Clone, Copy, Debug, PartialEq, Eq)]
pub enum AudioFormat {
    Mp3,
    M4a,
    Opus,
    Flac,
    Wav,
}

/// yt-dlp's name for an audio format.
pub open spec fn audio_format_name(f: AudioFormat) -> Seq<char> {
    match f {
        AudioFormat::Mp3 => "mp3"@,
        AudioFormat::M4a => "m4a"@,
        AudioFormat::Opus => "opus"@,
        AudioFormat::Flac => "flac"@,
        AudioFormat::Wav => "wav"@,
    }
}

impl AudioFormat {
    /// The format's name as yt-dlp expects it.
    pub fn as_str(&self) -> (r: &'static str)
        ensures
            r@ == audio_format_name(*self),
    {
        match self {
            AudioFormat::Mp3 => "mp3",
            AudioFormat::M4a => "m4a",
            AudioFormat::Opus => "opus",
            AudioFormat::Flac => "flac",
            AudioFormat::Wav => "wav",
        }
    }
}

/// Audio quality: the best available, or a bitrate in kbit/s.
#[derive(Clone, Copy, Debug, PartialEq, Eq)]
pub enum AudioQuality {
    Best,
    Kbps(u32),
}

/// Subtitle download options.
#[derive(Clone, Debug, PartialEq)]
pub struct SubtitleOptions {
    pub enabled: bool,
    pub langs: Vec<String>,
    pub auto: bool,
    pub embed: bool,
}

impl Default for SubtitleOptions {
    fn default() -> (r: Self)
        ensures
            !r.enabled && r.langs@.len() == 0 && !r.auto && !r.embed,
    {
        SubtitleOptions { enabled: false, langs: Vec::new(), auto: false, embed: false }
    }
}

/// Post-processing extras.
#[derive(Clone, Debug, PartialEq)]
pub struct Extras {
    pub embed_thumbnail: bool,
    pub embed_metadata: bool,
    pub embed_chapters: bool,
    pub sponsorblock: bool,
    pub write_info_json: bool,
    pub subtitles: SubtitleOptions,
}

impl Default for Extras {
    fn default() -> (r: Self)
        ensures
            !r.embed_thumbnail && !r.embed_metadata && !r.embed_chapters && !r.sponsorblock
                && !r.write_info_json,
            !r.subtitles.enabled && r.subtitles.langs@.len() == 0 && !r.subtitles.auto
                && !r.subtitles.embed,
    {
        Extras {
            embed_thumbnail: false,
            embed_metadata: false,
            embed_chapters: false,
            sponsorblock: false,
            write_info_json: false,
            subtitles: SubtitleOptions::default(),
        }
    }
}

/// Everything one download asks for.
#[derive(Clone, Debug, PartialEq)]
pub struct DownloadSpec {
    pub mode: Mode,
    pub max_height: Option<u32>,
    pub container: VideoContainer,
    pub video_only: bool,
    pub audio_format: AudioFormat,
    pub audio_quality: AudioQuality,
    pub extras: Extras,
    pub output_dir: String,
    pub filename_template: String,
    pub rate_limit_kbps: Option<u32>,
    pub proxy: Option<String>,
    pub cookies_from_browser: Option<String>,
    /// A `cookies.txt` file, preferred over `cookies_from_browser` when both are
    /// set: `--cookies-from-browser` needs OS-keychain access and fails while the
    /// browser holds its profile lock, which a plain file never runs into.
    pub cookies_file: Option<String>,
    pub download_archive_path: Option<String>,
    pub ffmpeg_dir: Option<String>,
    pub network_retries: u32,
}

/// Where the JS runtime and PO-token provider live, resolved once per app and
/// independent of any particular job: downloads and probing use the same values.
#[derive(Clone, Debug)]
pub struct RuntimeEnv {
    /// yt-dlp `--js-runtimes` value, e.g. `"quickjs:/path/to/qjs"`.
    pub js_runtime_arg: Option<String>,
    pub pot_plugin_dir: Option<String>,
    pub pot_base_url: Option<String>,
    pub pot_cli_path: Option<String>,
}

impl Default for RuntimeEnv {
    fn default() -> (r: Self)
        ensures
            r.js_runtime_arg is None && r.pot_plugin_dir is None && r.pot_base_url is None
                && r.pot_cli_path is None,
    {
        RuntimeEnv { js_runtime_arg: None, pot_plugin_dir: None, pot_base_url: None, pot_cli_path: None }
    }
}

/// Network-facing options shared between downloads and analysis.
#[derive(Clone, Debug)]
pub struct NetworkOpts {
    pub proxy: Option<String>,
    pub cookies_from_browser: Option<String>,
    pub cookies_file: Option<String>,
    pub network_retries: u32,
}

impl Default for NetworkOpts {
    fn default() -> (r: Self)
        ensures
            r.proxy is None && r.cookies_from_browser is None && r.cookies_file is None
                && r.network_retries == 0,
    {
        NetworkOpts { proxy: None, cookies_from_browser: None, cookies_file: None, network_retries: 0 }
    }
}

// ------------------------------------------------------------ spec helpers

/// The value is present and not the empty string.
pub open spec fn present(value: Option<String>) -> bool {
    match value {
        Some(v) => v@.len() > 0,
        None => false,
    }
}

/// The text of a present value (empty when absent).
pub open spec fn text_of(value: Option<String>) -> Seq<char> {
    match value {
        Some(v) => v@,
        None => seq![],
    }
}

/// `flag value` when the value is set (even if empty).
pub open spec fn flag_with(flag: Seq<char>, value: Option<String>) -> Seq<Seq<char>> {
    match value {
        Some(v) => seq![flag, v@],
        None => seq![],
    }
}

/// `flag prefix+value` when the value is set.
pub open spec fn flag_with_prefixed(flag: Seq<char>, prefix: Seq<char>, value: Option<String>) -> Seq<Seq<char>> {
    match value {
        Some(v) => seq![flag, prefix + v@],
        None => seq![],
    }
}

/// `flag value` when the value is set and not empty.
pub open spec fn flag_if_present(flag: Seq<char>, value: Option<String>) -> Seq<Seq<char>> {
    if present(value) {
        seq![flag, text_of(value)]
    } else {
        seq![]
    }
}

/// `flag` alone when `cond` holds.
pub open spec fn flag_if(cond: bool, flag: Seq<char>) -> Seq<Seq<char>> {
    if cond {
        seq![flag]
    } else {
        seq![]
    }
}

// ----------------------------------------------------------- argument specs

/// `--js-runtimes`, `--plugin-dirs` and the PO-token provider's extractor args.
/// No player-client selection: that stays yt-dlp's own.
pub open spec fn spec_runtime_args(env: RuntimeEnv) -> Seq<Seq<char>> {
    flag_with("--js-runtimes"@, env.js_runtime_arg) + flag_with("--plugin-dirs"@, env.pot_plugin_dir)
        + flag_with_prefixed("--extractor-args"@, "youtubepot-bgutilhttp:base_url="@, env.pot_base_url)
        + flag_with_prefixed("--extractor-args"@, "youtubepot-bgutilcli:cli_path="@, env.pot_cli_path)
}

/// The cookie flags: a non-empty `cookies_file` wins over `cookies_from_browser`.
pub open spec fn cookie_args(net: NetworkOpts) -> Seq<Seq<char>> {
    if present(net.cookies_file) {
        flag_if_present("--cookies"@, net.cookies_file)
    } else {
        flag_if_present("--cookies-from-browser"@, net.cookies_from_browser)
    }
}

/// Retries, proxy and cookie flags.
pub open spec fn spec_network_args(net: NetworkOpts) -> Seq<Seq<char>> {
    seq![
        "--retries"@,
        decimal(net.network_retries as nat),
        "--fragment-retries"@,
        decimal(net.network_retries as nat),
    ] + flag_if_present("--proxy"@, net.proxy) + cookie_args(net)
}

/// `[height<=H]` when a maximum height is set, else nothing.
pub open spec fn height_filter(max_height: Option<u32>) -> Seq<char> {
    match max_height {
        Some(h) => "[height<="@ + decimal(h as nat) + "]"@,
        None => seq![],
    }
}

/// The `-f` selector: H.264/AAC preferred for mp4 (QuickTime compatibility),
/// unrestricted codecs for other containers; no audio track when video-only.
pub open spec fn spec_format_selector(video_only: bool, container: VideoContainer, max_height: Option<u32>) -> Seq<char> {
    let h = height_filter(max_height);
    let compat = container is Mp4;
    if video_only {
        if compat {
            "bestvideo"@ + h + "[vcodec^=avc1]/bestvideo"@ + h + "/best"@ + h
        } else {
            "bestvideo"@ + h + "/best"@ + h
        }
    } else if compat {
        "bestvideo"@ + h + "[vcodec^=avc1]+bestaudio[acodec^=mp4a]/bestvideo"@ + h + "+bestaudio/best"@ + h
    } else {
        "bestvideo"@ + h + "+bestaudio/best"@ + h
    }
}

/// `--audio-quality` value: `0` for best, `<k>K` for a bitrate.
pub open spec fn audio_quality_value(q: AudioQuality) -> Seq<char> {
    match q {
        AudioQuality::Best => "0"@,
        AudioQuality::Kbps(k) => decimal(k as nat) + "K"@,
    }
}

/// Format selection (video) or extraction (audio) flags.
pub open spec fn mode_args(spec: DownloadSpec) -> Seq<Seq<char>> {
    match spec.mode {
        Mode::Video => seq![
            "-f"@,
            spec_format_selector(spec.video_only, spec.container, spec.max_height),
            "--merge-output-format"@,
            container_name(spec.container),
        ],
        Mode::Audio => seq![
            "-x"@,
            "--audio-format"@,
            audio_format_name(spec.audio_format),
            "--audio-quality"@,
            audio_quality_value(spec.audio_quality),
        ],
    }
}

/// Subtitle flags, only when enabled with at least one language.
pub open spec fn subtitle_args(s: SubtitleOptions) -> Seq<Seq<char>> {
    if s.enabled && s.langs@.len() > 0 {
        seq!["--write-subs"@] + flag_if(s.auto, "--write-auto-subs"@) + seq![
            "--sub-langs"@,
            join_with(s.langs.deep_view(), ","@),
        ] + flag_if(s.embed, "--embed-subs"@)
    } else {
        seq![]
    }
}

/// Flags for the post-processing extras.
pub open spec fn extras_args(e: Extras) -> Seq<Seq<char>> {
    flag_if(e.embed_thumbnail, "--embed-thumbnail"@) + flag_if(e.embed_metadata, "--embed-metadata"@)
        + flag_if(e.embed_chapters, "--embed-chapters"@) + flag_if(
        e.write_info_json,
        "--write-info-json"@,
    ) + (if e.sponsorblock {
        seq!["--sponsorblock-remove"@, "sponsor,selfpromo,interaction"@]
    } else {
        seq![]
    }) + subtitle_args(e.subtitles)
}

/// The fixed progress-reporting prefix of every download argv.
pub open spec fn progress_args() -> Seq<Seq<char>> {
    seq![
        "--newline"@,
        "--no-playlist"@,
        "--continue"@,
        "--progress-template"@,
        "download:[DLPROG]%(progress.status)s|%(progress.downloaded_bytes)s|%(progress.total_bytes)s|%(progress.total_bytes_estimate)s|%(progress.speed)s|%(progress.eta)s|%(info.filename)s"@,
        "--progress-template"@,
        "postprocess:[PPPROG]%(progress.status)s|%(postprocessor)s|%(info.filename)s"@,
    ]
}

/// `--limit-rate <k>K` when a rate limit is set.
pub open spec fn rate_args(rate: Option<u32>) -> Seq<Seq<char>> {
    match rate {
        Some(k) => seq!["--limit-rate"@, decimal(k as nat) + "K"@],
        None => seq![],
    }
}

/// The network options a download spec carries.
pub open spec fn spec_network_opts(spec: DownloadSpec) -> NetworkOpts {
    NetworkOpts {
        proxy: spec.proxy,
        cookies_from_browser: spec.cookies_from_browser,
        cookies_file: spec.cookies_file,
        network_retries: spec.network_retries,
    }
}

/// The whole yt-dlp argv for downloading `url` as `spec` asks; the URL comes
/// last, after `--`, so it can never be read as an option.
pub open spec fn spec_to_argv(spec: DownloadSpec, url: Seq<char>, env: RuntimeEnv) -> Seq<Seq<char>> {
    progress_args() + spec_runtime_args(env) + mode_args(spec) + extras_args(spec.extras) + seq![
        "--paths"@,
        spec.output_dir@,
        "-o"@,
        spec.filename_template@,
    ] + rate_args(spec.rate_limit_kbps) + spec_network_args(spec_network_opts(spec))
        + flag_if_present("--download-archive"@, spec.download_archive_path) + flag_if_present(
        "--ffmpeg-location"@,
        spec.ffmpeg_dir,
    ) + seq!["--"@, url]
}

// ------------------------------------------------------------ vec builders

fn push_string(args: &mut Vec<String>, s: String)
    ensures
        final(args).deep_view() == old(args).deep_view().push(s@),
{
    let ghost before = args.deep_view();
    let ghost sv = s@;
    args.push(s);
    assert(args.deep_view() =~= before.push(sv));
}

fn push_lit(args: &mut Vec<String>, lit: &str)
    ensures
        final(args).deep_view() == old(args).deep_view().push(lit@),
{
    push_string(args, String::from_str(lit));
}

pub(crate) fn extend_args(args: &mut Vec<String>, more: Vec<String>)
    ensures
        final(args).deep_view() == old(args).deep_view() + more.deep_view(),
{
    let ghost a = args.deep_view();
    let ghost b = more.deep_view();
    let mut more = more;
    args.append(&mut more);
    assert(args.deep_view() =~= a + b);
}

fn empty_args() -> (r: Vec<String>)
    ensures
        r.deep_view() == Seq::<Seq<char>>::empty(),
{
    let r: Vec<String> = Vec::new();
    assert(r.deep_view() =~= Seq::<Seq<char>>::empty());
    r
}

fn pair_args(a: String, b: String) -> (r: Vec<String>)
    ensures
        r.deep_view() == seq![a@, b@],
{
    let mut r = empty_args();
    push_string(&mut r, a);
    push_string(&mut r, b);
    assert(r.deep_view() =~= seq![a@, b@]);
    r
}

fn single_arg(a: &str) -> (r: Vec<String>)
    ensures
        r.deep_view() == seq![a@],
{
    let mut r = empty_args();
    push_lit(&mut r, a);
    assert(r.deep_view() =~= seq![a@]);
    r
}

/// A copy of an optional string.
pub(crate) fn copy_opt(o: &Option<String>) -> (r: Option<String>)
    ensures
        r == *o,
{
    match o {
        Some(s) => Some(s.clone()),
        None => None,
    }
}

/// Whether an optional string is present and non-empty.
pub(crate) fn is_present(o: &Option<String>) -> (r: bool)
    ensures
        r == present(*o),
{
    match o {
        Some(s) => !s.as_str().is_empty(),
        None => false,
    }
}

fn flag_with_vec(flag: &str, value: &Option<String>) -> (r: Vec<String>)
    ensures
        r.deep_view() == flag_with(flag@, *value),
{
    match value {
        Some(v) => pair_args(String::from_str(flag), v.clone()),
        None => empty_args(),
    }
}

fn flag_with_prefixed_vec(flag: &str, prefix: &str, value: &Option<String>) -> (r: Vec<String>)
    ensures
        r.deep_view() == flag_with_prefixed(flag@, prefix@, *value),
{
    match value {
        Some(v) => pair_args(String::from_str(flag), concat(prefix, v.as_str())),
        None => empty_args(),
    }
}

fn flag_if_present_vec(flag: &str, value: &Option<String>) -> (r: Vec<String>)
    ensures
        r.deep_view() == flag_if_present(flag@, *value),
{
    match value {
        Some(v) => {
            if v.as_str().is_empty() {
                empty_args()
            } else {
                pair_args(String::from_str(flag), v.clone())
            }
        },
        None => empty_args(),
    }
}

fn flag_if_vec(cond: bool, flag: &str) -> (r: Vec<String>)
    ensures
        r.deep_view() == flag_if(cond, flag@),
{
    if cond {
        single_arg(flag)
    } else {
        empty_args()
    }
}

// --------------------------------------------------------------- builders

/// JS runtime + PO-token provider flags. Deliberately does not pin or exclude
/// YouTube player clients: client selection belongs to yt-dlp.
pub fn runtime_args(env: &RuntimeEnv) -> (r: Vec<String>)
    ensures
        r.deep_view() == spec_runtime_args(*env),
{
    let mut args = flag_with_vec("--js-runtimes", &env.js_runtime_arg);
    extend_args(&mut args, flag_with_vec("--plugin-dirs", &env.pot_plugin_dir));
    extend_args(
        &mut args,
        flag_with_prefixed_vec("--extractor-args", "youtubepot-bgutilhttp:base_url=", &env.pot_base_url),
    );
    extend_args(
        &mut args,
        flag_with_prefixed_vec("--extractor-args", "youtubepot-bgutilcli:cli_path=", &env.pot_cli_path),
    );
    args
}

/// Retries/proxy/cookies flags. `cookies_file` wins over `cookies_from_browser`
/// when both are set.
pub fn network_args(net: &NetworkOpts) -> (r: Vec<String>)
    ensures
        r.deep_view() == spec_network_args(*net),
{
    let retries = u64_to_decimal(net.network_retries as u64);
    let mut args = empty_args();
    push_lit(&mut args, "--retries");
    push_string(&mut args, retries.clone());
    push_lit(&mut args, "--fragment-retries");
    push_string(&mut args, retries);
    assert(args.deep_view() =~= seq![
        "--retries"@,
        decimal(net.network_retries as nat),
        "--fragment-retries"@,
        decimal(net.network_retries as nat),
    ]);
    extend_args(&mut args, flag_if_present_vec("--proxy", &net.proxy));
    if is_present(&net.cookies_file) {
        extend_args(&mut args, flag_if_present_vec("--cookies", &net.cookies_file));
    } else {
        extend_args(&mut args, flag_if_present_vec("--cookies-from-browser", &net.cookies_from_browser));
    }
    args
}

fn height_filter_string(max_height: Option<u32>) -> (r: String)
    ensures
        r@ == height_filter(max_height),
{
    match max_height {
        Some(h) => {
            let mut s = String::from_str("[height<=");
            let d = u64_to_decimal(h as u64);
            s.append(d.as_str());
            s.append("]");
            s
        },
        None => String::new(),
    }
}

/// The `-f` format selector for a video download.
pub fn format_selector(video_only: bool, container: &VideoContainer, max_height: Option<u32>) -> (r: String)
    ensures
        r@ == spec_format_selector(video_only, *container, max_height),
{
    let h = height_filter_string(max_height);
    let compat = match container {
        VideoContainer::Mp4 => true,
        _ => false,
    };
    let mut s = String::from_str("bestvideo");
    s.append(h.as_str());
    if video_only {
        if compat {
            s.append("[vcodec^=avc1]/bestvideo");
            s.append(h.as_str());
            s.append("/best");
            s.append(h.as_str());
        } else {
            s.append("/best");
            s.append(h.as_str());
        }
    } else if compat {
        s.append("[vcodec^=avc1]+bestaudio[acodec^=mp4a]/bestvideo");
        s.append(h.as_str());
        s.append("+bestaudio/best");
        s.append(h.as_str());
    } else {
        s.append("+bestaudio/best");
        s.append(h.as_str());
    }
    s
}

fn audio_quality_string(q: &AudioQuality) -> (r: String)
    ensures
        r@ == audio_quality_value(*q),
{
    match q {
        AudioQuality::Best => String::from_str("0"),
        AudioQuality::Kbps(k) => {
            let mut s = u64_to_decimal(*k as u64);
            s.append("K");
            s
        },
    }
}

fn mode_args_vec(spec: &DownloadSpec) -> (r: Vec<String>)
    ensures
        r.deep_view() == mode_args(*spec),
{
    let mut args = empty_args();
    match spec.mode {
        Mode::Video => {
            push_lit(&mut args, "-f");
            push_string(&mut args, format_selector(spec.video_only, &spec.container, spec.max_height));
            push_lit(&mut args, "--merge-output-format");
            push_lit(&mut args, spec.container.as_str());
            assert(args.deep_view() =~= mode_args(*spec));
        },
        Mode::Audio => {
            push_lit(&mut args, "-x");
            push_lit(&mut args, "--audio-format");
            push_lit(&mut args, spec.audio_format.as_str());
            push_lit(&mut args, "--audio-quality");
            push_string(&mut args, audio_quality_string(&spec.audio_quality));
            assert(args.deep_view() =~= mode_args(*spec));
        },
    }
    args
}

fn subtitle_args_vec(s: &SubtitleOptions) -> (r: Vec<String>)
    ensures
        r.deep_view() == subtitle_args(*s),
{
    if s.enabled && s.langs.len() > 0 {
        let mut args = single_arg("--write-subs");
        extend_args(&mut args, flag_if_vec(s.auto, "--write-auto-subs"));
        extend_args(&mut args, pair_args(String::from_str("--sub-langs"), join(&s.langs, ",")));
        extend_args(&mut args, flag_if_vec(s.embed, "--embed-subs"));
        args
    } else {
        empty_args()
    }
}

fn extras_args_vec(e: &Extras) -> (r: Vec<String>)
    ensures
        r.deep_view() == extras_args(*e),
{
    let mut args = flag_if_vec(e.embed_thumbnail, "--embed-thumbnail");
    extend_args(&mut args, flag_if_vec(e.embed_metadata, "--embed-metadata"));
    extend_args(&mut args, flag_if_vec(e.embed_chapters, "--embed-chapters"));
    extend_args(&mut args, flag_if_vec(e.write_info_json, "--write-info-json"));
    if e.sponsorblock {
        extend_args(
            &mut args,
            pair_args(String::from_str("--sponsorblock-remove"), String::from_str("sponsor,selfpromo,interaction")),
        );
    } else {
        extend_args(&mut args, empty_args());
    }
    extend_args(&mut args, subtitle_args_vec(&e.subtitles));
    args
}

fn progress_args_vec() -> (r: Vec<String>)
    ensures
        r.deep_view() == progress_args(),
{
    let mut args = empty_args();
    push_lit(&mut args, "--newline");
    push_lit(&mut args, "--no-playlist");
    push_lit(&mut args, "--continue");
    push_lit(&mut args, "--progress-template");
    push_lit(
        &mut args,
        "download:[DLPROG]%(progress.status)s|%(progress.downloaded_bytes)s|%(progress.total_bytes)s|%(progress.total_bytes_estimate)s|%(progress.speed)s|%(progress.eta)s|%(info.filename)s",
    );
    push_lit(&mut args, "--progress-template");
    push_lit(&mut args, "postprocess:[PPPROG]%(progress.status)s|%(postprocessor)s|%(info.filename)s");
    assert(args.deep_view() =~= progress_args());
    args
}

fn rate_args_vec(rate: Option<u32>) -> (r: Vec<String>)
    ensures
        r.deep_view() == rate_args(rate),
{
    match rate {
        Some(k) => {
            let mut v = u64_to_decimal(k as u64);
            v.append("K");
            pair_args(String::from_str("--limit-rate"), v)
        },
        None => empty_args(),
    }
}

impl DownloadSpec {
    /// The network options this spec carries.
    pub fn network_opts(&self) -> (r: NetworkOpts)
        ensures
            r == spec_network_opts(*self),
    {
        NetworkOpts {
            proxy: copy_opt(&self.proxy),
            cookies_from_browser: copy_opt(&self.cookies_from_browser),
            cookies_file: copy_opt(&self.cookies_file),
            network_retries: self.network_retries,
        }
    }
}

/// The yt-dlp argv for a `DownloadSpec`: side-effect free and
/// independent of resolved binary paths. `--no-warnings` is deliberately absent:
/// warnings are how a JS-runtime/PO-token regression surfaces in logs.
pub fn to_argv(spec: &DownloadSpec, url: &str, env: &RuntimeEnv) -> (r: Vec<String>)
    ensures
        r.deep_view() == spec_to_argv(*spec, url@, *env),
{
    let mut args = progress_args_vec();
    extend_args(&mut args, runtime_args(env));
    extend_args(&mut args, mode_args_vec(spec));
    extend_args(&mut args, extras_args_vec(&spec.extras));
    let mut paths = pair_args(String::from_str("--paths"), spec.output_dir.clone());
    extend_args(&mut paths, pair_args(String::from_str("-o"), spec.filename_template.clone()));
    assert(paths.deep_view() =~= seq!["--paths"@, spec.output_dir@, "-o"@, spec.filename_template@]);
    extend_args(&mut args, paths);
    extend_args(&mut args, rate_args_vec(spec.rate_limit_kbps));
    extend_args(&mut args, network_args(&spec.network_opts()));
    extend_args(&mut args, flag_if_present_vec("--download-archive", &spec.download_archive_path));
    extend_args(&mut args, flag_if_present_vec("--ffmpeg-location", &spec.ffmpeg_dir));
    extend_args(&mut args, pair_args(String::from_str("--"), String::from_str(url)));
    args
}


// --------------------------------------------------------------------- laws

/// Law: the URL is always the last argument, right after `--`, so nothing the
/// user pastes can be read as an option.
pub proof fn law_url_is_last(spec: DownloadSpec, url: Seq<char>, env: RuntimeEnv)
    ensures
        ({
            let a = spec_to_argv(spec, url, env);
            a.len() >= 2 && a[a.len() - 1] == url && a[a.len() - 2] == "--"@
        }),
{
}

/// Law: a non-empty cookies file wins: the browser setting then has no effect
/// on the cookie flags, which pass the file.
pub proof fn law_cookies_file_wins(net: NetworkOpts)
    requires
        present(net.cookies_file),
    ensures
        cookie_args(net) == seq!["--cookies"@, text_of(net.cookies_file)],
        cookie_args(net) == cookie_args(NetworkOpts { cookies_from_browser: None, ..net }),
{
}

/// Law: without a cookies file, a non-empty browser setting is used.
pub proof fn law_browser_cookies_without_file(net: NetworkOpts)
    requires
        !present(net.cookies_file),
        present(net.cookies_from_browser),
    ensures
        cookie_args(net) == seq!["--cookies-from-browser"@, text_of(net.cookies_from_browser)],
{
}

/// Law: while the JS runtime and PO-token provider are unresolved, no runtime
/// or provider flags are passed.
pub proof fn law_unresolved_env_adds_nothing(env: RuntimeEnv)
    requires
        env.js_runtime_arg is None,
        env.pot_plugin_dir is None,
        env.pot_base_url is None,
        env.pot_cli_path is None,
    ensures
        spec_runtime_args(env) == Seq::<Seq<char>>::empty(),
{
    assert(spec_runtime_args(env) =~= Seq::<Seq<char>>::empty());
}

/// Law: subtitle flags appear only when subtitles are enabled with at least one language.
pub proof fn law_subtitles_need_languages(s: SubtitleOptions)
    requires
        !s.enabled || s.langs@.len() == 0,
    ensures
        subtitle_args(s) == Seq::<Seq<char>>::empty(),
{
}

/// Law: with subtitles on and at least one language, each subtitle flag follows
/// its own option: `--write-auto-subs` is passed exactly when automatic
/// subtitles are asked for, `--embed-subs` exactly when embedding is, and
/// `--write-subs` always. (Left out: a language list that is itself spelled
/// like one of those two flags.)
pub proof fn law_subtitle_flags_follow_their_options(s: SubtitleOptions)
    requires
        s.enabled,
        s.langs@.len() > 0,
        join_with(s.langs.deep_view(), ","@) != "--write-auto-subs"@,
        join_with(s.langs.deep_view(), ","@) != "--embed-subs"@,
    ensures
        subtitle_args(s).contains("--write-auto-subs"@) <==> s.auto,
        subtitle_args(s).contains("--embed-subs"@) <==> s.embed,
        subtitle_args(s).contains("--write-subs"@),
{
    reveal_strlit("--write-subs");
    reveal_strlit("--write-auto-subs");
    reveal_strlit("--sub-langs");
    reveal_strlit("--embed-subs");
    let langs = join_with(s.langs.deep_view(), ","@);
    let a = subtitle_args(s);
    assert("--write-subs"@.len() == 12 && "--write-subs"@[2] == 'w');
    assert("--embed-subs"@.len() == 12 && "--embed-subs"@[2] == 'e');
    assert("--write-auto-subs"@.len() == 17);
    assert("--sub-langs"@.len() == 11);
    assert("--write-subs"@ != "--write-auto-subs"@ && "--write-subs"@ != "--embed-subs"@);
    assert("--sub-langs"@ != "--write-auto-subs"@ && "--sub-langs"@ != "--embed-subs"@);
    assert("--write-auto-subs"@ != "--embed-subs"@);
    assert(a[0] == "--write-subs"@);
    if s.auto {
        assert(a[1] == "--write-auto-subs"@);
    }
    if s.embed {
        assert(a[a.len() - 1] == "--embed-subs"@);
    }
    assert forall|k: int| 0 <= k < a.len() implies (a[k] == "--write-auto-subs"@ ==> s.auto) && (a[k]
        == "--embed-subs"@ ==> s.embed) by {
    }
}

/// Law: the subtitle flags stand, unbroken and in their order, in the argv of
/// every download.
pub proof fn law_subtitle_args_in_argv(spec: DownloadSpec, url: Seq<char>, env: RuntimeEnv)
    ensures
        exists|i: int|
            0 <= i && i + subtitle_args(spec.extras.subtitles).len() <= spec_to_argv(spec, url, env).len()
                && #[trigger] spec_to_argv(spec, url, env).subrange(
                i,
                i + subtitle_args(spec.extras.subtitles).len(),
            ) == subtitle_args(spec.extras.subtitles),
{
    let sub = subtitle_args(spec.extras.subtitles);
    let e = extras_args(spec.extras);
    let pre = progress_args() + spec_runtime_args(env) + mode_args(spec);
    let x = pre + e;
    let n = x.len() as int;
    let a1 = x + seq!["--paths"@, spec.output_dir@, "-o"@, spec.filename_template@];
    assert(x.subrange(0, n) =~= x);
    lemma_prefix_kept(x, x, seq!["--paths"@, spec.output_dir@, "-o"@, spec.filename_template@], n);
    let a2 = a1 + rate_args(spec.rate_limit_kbps);
    lemma_prefix_kept(x, a1, rate_args(spec.rate_limit_kbps), n);
    let a3 = a2 + spec_network_args(spec_network_opts(spec));
    lemma_prefix_kept(x, a2, spec_network_args(spec_network_opts(spec)), n);
    let a4 = a3 + flag_if_present("--download-archive"@, spec.download_archive_path);
    lemma_prefix_kept(x, a3, flag_if_present("--download-archive"@, spec.download_archive_path), n);
    let a5 = a4 + flag_if_present("--ffmpeg-location"@, spec.ffmpeg_dir);
    lemma_prefix_kept(x, a4, flag_if_present("--ffmpeg-location"@, spec.ffmpeg_dir), n);
    let argv = a5 + seq!["--"@, url];
    lemma_prefix_kept(x, a5, seq!["--"@, url], n);
    assert(argv == spec_to_argv(spec, url, env));
    let head = e.subrange(0, e.len() - sub.len());
    assert(e =~= head + sub);
    let i: int = (pre.len() + head.len()) as int;
    assert(argv.subrange(i, i + sub.len() as int) =~= sub) by {
        assert forall|k: int| 0 <= k < sub.len() implies argv.subrange(i, i + sub.len() as int)[k] == sub[k] by {
            assert(argv.subrange(0, n)[i + k] == x[i + k]);
            assert(x[i + k] == e[head.len() + k]);
            assert(e[head.len() + k] == (head + sub)[head.len() + k]);
        }
    }
}

/// A prefix of `c` stays a prefix once more arguments are appended.
proof fn lemma_prefix_kept(x: Seq<Seq<char>>, c: Seq<Seq<char>>, b: Seq<Seq<char>>, n: int)
    requires
        n == x.len(),
        n <= c.len(),
        c.subrange(0, n) == x,
    ensures
        (c + b).subrange(0, n) == x,
{
    assert((c + b).subrange(0, n) =~= c.subrange(0, n));
}

/// Law: both retry flags carry the same configured count.
pub proof fn law_retries_apply_to_both_flags(net: NetworkOpts)
    ensures
        spec_network_args(net)[0] == "--retries"@,
        spec_network_args(net)[2] == "--fragment-retries"@,
        spec_network_args(net)[1] == spec_network_args(net)[3],
        spec_network_args(net)[1] == decimal(net.network_retries as nat),
{
}


/// No character of `s` is `c`.
pub open spec fn avoids(s: Seq<char>, c: char) -> bool {
    forall|i: int| 0 <= i < s.len() ==> s[i] != c
}

proof fn lemma_avoids_concat(a: Seq<char>, b: Seq<char>, c: char)
    requires
        avoids(a, c),
        avoids(b, c),
    ensures
        avoids(a + b, c),
{
    assert forall|i: int| 0 <= i < (a + b).len() implies (a + b)[i] != c by {
        if i >= a.len() {
            assert((a + b)[i] == b[i - a.len()]);
        }
    }
}

proof fn lemma_decimal_avoids_letters(n: nat, c: char)
    requires
        c == 'c' || c == 'u',
    ensures
        avoids(decimal(n), c),
    decreases n,
{
    if n >= 10 {
        lemma_decimal_avoids_letters(n / 10, c);
        let d = decimal(n / 10);
        let e = d.push(digit_char((n % 10) as int));
        assert forall|i: int| 0 <= i < e.len() implies #[trigger] e[i] != c by {
            if i < d.len() {
                assert(e[i] == d[i]);
            }
        }
    }
}

proof fn lemma_avoided_char_excludes(h: Seq<char>, n: Seq<char>, c: char, k: int)
    requires
        avoids(h, c),
        0 <= k < n.len(),
        n[k] == c,
    ensures
        !has_substring(h, n),
{
    assert forall|i: int| !#[trigger] occurs_at(h, n, i) by {
        if occurs_at(h, n, i) {
            assert(h.subrange(i, i + n.len())[k] == h[i + k]);
        }
    }
}

proof fn lemma_height_filter_avoids(max_height: Option<u32>, c: char)
    requires
        c == 'c' || c == 'u',
    ensures
        avoids(height_filter(max_height), c),
{
    reveal_strlit("[height<=");
    reveal_strlit("]");
    if let Some(h) = max_height {
        lemma_decimal_avoids_letters(h as nat, c);
        assert(avoids("[height<="@, c));
        assert(avoids("]"@, c));
        lemma_avoids_concat("[height<="@, decimal(h as nat), c);
        lemma_avoids_concat("[height<="@ + decimal(h as nat), "]"@, c);
    } else {
        assert(avoids(Seq::<char>::empty(), c));
    }
}

/// Law: outside mp4, the format selector does not restrict codecs: no `avc1`
/// preference appears in it.
pub proof fn law_non_mp4_leaves_codecs_unrestricted(video_only: bool, container: VideoContainer, max_height: Option<u32>)
    requires
        !(container is Mp4),
    ensures
        !has_substring(spec_format_selector(video_only, container, max_height), "avc1"@),
{
    reveal_strlit("avc1");
    reveal_strlit("bestvideo");
    reveal_strlit("/best");
    reveal_strlit("+bestaudio/best");
    let h = height_filter(max_height);
    lemma_height_filter_avoids(max_height, 'c');
    assert(avoids("bestvideo"@, 'c'));
    assert(avoids("/best"@, 'c'));
    assert(avoids("+bestaudio/best"@, 'c'));
    lemma_avoids_concat("bestvideo"@, h, 'c');
    if video_only {
        lemma_avoids_concat("bestvideo"@ + h, "/best"@, 'c');
        lemma_avoids_concat("bestvideo"@ + h + "/best"@, h, 'c');
    } else {
        lemma_avoids_concat("bestvideo"@ + h, "+bestaudio/best"@, 'c');
        lemma_avoids_concat("bestvideo"@ + h + "+bestaudio/best"@, h, 'c');
    }
    lemma_avoided_char_excludes(spec_format_selector(video_only, container, max_height), "avc1"@, 'c', 2);
}

/// Law: a video-only selector never asks for an audio track.
pub proof fn law_video_only_has_no_audio_track(container: VideoContainer, max_height: Option<u32>)
    ensures
        !has_substring(spec_format_selector(true, container, max_height), "bestaudio"@),
{
    reveal_strlit("bestaudio");
    reveal_strlit("bestvideo");
    reveal_strlit("/best");
    reveal_strlit("[vcodec^=avc1]/bestvideo");
    let h = height_filter(max_height);
    lemma_height_filter_avoids(max_height, 'u');
    assert(avoids("bestvideo"@, 'u'));
    assert(avoids("/best"@, 'u'));
    assert(avoids("[vcodec^=avc1]/bestvideo"@, 'u'));
    lemma_avoids_concat("bestvideo"@, h, 'u');
    if container is Mp4 {
        lemma_avoids_concat("bestvideo"@ + h, "[vcodec^=avc1]/bestvideo"@, 'u');
        lemma_avoids_concat("bestvideo"@ + h + "[vcodec^=avc1]/bestvideo"@, h, 'u');
        lemma_avoids_concat("bestvideo"@ + h + "[vcodec^=avc1]/bestvideo"@ + h, "/best"@, 'u');
        lemma_avoids_concat("bestvideo"@ + h + "[vcodec^=avc1]/bestvideo"@ + h + "/best"@, h, 'u');
    } else {
        lemma_avoids_concat("bestvideo"@ + h, "/best"@, 'u');
        lemma_avoids_concat("bestvideo"@ + h + "/best"@, h, 'u');
    }
    lemma_avoided_char_excludes(spec_format_selector(true, container, max_height), "bestaudio"@, 'u', 5);
}
} // verus!
