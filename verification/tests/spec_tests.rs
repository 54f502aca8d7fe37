use yt_downloader::spec::{
    network_args, runtime_args, to_argv, AudioFormat, AudioQuality, DownloadSpec, Extras, Mode, NetworkOpts,
    RuntimeEnv, SubtitleOptions, VideoContainer,
};

fn base_spec() -> DownloadSpec {
    DownloadSpec {
        mode: Mode::Video,
        max_height: Some(1080),
        container: VideoContainer::Mp4,
        video_only: false,
        audio_format: AudioFormat::Mp3,
        audio_quality: AudioQuality::Best,
        extras: Extras::default(),
        output_dir: "/tmp/out".into(),
        filename_template: "%(title)s.%(ext)s".into(),
        rate_limit_kbps: None,
        proxy: None,
        cookies_from_browser: None,
        cookies_file: None,
        download_archive_path: None,
        ffmpeg_dir: None,
        network_retries: 10,
    }
}

#[test]
fn video_1080_mp4_prefers_avc1_for_quicktime_compat_and_merges() {
    let spec = base_spec();
    let argv = to_argv(&spec, "https://www.youtube.com/watch?v=abc", &RuntimeEnv::default());
    assert!(argv.contains(&"-f".to_string()));
    let f_index = argv.iter().position(|a| a == "-f").unwrap();
    assert_eq!(
        argv[f_index + 1],
        "bestvideo[height<=1080][vcodec^=avc1]+bestaudio[acodec^=mp4a]/bestvideo[height<=1080]+bestaudio/best[height<=1080]"
    );
    assert!(argv.contains(&"--merge-output-format".to_string()));
    assert!(argv.contains(&"mp4".to_string()));
    assert!(!argv.contains(&"-x".to_string()));
}

#[test]
fn video_best_quality_omits_height_filter() {
    let mut spec = base_spec();
    spec.max_height = None;
    let argv = to_argv(&spec, "https://www.youtube.com/watch?v=abc", &RuntimeEnv::default());
    let f_index = argv.iter().position(|a| a == "-f").unwrap();
    assert_eq!(
        argv[f_index + 1],
        "bestvideo[vcodec^=avc1]+bestaudio[acodec^=mp4a]/bestvideo+bestaudio/best"
    );
}

#[test]
fn video_only_strips_audio_track_from_selector() {
    let mut spec = base_spec();
    spec.video_only = true;
    let argv = to_argv(&spec, "https://www.youtube.com/watch?v=abc", &RuntimeEnv::default());
    let f_index = argv.iter().position(|a| a == "-f").unwrap();
    assert_eq!(
        argv[f_index + 1],
        "bestvideo[height<=1080][vcodec^=avc1]/bestvideo[height<=1080]/best[height<=1080]"
    );
    assert!(!argv[f_index + 1].contains("bestaudio"));
}

#[test]
fn mkv_container_does_not_restrict_codec() {
    let mut spec = base_spec();
    spec.container = VideoContainer::Mkv;
    let argv = to_argv(&spec, "https://www.youtube.com/watch?v=abc", &RuntimeEnv::default());
    let f_index = argv.iter().position(|a| a == "-f").unwrap();
    assert_eq!(argv[f_index + 1], "bestvideo[height<=1080]+bestaudio/best[height<=1080]");
    assert!(!argv[f_index + 1].contains("avc1"));
}

#[test]
fn audio_mp3_best_sets_extract_flags_not_video_flags() {
    let mut spec = base_spec();
    spec.mode = Mode::Audio;
    spec.audio_format = AudioFormat::Mp3;
    spec.audio_quality = AudioQuality::Kbps(320);
    let argv = to_argv(&spec, "https://www.youtube.com/watch?v=abc", &RuntimeEnv::default());
    assert!(argv.contains(&"-x".to_string()));
    assert!(!argv.contains(&"-f".to_string()));
    assert!(!argv.contains(&"--merge-output-format".to_string()));
    let fmt_index = argv.iter().position(|a| a == "--audio-format").unwrap();
    assert_eq!(argv[fmt_index + 1], "mp3");
    let q_index = argv.iter().position(|a| a == "--audio-quality").unwrap();
    assert_eq!(argv[q_index + 1], "320K");
}

#[test]
fn extras_add_expected_flags() {
    let mut spec = base_spec();
    spec.extras.embed_thumbnail = true;
    spec.extras.embed_metadata = true;
    spec.extras.embed_chapters = true;
    spec.extras.write_info_json = true;
    spec.extras.sponsorblock = true;
    spec.extras.subtitles = SubtitleOptions {
        enabled: true,
        langs: vec!["ru".into(), "en".into()],
        auto: true,
        embed: true,
    };
    let argv = to_argv(&spec, "https://www.youtube.com/watch?v=abc", &RuntimeEnv::default());
    for flag in [
        "--embed-thumbnail",
        "--embed-metadata",
        "--embed-chapters",
        "--write-info-json",
        "--sponsorblock-remove",
        "--write-subs",
        "--write-auto-subs",
        "--sub-langs",
        "--embed-subs",
    ] {
        assert!(argv.contains(&flag.to_string()), "missing {flag}");
    }
    let langs_index = argv.iter().position(|a| a == "--sub-langs").unwrap();
    assert_eq!(argv[langs_index + 1], "ru,en");
}

#[test]
fn subtitles_disabled_omits_all_subtitle_flags() {
    let spec = base_spec();
    let argv = to_argv(&spec, "https://www.youtube.com/watch?v=abc", &RuntimeEnv::default());
    assert!(!argv.iter().any(|a| a.contains("subs")));
}

#[test]
fn optional_network_and_archive_flags_only_when_set() {
    let mut spec = base_spec();
    spec.rate_limit_kbps = Some(500);
    spec.proxy = Some("socks5://127.0.0.1:1080".into());
    spec.cookies_from_browser = Some("chrome".into());
    spec.download_archive_path = Some("/tmp/archive.txt".into());
    spec.ffmpeg_dir = Some("/opt/homebrew/bin".into());
    let argv = to_argv(&spec, "https://www.youtube.com/watch?v=abc", &RuntimeEnv::default());
    assert!(argv.windows(2).any(|w| w[0] == "--limit-rate" && w[1] == "500K"));
    assert!(argv
        .windows(2)
        .any(|w| w[0] == "--proxy" && w[1] == "socks5://127.0.0.1:1080"));
    assert!(argv.windows(2).any(|w| w[0] == "--cookies-from-browser" && w[1] == "chrome"));
    assert!(argv
        .windows(2)
        .any(|w| w[0] == "--download-archive" && w[1] == "/tmp/archive.txt"));
    assert!(argv
        .windows(2)
        .any(|w| w[0] == "--ffmpeg-location" && w[1] == "/opt/homebrew/bin"));
}

#[test]
fn url_is_last_and_separated_by_double_dash() {
    let spec = base_spec();
    let argv = to_argv(&spec, "https://www.youtube.com/watch?v=abc", &RuntimeEnv::default());
    assert_eq!(argv[argv.len() - 1], "https://www.youtube.com/watch?v=abc");
    assert_eq!(argv[argv.len() - 2], "--");
}

#[test]
fn network_retries_apply_to_both_retries_flags() {
    let mut spec = base_spec();
    spec.network_retries = 25;
    let argv = to_argv(&spec, "https://www.youtube.com/watch?v=abc", &RuntimeEnv::default());
    assert!(argv.windows(2).any(|w| w[0] == "--retries" && w[1] == "25"));
    assert!(argv.windows(2).any(|w| w[0] == "--fragment-retries" && w[1] == "25"));
}

#[test]
fn does_not_hardcode_a_player_client_selection() {
    let spec = base_spec();
    let argv = to_argv(&spec, "https://www.youtube.com/watch?v=abc", &RuntimeEnv::default());
    assert!(!argv.iter().any(|a| a.starts_with("youtube:player_client")));
}

#[test]
fn js_runtime_and_pot_args_appear_when_env_resolved() {
    let spec = base_spec();
    let env = RuntimeEnv {
        js_runtime_arg: Some("quickjs:/opt/qjs".into()),
        pot_plugin_dir: Some("/opt/pot-plugin".into()),
        pot_base_url: Some("http://127.0.0.1:4416".into()),
        pot_cli_path: Some("/opt/bgutil-pot".into()),
    };
    let argv = to_argv(&spec, "https://www.youtube.com/watch?v=abc", &env);
    assert!(argv.windows(2).any(|w| w[0] == "--js-runtimes" && w[1] == "quickjs:/opt/qjs"));
    assert!(argv.windows(2).any(|w| w[0] == "--plugin-dirs" && w[1] == "/opt/pot-plugin"));
    assert!(argv.windows(2).any(|w| w[0] == "--extractor-args"
        && w[1] == "youtubepot-bgutilhttp:base_url=http://127.0.0.1:4416"));
    assert!(argv.windows(2).any(|w| w[0] == "--extractor-args"
        && w[1] == "youtubepot-bgutilcli:cli_path=/opt/bgutil-pot"));
}

#[test]
fn unresolved_runtime_env_omits_runtime_and_pot_flags() {
    let spec = base_spec();
    let argv = to_argv(&spec, "https://www.youtube.com/watch?v=abc", &RuntimeEnv::default());
    assert!(!argv.contains(&"--js-runtimes".to_string()));
    assert!(!argv.contains(&"--plugin-dirs".to_string()));
    assert!(!argv.iter().any(|a| a.starts_with("youtubepot-")));
}

#[test]
fn cookies_file_wins_over_cookies_from_browser() {
    let net = NetworkOpts {
        proxy: None,
        cookies_from_browser: Some("chrome".into()),
        cookies_file: Some("/tmp/cookies.txt".into()),
        network_retries: 10,
    };
    let args = network_args(&net);
    assert!(args.windows(2).any(|w| w[0] == "--cookies" && w[1] == "/tmp/cookies.txt"));
    assert!(!args.contains(&"--cookies-from-browser".to_string()));
}

#[test]
fn cookies_from_browser_used_when_no_file_set() {
    let net = NetworkOpts {
        proxy: None,
        cookies_from_browser: Some("chrome".into()),
        cookies_file: None,
        network_retries: 10,
    };
    let args = network_args(&net);
    assert!(args.windows(2).any(|w| w[0] == "--cookies-from-browser" && w[1] == "chrome"));
    assert!(!args.contains(&"--cookies".to_string()));
}

// ----------------------------------------------------------------- own tests

#[test]
fn full_argv_for_base_spec_is_exact() {
    let spec = base_spec();
    let argv = to_argv(&spec, "https://www.youtube.com/watch?v=abc", &RuntimeEnv::default());
    let expected: Vec<&str> = vec![
        "--newline",
        "--no-playlist",
        "--continue",
        "--progress-template",
        "download:[DLPROG]%(progress.status)s|%(progress.downloaded_bytes)s|%(progress.total_bytes)s|%(progress.total_bytes_estimate)s|%(progress.speed)s|%(progress.eta)s|%(info.filename)s",
        "--progress-template",
        "postprocess:[PPPROG]%(progress.status)s|%(postprocessor)s|%(info.filename)s",
        "-f",
        "bestvideo[height<=1080][vcodec^=avc1]+bestaudio[acodec^=mp4a]/bestvideo[height<=1080]+bestaudio/best[height<=1080]",
        "--merge-output-format",
        "mp4",
        "--paths",
        "/tmp/out",
        "-o",
        "%(title)s.%(ext)s",
        "--retries",
        "10",
        "--fragment-retries",
        "10",
        "--",
        "https://www.youtube.com/watch?v=abc",
    ];
    assert_eq!(argv, expected);
}

#[test]
fn webm_video_only_without_height() {
    let mut spec = base_spec();
    spec.container = VideoContainer::Webm;
    spec.video_only = true;
    spec.max_height = None;
    let argv = to_argv(&spec, "u", &RuntimeEnv::default());
    let f_index = argv.iter().position(|a| a == "-f").unwrap();
    assert_eq!(argv[f_index + 1], "bestvideo/best");
    assert_eq!(argv[f_index + 3], "webm");
}

#[test]
fn audio_best_quality_is_zero_and_formats_are_named() {
    let mut spec = base_spec();
    spec.mode = Mode::Audio;
    for (fmt, name) in [
        (AudioFormat::Mp3, "mp3"),
        (AudioFormat::M4a, "m4a"),
        (AudioFormat::Opus, "opus"),
        (AudioFormat::Flac, "flac"),
        (AudioFormat::Wav, "wav"),
    ] {
        spec.audio_format = fmt;
        let argv = to_argv(&spec, "u", &RuntimeEnv::default());
        assert!(argv.windows(2).any(|w| w[0] == "--audio-format" && w[1] == name));
        assert!(argv.windows(2).any(|w| w[0] == "--audio-quality" && w[1] == "0"));
    }
}

#[test]
fn empty_optional_strings_are_skipped() {
    let mut spec = base_spec();
    spec.proxy = Some(String::new());
    spec.cookies_file = Some(String::new());
    spec.cookies_from_browser = Some("firefox".into());
    spec.download_archive_path = Some(String::new());
    spec.ffmpeg_dir = Some(String::new());
    let argv = to_argv(&spec, "u", &RuntimeEnv::default());
    assert!(!argv.contains(&"--proxy".to_string()));
    assert!(!argv.contains(&"--cookies".to_string()));
    assert!(argv.windows(2).any(|w| w[0] == "--cookies-from-browser" && w[1] == "firefox"));
    assert!(!argv.contains(&"--download-archive".to_string()));
    assert!(!argv.contains(&"--ffmpeg-location".to_string()));
}

#[test]
fn subtitles_enabled_without_languages_adds_nothing() {
    let mut spec = base_spec();
    spec.extras.subtitles = SubtitleOptions { enabled: true, langs: vec![], auto: true, embed: true };
    let argv = to_argv(&spec, "u", &RuntimeEnv::default());
    assert!(!argv.iter().any(|a| a.contains("subs")));
}

#[test]
fn runtime_args_in_order() {
    let env = RuntimeEnv {
        js_runtime_arg: Some("quickjs:/q".into()),
        pot_plugin_dir: None,
        pot_base_url: Some("http://127.0.0.1:1".into()),
        pot_cli_path: None,
    };
    assert_eq!(
        runtime_args(&env),
        vec!["--js-runtimes", "quickjs:/q", "--extractor-args", "youtubepot-bgutilhttp:base_url=http://127.0.0.1:1"]
    );
}

#[test]
fn network_args_exact_with_proxy_and_zero_retries() {
    let net = NetworkOpts {
        proxy: Some("http://p:1".into()),
        cookies_from_browser: None,
        cookies_file: None,
        network_retries: 0,
    };
    assert_eq!(network_args(&net), vec!["--retries", "0", "--fragment-retries", "0", "--proxy", "http://p:1"]);
}

#[test]
fn large_numbers_are_printed_in_full() {
    let mut spec = base_spec();
    spec.network_retries = u32::MAX;
    spec.rate_limit_kbps = Some(1234567);
    spec.max_height = Some(2160);
    let argv = to_argv(&spec, "u", &RuntimeEnv::default());
    assert!(argv.windows(2).any(|w| w[0] == "--retries" && w[1] == "4294967295"));
    assert!(argv.windows(2).any(|w| w[0] == "--limit-rate" && w[1] == "1234567K"));
    assert!(argv.iter().any(|a| a.contains("[height<=2160]")));
}

#[test]
fn spec_network_opts_carries_network_fields() {
    let mut spec = base_spec();
    spec.proxy = Some("p".into());
    spec.cookies_file = Some("c".into());
    spec.network_retries = 3;
    let n = spec.network_opts();
    assert_eq!(n.proxy.as_deref(), Some("p"));
    assert_eq!(n.cookies_file.as_deref(), Some("c"));
    assert_eq!(n.cookies_from_browser, None);
    assert_eq!(n.network_retries, 3);
}

#[test]
fn container_and_format_names() {
    assert_eq!(VideoContainer::Mkv.as_str(), "mkv");
    assert_eq!(AudioFormat::Flac.as_str(), "flac");
}
