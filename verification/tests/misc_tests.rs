use yt_downloader::analysis::{
    analysis_from_raw, available_heights, best_thumbnail, Analysis, RawEntry, RawFormat, RawInfo, RawThumbnail,
};
use yt_downloader::bin::{
    candidates, deps_status, not_found_message, resource_rel_path, tool_status, update_result, version_line,
    BinCache, Platform, ResolveStep, Tool,
};
use yt_downloader::pot::{pot_base_url, pot_info, pot_server_args};
use yt_downloader::runtime::{js_runtime_arg, runtime_env};
use yt_downloader::settings::{
    auto_retry_attempts_of, default_auto_retry_attempts, default_network_retries, network_from_settings, Settings,
};

fn raw() -> RawInfo {
    RawInfo {
        id: None,
        title: None,
        uploader: None,
        channel: None,
        thumbnail: None,
        thumbnails: None,
        webpage_url: None,
        original_url: None,
        kind: None,
        entries: None,
        formats: None,
        is_live: None,
        was_live: None,
    }
}

fn thumb(url: Option<&str>, preference: Option<i64>) -> RawThumbnail {
    RawThumbnail { url: url.map(|s| s.to_string()), preference }
}

fn format(height: Option<u32>, v: Option<&str>, a: Option<&str>) -> RawFormat {
    RawFormat { height, vcodec: v.map(|s| s.to_string()), acodec: a.map(|s| s.to_string()) }
}

fn entry(id: Option<&str>) -> RawEntry {
    RawEntry {
        id: id.map(|s| s.to_string()),
        title: None,
        thumbnail: None,
        thumbnails: None,
        uploader: None,
        channel: None,
        url: None,
        webpage_url: None,
    }
}

#[test]
fn tool_names_and_flags() {
    assert_eq!(Tool::YtDlp.bin_name(), "yt-dlp");
    assert_eq!(Tool::BgutilPot.windows_bin_name(), "bgutil-pot.exe");
    assert_eq!(Tool::Qjs.exe_name(Platform::Windows), "qjs.exe");
    assert_eq!(Tool::Qjs.exe_name(Platform::MacOs), "qjs");
    assert_eq!(Tool::Ffmpeg.version_flag(), "-version");
    assert_eq!(Tool::Ffprobe.version_flag(), "-version");
    assert_eq!(Tool::YtDlp.version_flag(), "--version");
    assert_eq!(resource_rel_path(Tool::Ffmpeg, Platform::Unix), "binaries/ffmpeg");
}

#[test]
fn candidate_order_on_macos() {
    let c = candidates(
        Tool::YtDlp,
        Platform::MacOs,
        Some("/data/bin".into()),
        Some("/app/Resources/binaries/yt-dlp".into()),
        "/src",
    );
    assert_eq!(
        c,
        vec![
            "/data/bin/yt-dlp",
            "/app/Resources/binaries/yt-dlp",
            "/src/binaries/yt-dlp",
            "yt-dlp",
            "/opt/homebrew/bin/yt-dlp",
            "/usr/local/bin/yt-dlp",
            "/usr/bin/yt-dlp",
        ]
    );
    let w = candidates(Tool::Qjs, Platform::Windows, None, None, "/src");
    assert_eq!(w.len(), 2);
    assert_eq!(w[1], "qjs.exe");
    let u = candidates(Tool::Ffmpeg, Platform::Unix, None, None, "/src");
    assert_eq!(u[u.len() - 1], "/snap/bin/ffmpeg");
}

#[test]
fn version_lines() {
    assert_eq!(version_line("2025.01.01\n", ""), "2025.01.01");
    assert_eq!(version_line("", "ffmpeg version 7.1 Copyright\r\nmore"), "ffmpeg version 7.1 Copyright");
    assert_eq!(version_line("", ""), "");
}

#[test]
fn cache_read_after_write() {
    let mut c = BinCache::new();
    assert!(c.get(Tool::Qjs).is_none());
    c.insert(Tool::Qjs, "/a/qjs".into(), "v1".into());
    c.insert(Tool::YtDlp, "/a/yt".into(), "v2".into());
    c.insert(Tool::Qjs, "/b/qjs".into(), "v3".into());
    assert_eq!(c.get(Tool::Qjs), Some(("/b/qjs".to_string(), "v3".to_string())));
    c.remove(Tool::Qjs);
    assert!(c.get(Tool::Qjs).is_none());
    assert_eq!(c.get(Tool::YtDlp), Some(("/a/yt".to_string(), "v2".to_string())));
}

#[test]
fn status_and_readiness() {
    let found = tool_status("yt-dlp", Some(("/app/binaries/yt-dlp".into(), "1".into())), "/app/binaries", "/src");
    assert!(found.found && found.bundled);
    assert_eq!(found.version.as_deref(), Some("1"));
    let not_bundled = tool_status("ffmpeg", Some(("/usr/bin/ffmpeg".into(), "7".into())), "/app/binaries", "/src");
    assert!(!not_bundled.bundled);
    // Components, not characters: "/app/binaries2" is not under "/app/binaries".
    let sibling = tool_status("qjs", Some(("/app/binaries2/qjs".into(), "1".into())), "/app/binaries", "/src");
    assert!(!sibling.bundled);
    let missing = tool_status("bgutil-pot", None, "/app/binaries", "/src");
    assert!(!missing.found && missing.path.is_none());
    let d = deps_status(found.clone(), not_bundled.clone(), not_bundled.clone(), found.clone(), missing.clone());
    assert!(d.all_ready);
    let d2 = deps_status(found.clone(), missing.clone(), not_bundled, found, missing);
    assert!(!d2.all_ready);
    assert_eq!(not_found_message("yt-dlp"), "yt-dlp не найден");
}

#[test]
fn update_results() {
    assert_eq!(update_result(true, "  Updated to 2025\n", "x"), Ok("Updated to 2025".to_string()));
    assert_eq!(update_result(false, "x", "\tERROR: no\n"), Err("ERROR: no".to_string()));
}

#[test]
fn pot_provider_values() {
    assert_eq!(pot_base_url(4416), "http://127.0.0.1:4416");
    assert_eq!(pot_server_args(0), vec!["server", "--host", "127.0.0.1", "--port", "0"]);
    let info = pot_info(65535, "/p".into(), "/c".into());
    assert_eq!(info.base_url, "http://127.0.0.1:65535");
}

#[test]
fn runtime_values() {
    assert_eq!(js_runtime_arg(Some("/opt/qjs")).as_deref(), Some("quickjs:/opt/qjs"));
    assert_eq!(js_runtime_arg(None), None);
    let env = runtime_env(Some("quickjs:/q".into()), Some(pot_info(1, "/d".into(), "/c".into())));
    assert_eq!(env.pot_base_url.as_deref(), Some("http://127.0.0.1:1"));
    assert_eq!(env.pot_plugin_dir.as_deref(), Some("/d"));
    let bare = runtime_env(None, None);
    assert!(bare.pot_cli_path.is_none() && bare.js_runtime_arg.is_none());
}

#[test]
fn settings_defaults() {
    assert_eq!(default_network_retries(), 10);
    assert_eq!(default_auto_retry_attempts(), 2);
    let s = Settings::with_default_dir(Some("/home/u/Downloads".into()));
    assert_eq!(s.download_dir, "/home/u/Downloads/YouTube");
    assert_eq!(s.concurrency, 3);
    assert_eq!(s.theme, "dark");
    assert_eq!(s.locale, "ru");
    assert_eq!(Settings::with_default_dir(None).download_dir, "");
    let n = network_from_settings(None);
    assert_eq!(n.network_retries, 10);
    assert!(n.proxy.is_none());
    let mut custom = s.clone();
    custom.proxy = Some("p".into());
    custom.network_retries = 1;
    custom.auto_retry_attempts = 7;
    let n2 = network_from_settings(Some(&custom));
    assert_eq!(n2.proxy.as_deref(), Some("p"));
    assert_eq!(n2.network_retries, 1);
    assert_eq!(auto_retry_attempts_of(Some(&custom)), 7);
    assert_eq!(auto_retry_attempts_of(None), 2);
    let kept = Settings::stored_or_default(Some(custom), None);
    assert_eq!(kept.auto_retry_attempts, 7);
}

#[test]
fn thumbnails() {
    assert_eq!(best_thumbnail(&Some("d".into()), &Some(vec![thumb(Some("x"), Some(9))])).as_deref(), Some("d"));
    let list = vec![thumb(Some("a"), Some(1)), thumb(Some("b"), Some(5)), thumb(Some("c"), Some(5))];
    assert_eq!(best_thumbnail(&None, &Some(list)).as_deref(), Some("c"));
    let unranked = vec![thumb(Some("a"), None), thumb(Some("b"), None)];
    assert_eq!(best_thumbnail(&None, &Some(unranked)).as_deref(), Some("b"));
    let best_without_url = vec![thumb(None, Some(10)), thumb(Some("last"), Some(1))];
    assert_eq!(best_thumbnail(&None, &Some(best_without_url)).as_deref(), Some("last"));
    assert_eq!(best_thumbnail(&None, &Some(vec![])), None);
    assert_eq!(best_thumbnail(&None, &None), None);
}

#[test]
fn heights_are_distinct_and_descending() {
    let fs = vec![
        format(Some(720), None, None),
        format(None, None, None),
        format(Some(1080), None, None),
        format(Some(720), None, None),
        format(Some(144), None, None),
    ];
    assert_eq!(available_heights(&fs), vec![1080, 720, 144]);
}

#[test]
fn video_analysis() {
    let mut r = raw();
    r.id = Some("abc".into());
    r.channel = Some("chan".into());
    r.original_url = Some("https://orig".into());
    r.was_live = Some(true);
    r.formats = Some(vec![
        format(Some(360), Some("avc1"), Some("mp4a")),
        format(None, Some("none"), Some("opus")),
    ]);
    match analysis_from_raw(&r, "https://asked") {
        Analysis::Video(v) => {
            assert_eq!(v.id, "abc");
            assert_eq!(v.title, "Без названия");
            assert_eq!(v.uploader.as_deref(), Some("chan"));
            assert_eq!(v.webpage_url, "https://orig");
            assert_eq!(v.available_heights, vec![360]);
            assert!(v.has_audio_only);
            assert!(v.is_live);
        },
        Analysis::Playlist(_) => panic!("expected a video"),
    }
    let mut none_audio = raw();
    none_audio.formats = Some(vec![format(None, Some("none"), Some("none")), format(None, Some("none"), None)]);
    match analysis_from_raw(&none_audio, "https://asked") {
        Analysis::Video(v) => {
            assert!(!v.has_audio_only);
            assert_eq!(v.webpage_url, "https://asked");
            assert_eq!(v.id, "");
        },
        Analysis::Playlist(_) => panic!("expected a video"),
    }
}

#[test]
fn playlist_analysis() {
    let mut r = raw();
    r.kind = Some("playlist".into());
    r.title = Some("Mix".into());
    let mut second = entry(Some("v2"));
    second.url = Some("https://e/v2".into());
    second.uploader = Some("up".into());
    r.entries = Some(vec![entry(Some("v1")), entry(None), second]);
    match analysis_from_raw(&r, "https://asked") {
        Analysis::Playlist(p) => {
            assert_eq!(p.title, "Mix");
            assert_eq!(p.entries.len(), 2);
            assert_eq!(p.entries[0].index, 1);
            assert_eq!(p.entries[0].webpage_url, "https://www.youtube.com/watch?v=v1");
            assert_eq!(p.entries[0].title, "Без названия");
            assert_eq!(p.entries[1].index, 3);
            assert_eq!(p.entries[1].webpage_url, "https://e/v2");
            assert_eq!(p.entries[1].uploader.as_deref(), Some("up"));
        },
        Analysis::Video(_) => panic!("expected a playlist"),
    }
    let mut listed = raw();
    listed.entries = Some(vec![]);
    match analysis_from_raw(&listed, "u") {
        Analysis::Playlist(p) => {
            assert_eq!(p.title, "Плейлист");
            assert!(p.entries.is_empty());
        },
        Analysis::Video(_) => panic!("entries make a playlist"),
    }
}

#[test]
fn cache_keeps_a_tool_through_changes_to_others() {
    let mut c = BinCache::new();
    c.insert(Tool::Ffmpeg, "/bin/ffmpeg".into(), "7.1".into());
    c.insert(Tool::YtDlp, "/bin/yt-dlp".into(), "2025.01.01".into());
    c.remove(Tool::YtDlp);
    c.insert(Tool::Qjs, "/bin/qjs".into(), "1".into());
    c.remove(Tool::Qjs);
    assert_eq!(c.get(Tool::Ffmpeg), Some(("/bin/ffmpeg".to_string(), "7.1".to_string())));
}

#[test]
fn whitespace_set_matches_std() {
    for u in 0u32..0x3100 {
        if let Some(c) = char::from_u32(u) {
            let s = c.to_string();
            assert_eq!(yt_downloader::text::trim_str(&s).is_empty(), c.is_whitespace(), "U+{u:04X}");
        }
    }
}

#[test]
fn resolve_checks_candidates_in_order_and_then_uses_the_cache() {
    let mut c = BinCache::new();
    let cands = vec!["/a/yt-dlp".to_string(), "/b/yt-dlp".to_string()];
    assert!(matches!(c.resolve_start(Tool::YtDlp, 2, "yt-dlp"), ResolveStep::Probe(0)));
    assert!(matches!(c.resolve_next(Tool::YtDlp, &cands, 0, None, "yt-dlp"), ResolveStep::Probe(1)));
    match c.resolve_next(Tool::YtDlp, &cands, 1, Some("2025.01.01".into()), "yt-dlp") {
        ResolveStep::Found(p, v) => {
            assert_eq!(p, "/b/yt-dlp");
            assert_eq!(v, "2025.01.01");
        }
        _ => panic!("expected the second candidate"),
    }
    match c.resolve_start(Tool::YtDlp, 2, "yt-dlp") {
        ResolveStep::Found(p, _) => assert_eq!(p, "/b/yt-dlp"),
        _ => panic!("expected the cached location"),
    }
    c.remove(Tool::YtDlp);
    assert!(matches!(c.resolve_start(Tool::YtDlp, 2, "yt-dlp"), ResolveStep::Probe(0)));
}

#[test]
fn resolve_reports_a_tool_found_nowhere() {
    let mut c = BinCache::new();
    match c.resolve_start(Tool::Ffmpeg, 0, "ffmpeg") {
        ResolveStep::Failed(m) => assert_eq!(m, "ffmpeg не найден"),
        _ => panic!("expected failure"),
    }
    let cands = vec!["/x/ffmpeg".to_string()];
    match c.resolve_next(Tool::Ffmpeg, &cands, 0, None, "ffmpeg") {
        ResolveStep::Failed(m) => assert_eq!(m, "ffmpeg не найден"),
        _ => panic!("expected failure"),
    }
}
