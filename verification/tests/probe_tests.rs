use yt_downloader::probe::{
    analysis_args, classify_error, decode_if_double_encoded, friendly_error, is_youtube_host, redirect_target,
    validate_url, youtube_verdict, ParsedUrl,
};
use yt_downloader::spec::{NetworkOpts, RuntimeEnv};

#[test]
fn plain_youtube_link_passes_through_unchanged() {
    let url = "https://www.youtube.com/watch?v=bFalsqzMyRs";
    assert_eq!(validate_url(url).unwrap(), url);
}

#[test]
fn google_search_redirect_unwraps_to_real_youtube_url() {
    let wrapped = "https://www.google.com/url?sa=t&source=web&rct=j&opi=89978449&url=https://www.youtube.com/watch%3Fv%3DbFalsqzMyRs&ved=2ahUKEwjXseHH-aGWAxUU9AIHHTXJJowQwqsBegQIHhAB&usg=AOvVaw1yhIpk7mIP-ayba_YHiTaB";
    let result = validate_url(wrapped).unwrap();
    assert_eq!(result, "https://www.youtube.com/watch?v=bFalsqzMyRs");
}

#[test]
fn non_youtube_link_is_rejected_even_when_it_contains_the_word() {
    let sneaky = "https://youtube.com.evil-site.example/watch?v=x";
    assert!(validate_url(sneaky).is_err());
}

#[test]
fn non_redirector_search_link_without_youtube_target_is_rejected() {
    let url = "https://www.google.com/search?q=dying+light";
    assert!(validate_url(url).is_err());
}

#[test]
fn empty_input_reports_friendly_error() {
    assert!(validate_url("   ").is_err());
}

#[test]
fn double_encoded_query_separators_are_decoded() {
    let mangled = "https://www.youtube.com/watch%3Fv%3DbFalsqzMyRs";
    let result = validate_url(mangled).unwrap();
    assert_eq!(result, "https://www.youtube.com/watch?v=bFalsqzMyRs");
}

#[test]
fn double_encoded_playlist_link_keeps_list_param() {
    let mangled = "https://www.youtube.com/playlist%3Flist%3DPLejGw9J2xE9VX0RFX2loRlOzg7fjatGL3";
    let result = validate_url(mangled).unwrap();
    assert_eq!(
        result,
        "https://www.youtube.com/playlist?list=PLejGw9J2xE9VX0RFX2loRlOzg7fjatGL3"
    );
}

#[test]
fn bot_check_is_distinguished_from_age_restriction() {
    let bot = friendly_error("ERROR: [youtube] xyz: Sign in to confirm you're not a bot");
    assert!(bot.contains("бот"), "expected bot-check message, got: {bot}");

    let age = friendly_error("ERROR: [youtube] xyz: Sign in to confirm your age");
    assert!(age.contains("возраст"), "expected age-restriction message, got: {age}");
    assert!(!age.contains("бот"));
}

#[test]
fn message_containing_age_as_a_substring_is_not_misclassified() {
    let msg = friendly_error("ERROR: [youtube] xyz: Unsupported URL, this is not a valid webpage");
    assert!(!msg.contains("возраст"));
}

#[test]
fn missing_js_runtime_gets_its_own_message() {
    let msg = friendly_error("WARNING: No supported JavaScript runtime could be found");
    assert!(msg.contains("JS-рантайм"), "got: {msg}");
}

#[test]
fn plain_403_forbidden_gets_actionable_hint() {
    let msg = friendly_error("ERROR: unable to download video data: HTTP Error 403: Forbidden");
    assert!(msg.contains("403"), "got: {msg}");
}

// ----------------------------------------------------------------- own tests

#[test]
fn validate_url_error_messages() {
    assert_eq!(validate_url("").unwrap_err(), "Вставьте ссылку");
    assert_eq!(validate_url(" \t\n").unwrap_err(), "Вставьте ссылку");
    assert_eq!(validate_url("youtube.com/watch?v=x").unwrap_err(), "Это не похоже на ссылку");
    assert_eq!(validate_url("https://").unwrap_err(), "Это не похоже на ссылку");
    assert_eq!(
        validate_url("https://youtube.com.evil-site.example/watch?v=x").unwrap_err(),
        "Поддерживаются только ссылки YouTube"
    );
}

#[test]
fn validate_url_trims_surrounding_whitespace() {
    assert_eq!(
        validate_url("  https://youtu.be/abc \n").unwrap(),
        "https://youtu.be/abc"
    );
}

#[test]
fn validate_url_accepts_youtube_subdomains_and_music() {
    assert!(validate_url("https://m.youtube.com/watch?v=1").is_ok());
    assert!(validate_url("https://music.youtube.com/watch?v=1").is_ok());
    assert!(validate_url("http://youtube.com/watch?v=1").is_ok());
    assert!(validate_url("https://notyoutube.com/watch?v=1").is_err());
}

#[test]
fn bing_and_duckduckgo_redirects_are_unwrapped() {
    assert_eq!(
        validate_url("https://www.bing.com/ck/a?q=https%3A%2F%2Fyoutu.be%2Fxyz").unwrap(),
        "https://youtu.be/xyz"
    );
    assert_eq!(
        validate_url("https://duckduckgo.com/l/?uddg=https%3A%2F%2Fwww.youtube.com%2Fwatch%3Fv%3Dq").unwrap(),
        "https://www.youtube.com/watch?v=q"
    );
}

#[test]
fn redirect_target_takes_first_redirect_key_on_known_hosts_only() {
    let u = ParsedUrl {
        href: "https://www.google.com/url?a=1&q=first&url=second".into(),
        host: Some("www.google.com".into()),
        query: vec![
            ("a".into(), "1".into()),
            ("q".into(), "first".into()),
            ("url".into(), "second".into()),
        ],
    };
    assert_eq!(redirect_target(&u).as_deref(), Some("first"));
    let other = ParsedUrl { host: Some("example.com".into()), ..u.clone() };
    assert_eq!(redirect_target(&other), None);
    let no_host = ParsedUrl { host: None, ..u };
    assert_eq!(redirect_target(&no_host), None);
}

#[test]
fn youtube_verdict_on_parsed_urls() {
    let ok = ParsedUrl { href: "https://youtu.be/a".into(), host: Some("youtu.be".into()), query: vec![] };
    assert_eq!(youtube_verdict(&ok).unwrap(), "https://youtu.be/a");
    let bad = ParsedUrl { href: "https://x.org/".into(), host: Some("x.org".into()), query: vec![] };
    assert!(youtube_verdict(&bad).is_err());
}

#[test]
fn youtube_hosts() {
    assert!(is_youtube_host("youtube.com"));
    assert!(is_youtube_host("www.youtube.com"));
    assert!(is_youtube_host("youtu.be"));
    assert!(is_youtube_host("music.youtube.com"));
    assert!(!is_youtube_host("youtube.com.evil.example"));
    assert!(!is_youtube_host("fakeyoutube.com"));
}

#[test]
fn decode_only_when_separators_are_encoded() {
    assert_eq!(decode_if_double_encoded("https://a/b%20c"), "https://a/b%20c");
    assert_eq!(decode_if_double_encoded("https://a/w%3Fv%3D1%20x"), "https://a/w?v=1 x");
    // Decoded bytes that are not UTF-8 leave the input as it was.
    assert_eq!(decode_if_double_encoded("https://a/%FF%3F"), "https://a/%FF%3F");
}

#[test]
fn friendly_error_categories() {
    assert_eq!(friendly_error("ERROR: Private video. Sign in"), "Это приватное видео — нужен вход в аккаунт");
    assert_eq!(friendly_error("ERROR: VIDEO UNAVAILABLE"), "Видео недоступно");
    assert_eq!(friendly_error("This live event will begin"), "Трансляция ещё не началась");
    assert_eq!(
        friendly_error("age-restricted content"),
        "Видео с возрастным ограничением — включите cookies из браузера в настройках"
    );
    assert_eq!(
        friendly_error("ERROR: login_required"),
        "Требуется вход в аккаунт YouTube — включите cookies из браузера в настройках"
    );
    assert_eq!(
        friendly_error("ERROR: Unable to download webpage: timed out"),
        "Не удалось подключиться к YouTube — проверьте интернет"
    );
}

#[test]
fn unknown_failure_shows_first_error_line() {
    let stderr = "WARNING: something\r\nERROR: [generic] boom\r\nERROR: second\n";
    assert_eq!(friendly_error(stderr), "ERROR: [generic] boom");
    assert_eq!(friendly_error("nothing useful\nhere"), "Не удалось получить информацию о ссылке");
    assert_eq!(friendly_error(""), "Не удалось получить информацию о ссылке");
    assert_eq!(friendly_error("xx ERROR\r"), "xx ERROR\r");
}

#[test]
fn classify_error_uses_the_lowercased_text_for_categories() {
    // Categories come from the lowercased text; the fallback line comes from stderr as printed.
    assert_eq!(classify_error("video unavailable", "VIDEO UNAVAILABLE"), "Видео недоступно");
    assert_eq!(classify_error("", "ERROR: Raw"), "ERROR: Raw");
}

#[test]
fn analysis_args_are_exact() {
    let env = RuntimeEnv::default();
    let net = NetworkOpts { proxy: None, cookies_from_browser: None, cookies_file: None, network_retries: 10 };
    assert_eq!(
        analysis_args(&env, &net, "https://youtu.be/a"),
        vec![
            "--dump-single-json",
            "--flat-playlist",
            "--no-check-certificate",
            "--ignore-no-formats-error",
            "--retries",
            "10",
            "--fragment-retries",
            "10",
            "--",
            "https://youtu.be/a",
        ]
    );
}

#[test]
fn unicode_whitespace_only_input_is_an_empty_link() {
    assert_eq!(validate_url(" \u{3000}\u{a0}\t"), Err("Вставьте ссылку".to_string()));
}
