//! Checking a pasted link, explaining yt-dlp failures, and the argv used to probe a link.
use vstd::prelude::*;
use vstd::string::*;
use crate::spec::{extend_args, network_args, runtime_args, spec_network_args, spec_runtime_args, NetworkOpts, RuntimeEnv};
use crate::text::{
    contains_str, ends_with_str, first_containing, first_line_containing, has_prefix, has_substring, occurs_at,
    has_suffix, spec_lines, spec_lowercase, spec_trim, starts_with_str, to_chars, to_lowercase, trim_chars,
    string_from_chars, chars_eq_str,
};

verus! {

broadcast use vstd::string::group_string_axioms;

// ------------------------------------------------------------ error messages

/// The message for a yt-dlp failure, given its stderr and the lowercased stderr.
/// Categories are tried in order; unknown failures show the first `ERROR` line.
pub open spec fn spec_classify_error(lower: Seq<char>, stderr: Seq<char>) -> Seq<char> {
    if has_substring(lower, "private video"@) {
        "Это приватное видео — нужен вход в аккаунт"@
    } else if has_substring(lower, "video unavailable"@) {
        "Видео недоступно"@
    } else if has_substring(lower, "this live event"@) {
        "Трансляция ещё не началась"@
    } else if has_substring(lower, "no supported javascript runtime"@) {
        "Не найден JS-рантайм для YouTube — переустановите приложение"@
    } else if has_substring(lower, "confirm you're not a bot"@) || has_substring(lower, "confirm you are not a bot"@) {
        "YouTube требует подтверждения, что вы не бот — включите cookies из браузера в настройках"@
    } else if has_substring(lower, "sign in to confirm your age"@) || (has_substring(lower, "age"@)
        && has_substring(lower, "restrict"@)) {
        "Видео с возрастным ограничением — включите cookies из браузера в настройках"@
    } else if has_substring(lower, "sign in"@) || has_substring(lower, "login_required"@) {
        "Требуется вход в аккаунт YouTube — включите cookies из браузера в настройках"@
    } else if has_substring(lower, "403"@) && has_substring(lower, "forbidden"@) {
        "YouTube отклонил запрос (403) — попробуйте включить cookies или сменить прокси"@
    } else if has_substring(lower, "unable to download webpage"@) || has_substring(lower, "network"@) {
        "Не удалось подключиться к YouTube — проверьте интернет"@
    } else {
        match first_containing(spec_lines(stderr), "ERROR"@) {
            Some(line) => line,
            None => "Не удалось получить информацию о ссылке"@,
        }
    }
}

/// Picks the user-facing message for a failure from its lowercased stderr
/// (`lower`) and the stderr as printed.
pub fn classify_error(lower: &str, stderr: &str) -> (r: String)
    ensures
        r@ == spec_classify_error(lower@, stderr@),
{
    let l = to_chars(lower);
    if contains_str(&l, "private video") {
        String::from_str("Это приватное видео — нужен вход в аккаунт")
    } else if contains_str(&l, "video unavailable") {
        String::from_str("Видео недоступно")
    } else if contains_str(&l, "this live event") {
        String::from_str("Трансляция ещё не началась")
    } else if contains_str(&l, "no supported javascript runtime") {
        String::from_str("Не найден JS-рантайм для YouTube — переустановите приложение")
    } else if contains_str(&l, "confirm you're not a bot") || contains_str(&l, "confirm you are not a bot") {
        String::from_str(
            "YouTube требует подтверждения, что вы не бот — включите cookies из браузера в настройках",
        )
    } else if contains_str(&l, "sign in to confirm your age") || (contains_str(&l, "age")
        && contains_str(&l, "restrict")) {
        String::from_str("Видео с возрастным ограничением — включите cookies из браузера в настройках")
    } else if contains_str(&l, "sign in") || contains_str(&l, "login_required") {
        String::from_str("Требуется вход в аккаунт YouTube — включите cookies из браузера в настройках")
    } else if contains_str(&l, "403") && contains_str(&l, "forbidden") {
        String::from_str("YouTube отклонил запрос (403) — попробуйте включить cookies или сменить прокси")
    } else if contains_str(&l, "unable to download webpage") || contains_str(&l, "network") {
        String::from_str("Не удалось подключиться к YouTube — проверьте интернет")
    } else {
        let s = to_chars(stderr);
        match first_line_containing(&s, "ERROR") {
            Some(line) => line,
            None => String::from_str("Не удалось получить информацию о ссылке"),
        }
    }
}

/// Turns yt-dlp's stderr into a message the user can act on.
pub fn friendly_error(stderr: &str) -> (r: String)
    ensures
        r@ == spec_classify_error(spec_lowercase(stderr@), stderr@),
{
    let lower = to_lowercase(stderr);
    classify_error(lower.as_str(), stderr)
}


// ------------------------------------------------------------------- links

/// The parts of a parsed URL that link checking reads.
#[derive(Clone, Debug)]
pub struct ParsedUrl {
    /// The URL's serialization (`Url::as_str`, also what `to_string` prints).
    pub href: String,
    /// `Url::host_str`.
    pub host: Option<String>,
    /// `Url::query_pairs`, decoded, in order.
    pub query: Vec<(String, String)>,
}

/// Whether `url::Url::parse` accepts `s`.
pub uninterp spec fn spec_url_parses(s: Seq<char>) -> bool;

/// `Url::as_str` of `url::Url::parse(s)`.
pub uninterp spec fn spec_url_href(s: Seq<char>) -> Seq<char>;

/// `Url::host_str` of `url::Url::parse(s)`.
pub uninterp spec fn spec_url_host(s: Seq<char>) -> Option<Seq<char>>;

/// `Url::query_pairs` of `url::Url::parse(s)`.
pub uninterp spec fn spec_url_query(s: Seq<char>) -> Seq<(Seq<char>, Seq<char>)>;

/// What `urlencoding::decode` gives for `s`: its percent-decoding, or `None`
/// when the decoded bytes are not UTF-8.
pub uninterp spec fn spec_percent_decode(s: Seq<char>) -> Option<Seq<char>>;

/// Calls `url::Url::parse` and reads the parsed URL's serialization, host and
/// query pairs. The contract claims only that each part is the named function
/// of the input string; the WHATWG parsing rules themselves are not stated.
#[verifier::external_body]
fn parse_url(s: &str) -> (r: Option<ParsedUrl>)
    ensures
        r is Some <==> spec_url_parses(s@),
        r matches Some(u) ==> u.href@ == spec_url_href(s@) && u.host.deep_view() == spec_url_host(s@)
            && u.query.deep_view() == spec_url_query(s@),
{
    let u = url::Url::parse(s).ok()?;
    Some(ParsedUrl {
        href: u.as_str().to_string(),
        host: u.host_str().map(|h| h.to_string()),
        query: u.query_pairs().map(|(k, v)| (k.into_owned(), v.into_owned())).collect(),
    })
}

/// Calls `urlencoding::decode`; the result is the named decoding of the argument.
#[verifier::external_body]
fn percent_decode(s: &str) -> (r: Option<String>)
    ensures
        r.deep_view() == spec_percent_decode(s@),
{
    urlencoding::decode(s).ok().map(|d| d.into_owned())
}

/// Search engines whose result links are click-tracking redirects.
pub open spec fn is_known_redirector(host: Seq<char>) -> bool {
    has_suffix(host, "google.com"@) || has_suffix(host, "bing.com"@) || has_suffix(host, "duckduckgo.com"@)
}

/// Query keys that carry a redirect's real destination.
pub open spec fn is_redirect_key(k: Seq<char>) -> bool {
    k == "url"@ || k == "q"@ || k == "uddg"@
}

/// The value of the first query pair whose key is a redirect key.
pub open spec fn first_redirect_value(q: Seq<(Seq<char>, Seq<char>)>) -> Option<Seq<char>>
    decreases q.len(),
{
    if q.len() == 0 {
        None
    } else if is_redirect_key(q[0].0) {
        Some(q[0].1)
    } else {
        first_redirect_value(q.drop_first())
    }
}

/// The destination a redirect link carries: only for known redirector hosts.
pub open spec fn spec_redirect_target(host: Option<Seq<char>>, query: Seq<(Seq<char>, Seq<char>)>) -> Option<Seq<char>> {
    match host {
        Some(h) => if is_known_redirector(h) {
            first_redirect_value(query)
        } else {
            None
        },
        None => None,
    }
}

/// The destination hidden in a search engine's click-tracking link, if `u` is one.
pub fn redirect_target(u: &ParsedUrl) -> (r: Option<String>)
    ensures
        r.deep_view() == spec_redirect_target(u.host.deep_view(), u.query.deep_view()),
{
    let host = match &u.host {
        Some(h) => to_chars(h.as_str()),
        None => return None,
    };
    let known = ends_with_str(&host, "google.com") || ends_with_str(&host, "bing.com") || ends_with_str(
        &host,
        "duckduckgo.com",
    );
    if !known {
        return None;
    }
    let ghost q = u.query.deep_view();
    let n = u.query.len();
    let mut i: usize = 0;
    assert(q.subrange(0, n as int) =~= q);
    while i < n
        invariant
            n == u.query@.len(),
            q == u.query.deep_view(),
            spec_redirect_target(u.host.deep_view(), q) == first_redirect_value(q),
            i <= n,
            first_redirect_value(q) == first_redirect_value(q.subrange(i as int, n as int)),
        decreases n - i,
    {
        let key = to_chars(u.query[i].0.as_str());
        assert(q[i as int] == (u.query@[i as int].0@, u.query@[i as int].1@));
        assert(q.subrange(i as int, n as int)[0] == q[i as int]);
        assert(q.subrange(i as int, n as int).drop_first() =~= q.subrange(i + 1, n as int));
        if chars_eq_str(&key, "url") || chars_eq_str(&key, "q") || chars_eq_str(&key, "uddg") {
            let v = u.query[i].1.clone();
            return Some(v);
        }
        i += 1;
    }
    None
}

/// YouTube's own hosts (no look-alike such as `youtube.com.example`).
pub open spec fn spec_is_youtube_host(host: Seq<char>) -> bool {
    host == "youtube.com"@ || has_suffix(host, ".youtube.com"@) || host == "youtu.be"@ || has_suffix(
        host,
        ".youtu.be"@,
    ) || host == "music.youtube.com"@
}

/// Whether `host` is one of YouTube's hosts.
pub fn is_youtube_host(host: &str) -> (r: bool)
    ensures
        r == spec_is_youtube_host(host@),
{
    let h = to_chars(host);
    chars_eq_str(&h, "youtube.com") || ends_with_str(&h, ".youtube.com") || chars_eq_str(&h, "youtu.be")
        || ends_with_str(&h, ".youtu.be") || chars_eq_str(&h, "music.youtube.com")
}

/// Decodes once when percent-encoded query separators (`%3F`, `%3D`, `%26`)
/// show up, as double-encoding copy sources produce; otherwise unchanged.
pub open spec fn spec_decode_if_double_encoded(s: Seq<char>) -> Seq<char> {
    if has_substring(s, "%3F"@) || has_substring(s, "%3D"@) || has_substring(s, "%26"@) {
        match spec_percent_decode(s) {
            Some(d) => d,
            None => s,
        }
    } else {
        s
    }
}

/// Undoes double encoding of query separators; a normal URL passes unchanged.
pub fn decode_if_double_encoded(input: &str) -> (r: String)
    ensures
        r@ == spec_decode_if_double_encoded(input@),
{
    let v = to_chars(input);
    if contains_str(&v, "%3F") || contains_str(&v, "%3D") || contains_str(&v, "%26") {
        match percent_decode(input) {
            Some(d) => d,
            None => String::from_str(input),
        }
    } else {
        String::from_str(input)
    }
}

/// Message for an empty input.
pub open spec fn msg_empty_link() -> Seq<char> {
    "Вставьте ссылку"@
}

/// Message for an input that is not an http(s) URL.
pub open spec fn msg_not_a_link() -> Seq<char> {
    "Это не похоже на ссылку"@
}

/// Message for a URL that does not lead to YouTube.
pub open spec fn msg_not_youtube() -> Seq<char> {
    "Поддерживаются только ссылки YouTube"@
}

/// The input string the URL that counts was parsed from, after unwrapping a
/// redirect (when its target parses) from the normalized input `norm`.
pub open spec fn redirect_source(norm: Seq<char>) -> Seq<char> {
    match spec_redirect_target(spec_url_host(norm), spec_url_query(norm)) {
        Some(t) => if spec_url_parses(t) {
            t
        } else {
            norm
        },
        None => norm,
    }
}

/// As `redirect_source`, then re-parsed from the once-more decoded serialization
/// when that parses.
pub open spec fn effective_source(norm: Seq<char>) -> Seq<char> {
    let first = redirect_source(norm);
    let again = spec_decode_if_double_encoded(spec_url_href(first));
    if spec_url_parses(again) {
        again
    } else {
        first
    }
}

/// The verdict on a URL whose host is `host` and serialization `href`.
pub open spec fn spec_youtube_verdict(host: Option<Seq<char>>, href: Seq<char>) -> Result<Seq<char>, Seq<char>> {
    if host matches Some(h) && spec_is_youtube_host(h) {
        Ok(href)
    } else {
        Err(msg_not_youtube())
    }
}

/// Accepts a parsed URL when its host is YouTube's, giving its serialization.
pub fn youtube_verdict(u: &ParsedUrl) -> (r: Result<String, String>)
    ensures
        r matches Ok(s) ==> spec_youtube_verdict(u.host.deep_view(), u.href@) == Ok::<Seq<char>, Seq<char>>(s@),
        r matches Err(e) ==> spec_youtube_verdict(u.host.deep_view(), u.href@) == Err::<Seq<char>, Seq<char>>(e@),
{
    let is_youtube = match &u.host {
        Some(h) => is_youtube_host(h.as_str()),
        None => false,
    };
    if is_youtube {
        Ok(u.href.clone())
    } else {
        Err(String::from_str("Поддерживаются только ссылки YouTube"))
    }
}

/// What `validate_url` answers for the raw input.
pub open spec fn spec_validate_url(raw: Seq<char>) -> Result<Seq<char>, Seq<char>> {
    let t = spec_trim(raw);
    if t.len() == 0 {
        Err(msg_empty_link())
    } else if !(has_prefix(t, "http://"@) || has_prefix(t, "https://"@)) {
        Err(msg_not_a_link())
    } else {
        let norm = spec_decode_if_double_encoded(t);
        if !spec_url_parses(norm) {
            Err(msg_not_a_link())
        } else {
            let src = effective_source(norm);
            spec_youtube_verdict(spec_url_host(src), spec_url_href(src))
        }
    }
}

/// Checks a pasted link and returns the YouTube URL to work with: trims it,
/// undoes double encoding, unwraps search-engine redirects, and accepts only
/// YouTube hosts.
pub fn validate_url(raw: &str) -> (r: Result<String, String>)
    ensures
        r matches Ok(s) ==> spec_validate_url(raw@) == Ok::<Seq<char>, Seq<char>>(s@),
        r matches Err(e) ==> spec_validate_url(raw@) == Err::<Seq<char>, Seq<char>>(e@),
{
    let rv = to_chars(raw);
    let tv = trim_chars(&rv);
    if tv.len() == 0 {
        return Err(String::from_str("Вставьте ссылку"));
    }
    if !(starts_with_str(&tv, "http://") || starts_with_str(&tv, "https://")) {
        return Err(String::from_str("Это не похоже на ссылку"));
    }
    let trimmed = string_from_chars(&tv);
    let normalized = decode_if_double_encoded(trimmed.as_str());
    let parsed = match parse_url(normalized.as_str()) {
        Some(p) => p,
        None => return Err(String::from_str("Это не похоже на ссылку")),
    };
    let ghost norm = normalized@;
    let mut effective = match redirect_target(&parsed) {
        Some(t) => match parse_url(t.as_str()) {
            Some(p2) => p2,
            None => parsed,
        },
        None => parsed,
    };
    let ghost first = redirect_source(norm);
    assert(effective.href@ == spec_url_href(first) && effective.host.deep_view() == spec_url_host(first)
        && effective.query.deep_view() == spec_url_query(first));
    let again = decode_if_double_encoded(effective.href.as_str());
    match parse_url(again.as_str()) {
        Some(re) => {
            effective = re;
        },
        None => {},
    }
    youtube_verdict(&effective)
}


// ----------------------------------------------------------------- probing

/// The argv that asks yt-dlp for a link's metadata: the same runtime and
/// network flags as a download (YouTube defends both paths alike), the URL last.
pub open spec fn spec_analysis_args(env: RuntimeEnv, net: NetworkOpts, url: Seq<char>) -> Seq<Seq<char>> {
    seq![
        "--dump-single-json"@,
        "--flat-playlist"@,
        "--no-check-certificate"@,
        "--ignore-no-formats-error"@,
    ] + spec_runtime_args(env) + spec_network_args(net) + seq!["--"@, url]
}

/// Builds the metadata-probing argv for `url`.
pub fn analysis_args(env: &RuntimeEnv, net: &NetworkOpts, url: &str) -> (r: Vec<String>)
    ensures
        r.deep_view() == spec_analysis_args(*env, *net, url@),
{
    let mut args: Vec<String> = Vec::new();
    args.push(String::from_str("--dump-single-json"));
    args.push(String::from_str("--flat-playlist"));
    args.push(String::from_str("--no-check-certificate"));
    args.push(String::from_str("--ignore-no-formats-error"));
    assert(args.deep_view() =~= seq![
        "--dump-single-json"@,
        "--flat-playlist"@,
        "--no-check-certificate"@,
        "--ignore-no-formats-error"@,
    ]);
    extend_args(&mut args, runtime_args(env));
    extend_args(&mut args, network_args(net));
    let mut tail: Vec<String> = Vec::new();
    tail.push(String::from_str("--"));
    tail.push(String::from_str(url));
    assert(tail.deep_view() =~= seq!["--"@, url@]);
    extend_args(&mut args, tail);
    args
}


// --------------------------------------------------------------------- laws

/// Law: an accepted link is the serialization of a URL whose host is YouTube's.
pub proof fn law_accepted_links_are_youtube(raw: Seq<char>)
    ensures
        spec_validate_url(raw) matches Ok(s) ==> ({
            let src = effective_source(spec_decode_if_double_encoded(spec_trim(raw)));
            &&& s == spec_url_href(src)
            &&& spec_url_host(src) matches Some(h)
            &&& spec_is_youtube_host(h)
        }),
{
}

/// Law: every host accepted as YouTube's ends with `youtube.com` or `youtu.be`,
/// so a look-alike such as `youtube.com.example` is refused.
pub proof fn law_youtube_hosts_end_with_youtube_domains(host: Seq<char>)
    ensures
        spec_is_youtube_host(host) ==> has_suffix(host, "youtube.com"@) || has_suffix(host, "youtu.be"@),
{
    reveal_strlit("youtube.com");
    reveal_strlit(".youtube.com");
    reveal_strlit("youtu.be");
    reveal_strlit(".youtu.be");
    reveal_strlit("music.youtube.com");
    if host == "youtube.com"@ {
        assert(host.subrange(0, host.len() as int) =~= host);
    } else if has_suffix(host, ".youtube.com"@) {
        let n = host.len() as int;
        assert(".youtube.com"@.subrange(1, 12) =~= "youtube.com"@);
        assert(host.subrange(n - 11, n) =~= host.subrange(n - 12, n).subrange(1, 12));
    } else if host == "youtu.be"@ {
        assert(host.subrange(0, host.len() as int) =~= host);
    } else if has_suffix(host, ".youtu.be"@) {
        let n = host.len() as int;
        assert(".youtu.be"@.subrange(1, 9) =~= "youtu.be"@);
        assert(host.subrange(n - 8, n) =~= host.subrange(n - 9, n).subrange(1, 9));
    } else if host == "music.youtube.com"@ {
        assert("music.youtube.com"@.subrange(6, 17) =~= "youtube.com"@);
    }
}

/// Law: a link in which an encoded query separator (`%3F`, `%3D` or `%26`)
/// appears at some position is decoded once, whenever percent-decoding it
/// succeeds: the link worked on is that decoding.
pub proof fn law_encoded_separators_are_decoded(s: Seq<char>, i: int, d: Seq<char>)
    requires
        0 <= i,
        i + 3 <= s.len(),
        s.subrange(i, i + 3) == "%3F"@ || s.subrange(i, i + 3) == "%3D"@ || s.subrange(i, i + 3) == "%26"@,
        spec_percent_decode(s) == Some(d),
    ensures
        spec_decode_if_double_encoded(s) == d,
{
    if s.subrange(i, i + 3) == "%3F"@ {
        assert(occurs_at(s, "%3F"@, i));
    } else if s.subrange(i, i + 3) == "%3D"@ {
        assert(occurs_at(s, "%3D"@, i));
    } else {
        assert(occurs_at(s, "%26"@, i));
    }
}

/// Law: a link without percent-encoded query separators is not decoded.
pub proof fn law_plain_links_are_not_decoded(s: Seq<char>)
    requires
        !has_substring(s, "%3F"@),
        !has_substring(s, "%3D"@),
        !has_substring(s, "%26"@),
    ensures
        spec_decode_if_double_encoded(s) == s,
{
}

} // verus!
