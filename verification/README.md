# yt_downloader

The core of a desktop YouTube downloader that drives `yt-dlp`, written in Verus.

`src/` is the verified library:

- `spec` — download requests and the exact yt-dlp argument vector for them;
- `probe` — checking a pasted link (trimming, double-encoding, search-engine
  redirects, YouTube hosts only), user-facing messages for yt-dlp failures,
  and the probing argv;
- `analysis` — turning yt-dlp's description of a link into a video or a playlist;
- `job` — reading yt-dlp's progress lines, the kept stderr tail, and how a job ends;
- `queue` — the download queue as a state machine: scheduling within the
  concurrency limit, pause/cancel/retry/remove, automatic retries, restore
  after restart;
- `bin`, `pot`, `runtime`, `settings` — tool names and lookup order, the
  verified-location cache, readiness, the PO-token provider, settings defaults;
- `text` — character-level helpers (search, trimming, decimal numbers, lines,
  splitting, joining).

Laws of the library are public proof functions named `law_*` next to the
functions they speak of.

`app/` is the Tauri application around it: commands, processes, files, events
and the serde shapes exchanged with the front end.

Retrying a failed download without cookies: the library decides whether a
failed run is retried (`job::retries_without_cookies`) and how the job ends
after the retry (`job::finish_after_cookie_retry`), given whether yt-dlp's error
shows that the site rejected the cookie-bearing client. That judgement itself is
nowhere defined, so the app never makes it and never retries: a download that
fails with cookies is reported as failed, and the usual automatic retries apply.
