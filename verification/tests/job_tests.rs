use yt_downloader::job::{
    attempt_outcome, finish_after_cookie_retry, finish_for, retries_without_cookies, finish_with_error, handle_download_line, handle_postprocess_line, partial_files,
    push_stderr_line, spawn_failed, split_rate_limit, Attempt,
};
use yt_downloader::queue::{JobStatus, KillReason};

#[test]
fn no_limit_stays_unlimited() {
    assert_eq!(split_rate_limit(None, 3), None);
}

#[test]
fn splits_evenly_across_concurrency() {
    assert_eq!(split_rate_limit(Some(3000), 3), Some(1000));
    assert_eq!(split_rate_limit(Some(1000), 1), Some(1000));
}

#[test]
fn rounds_down_but_never_below_one_kbps() {
    assert_eq!(split_rate_limit(Some(2), 5), Some(1));
}

#[test]
fn zero_concurrency_treated_as_one() {
    assert_eq!(split_rate_limit(Some(500), 0), Some(500));
}

// ----------------------------------------------------------------- own tests

#[test]
fn split_rate_limit_edges() {
    assert_eq!(split_rate_limit(Some(0), 4), Some(1));
    assert_eq!(split_rate_limit(Some(1001), 2), Some(500));
    assert_eq!(split_rate_limit(Some(u32::MAX), usize::MAX), Some(1));
    // Law on concrete values: shares never exceed the budget together.
    let share = split_rate_limit(Some(1000), 3).unwrap();
    assert!(share as usize * 3 <= 1000);
}

#[test]
fn download_line_is_parsed_and_remembers_the_file() {
    let mut name = None;
    let p = handle_download_line("[DLPROG]downloading|100|NA|5000|123.5|7|/tmp/a.mp4.part", &mut name).unwrap();
    assert_eq!(p.downloaded_bytes, Some(100));
    assert_eq!(p.total_bytes, Some(5000));
    assert_eq!(p.speed_bytes_per_sec.as_deref(), Some("123.5"));
    assert_eq!(p.eta_seconds, Some(7));
    assert_eq!(name.as_deref(), Some("/tmp/a.mp4.part"));
}

#[test]
fn download_line_without_file_keeps_previous_name() {
    let mut name = Some("old".to_string());
    let p = handle_download_line("[DLPROG]downloading|+5|10|NA|NA|NA|NA", &mut name).unwrap();
    assert_eq!(p.downloaded_bytes, Some(5));
    assert_eq!(p.total_bytes, Some(10));
    assert_eq!(p.eta_seconds, None);
    assert_eq!(name.as_deref(), Some("old"));
    let q = handle_download_line("[DLPROG]x|-1|18446744073709551616|18446744073709551615|s|e|", &mut name).unwrap();
    assert_eq!(q.downloaded_bytes, None);
    assert_eq!(q.total_bytes, Some(u64::MAX));
    assert_eq!(name.as_deref(), Some("old"));
}

#[test]
fn filename_may_contain_separators() {
    let mut name = None;
    handle_download_line("[DLPROG]a|1|2|3|4|5|dir/a|b.mp4", &mut name).unwrap();
    assert_eq!(name.as_deref(), Some("dir/a|b.mp4"));
}

#[test]
fn other_lines_are_ignored() {
    let mut name = Some("keep".to_string());
    assert!(handle_download_line("[download] 5%", &mut name).is_none());
    assert!(handle_download_line("[DLPROG]too|few|fields", &mut name).is_none());
    assert!(handle_postprocess_line("[PPPROG]only-one", &mut name).is_none());
    assert_eq!(name.as_deref(), Some("keep"));
}

#[test]
fn postprocess_lines_map_to_status() {
    let mut name = None;
    assert_eq!(
        handle_postprocess_line("[PPPROG]started|FFmpegMerger|/tmp/v.mp4", &mut name),
        Some(JobStatus::Merging)
    );
    assert_eq!(name.as_deref(), Some("/tmp/v.mp4"));
    assert_eq!(
        handle_postprocess_line("[PPPROG]started|FFmpegExtractAudio|NA", &mut name),
        Some(JobStatus::Converting)
    );
    assert_eq!(name.as_deref(), Some("/tmp/v.mp4"));
}

#[test]
fn stderr_tail_keeps_last_fifty_lines() {
    let mut buf: Vec<String> = Vec::new();
    for i in 0..120 {
        push_stderr_line(&mut buf, format!("line {i}"));
    }
    assert_eq!(buf.len(), 50);
    assert_eq!(buf[0], "line 70");
    assert_eq!(buf[49], "line 119");
}

#[test]
fn outcomes() {
    let tail = vec!["a".to_string(), "b".to_string()];
    assert!(matches!(attempt_outcome(Some(KillReason::Pause), false, &tail), Attempt::Killed(KillReason::Pause)));
    assert!(matches!(attempt_outcome(None, true, &tail), Attempt::Done));
    match attempt_outcome(None, false, &tail) {
        Attempt::Failed(s) => assert_eq!(s, "a\nb"),
        other => panic!("unexpected {other:?}"),
    }
    match spawn_failed("no such file") {
        Attempt::SpawnFailed(m) => assert_eq!(m, "Не удалось запустить yt-dlp: no such file"),
        other => panic!("unexpected {other:?}"),
    }
}

#[test]
fn finishing_a_job() {
    let f = finish_for(Attempt::Killed(KillReason::Cancel), Some("x".into()));
    assert_eq!(f.status, JobStatus::Canceled);
    assert!(f.remove_partial);
    let f = finish_for(Attempt::Killed(KillReason::Pause), None);
    assert_eq!(f.status, JobStatus::Paused);
    assert!(!f.remove_partial);
    let f = finish_for(Attempt::Done, Some("/o.mp4".into()));
    assert_eq!(f.status, JobStatus::Done);
    assert_eq!(f.output_path.as_deref(), Some("/o.mp4"));
    let f = finish_for(Attempt::Failed("ERROR: Video unavailable".into()), None);
    assert_eq!(f.status, JobStatus::Error);
    assert_eq!(f.error.as_deref(), Some("Видео недоступно"));
    assert_eq!(f.error_detail.as_deref(), Some("ERROR: Video unavailable"));
    let f = finish_for(Attempt::SpawnFailed("m".into()), None);
    assert_eq!(f.error.as_deref(), Some("m"));
    assert!(f.error_detail.is_none());
    let f = finish_with_error("yt-dlp не найден".into());
    assert_eq!(f.status, JobStatus::Error);
}

#[test]
fn partial_file_names() {
    assert_eq!(partial_files(&Some("/a/v.mp4".into())), vec!["/a/v.mp4.part", "/a/v.mp4.ytdl", "/a/v.mp4"]);
    assert!(partial_files(&None).is_empty());
}

#[test]
fn only_a_rejected_cookie_run_is_retried() {
    let failed = Attempt::Failed("ERROR: x".into());
    assert!(retries_without_cookies(&failed, true, true));
    assert!(!retries_without_cookies(&failed, false, true));
    assert!(!retries_without_cookies(&failed, true, false));
    assert!(!retries_without_cookies(&Attempt::Done, true, true));
    assert!(!retries_without_cookies(&Attempt::Killed(KillReason::Pause), true, true));
}

#[test]
fn failed_cookie_retry_reports_the_first_error_with_both_tails() {
    let first = "ERROR: Sign in to confirm you're not a bot".to_string();
    let f = finish_after_cookie_retry(first.clone(), Attempt::Failed("ERROR: second".into()), None);
    assert_eq!(f.status, JobStatus::Error);
    assert_eq!(f.error, finish_for(Attempt::Failed(first.clone()), None).error);
    assert_eq!(
        f.error_detail.as_deref(),
        Some("ERROR: Sign in to confirm you're not a bot\n\n--- повтор без cookies ---\nERROR: second")
    );
    assert!(!f.remove_partial);
}

#[test]
fn successful_cookie_retry_ends_as_done() {
    let f = finish_after_cookie_retry("ERROR: a".into(), Attempt::Done, Some("/d/v.mp4".into()));
    assert_eq!(f.status, JobStatus::Done);
    assert_eq!(f.output_path.as_deref(), Some("/d/v.mp4"));
    assert!(f.error.is_none());
}
