//! One download's life: reading yt-dlp's progress lines, keeping its stderr
//! tail, and deciding how the job ends.
use vstd::prelude::*;
use vstd::string::*;
use crate::probe::{friendly_error, spec_classify_error};
use crate::queue::{JobProgress, JobStatus, KillReason};
use crate::text::{
    concat, copy_range, has_prefix, has_substring, join, join_with, parse_u64, spec_lowercase, spec_parse_u64,
    split_n, splitn, starts_with_str, string_from_chars, to_chars, to_lowercase, contains_str, chars_eq_str,
};

verus! {

broadcast use vstd::string::group_string_axioms;

/// Per-download share of a total bandwidth budget: `total / max(concurrency, 1)`,
/// never below 1 KB/s; no budget stays no budget.
pub open spec fn spec_split_rate_limit(total_kbps: Option<u32>, concurrency: usize) -> Option<u32> {
    match total_kbps {
        None => None,
        Some(total) => {
            let slots: int = if concurrency == 0 { 1 } else { concurrency as int };
            let share: int = total as int / slots;
            Some((if share < 1 { 1 } else { share }) as u32)
        },
    }
}

/// Divides a total bandwidth budget evenly across concurrent download slots.
pub fn split_rate_limit(total_kbps: Option<u32>, concurrency: usize) -> (r: Option<u32>)
    ensures
        r == spec_split_rate_limit(total_kbps, concurrency),
{
    match total_kbps {
        None => None,
        Some(total) => {
            let slots: u64 = if concurrency == 0 { 1 } else { concurrency as u64 };
            let share: u64 = total as u64 / slots;
            Some(if share < 1 { 1 } else { share as u32 })
        },
    }
}


// ----------------------------------------------------------- progress lines

/// A filename field that names a file (yt-dlp prints `NA` when it has none).
pub open spec fn names_file(x: Seq<char>) -> bool {
    x.len() > 0 && x != "NA"@
}

/// The seven `|`-separated fields of a `[DLPROG]` line: status, downloaded,
/// total, estimated total, speed, eta, filename.
pub open spec fn download_fields(line: Seq<char>) -> Option<Seq<Seq<char>>> {
    if has_prefix(line, "[DLPROG]"@) {
        let p = splitn(line.skip("[DLPROG]"@.len() as int), 7, '|');
        if p.len() == 7 {
            Some(p)
        } else {
            None
        }
    } else {
        None
    }
}

/// The three `|`-separated fields of a `[PPPROG]` line: status, postprocessor, filename.
pub open spec fn postprocess_fields(line: Seq<char>) -> Option<Seq<Seq<char>>> {
    if has_prefix(line, "[PPPROG]"@) {
        let p = splitn(line.skip("[PPPROG]"@.len() as int), 3, '|');
        if p.len() == 3 {
            Some(p)
        } else {
            None
        }
    } else {
        None
    }
}

/// Progress read from the fields of a `[DLPROG]` line: the total falls back to
/// the estimate, and the speed is kept as printed.
pub open spec fn progress_from_fields(g: JobProgress, p: Seq<Seq<char>>) -> bool {
    &&& g.downloaded_bytes == spec_parse_u64(p[1])
    &&& g.total_bytes == (if spec_parse_u64(p[2]) is Some {
        spec_parse_u64(p[2])
    } else {
        spec_parse_u64(p[3])
    })
    &&& g.speed_bytes_per_sec.deep_view() == Some(p[4])
    &&& g.eta_seconds == spec_parse_u64(p[5])
}

/// The current filename after a line whose filename field is `field`.
pub open spec fn filename_after(before: Option<String>, after: Option<String>, field: Seq<char>) -> bool {
    if names_file(field) {
        after.deep_view() == Some(field)
    } else {
        after == before
    }
}

fn strip_and_split(line: &str, prefix: &str, n: usize) -> (r: Option<Vec<Vec<char>>>)
    requires
        n >= 1,
    ensures
        r matches Some(p) ==> has_prefix(line@, prefix@) && p.deep_view() == splitn(
            line@.skip(prefix@.len() as int),
            n as nat,
            '|',
        ) && p@.len() == n,
        r is None ==> !has_prefix(line@, prefix@) || splitn(
            line@.skip(prefix@.len() as int),
            n as nat,
            '|',
        ).len() != n,
{
    let lv = to_chars(line);
    if !starts_with_str(&lv, prefix) {
        return None;
    }
    let plen = to_chars(prefix).len();
    let rest = copy_range(&lv, plen, lv.len());
    assert(rest@ =~= line@.skip(prefix@.len() as int));
    let parts = split_n(&rest, n, '|');
    if parts.len() != n {
        return None;
    }
    Some(parts)
}

fn parse_field(f: &Vec<char>) -> (r: Option<u64>)
    ensures
        r == spec_parse_u64(f.deep_view()),
{
    assert(f.deep_view() =~= f@);
    parse_u64(f)
}

/// Reads a `[DLPROG]` progress line; other lines give `None`. A named file in
/// the line becomes the job's current filename.
pub fn handle_download_line(line: &str, current_filename: &mut Option<String>) -> (r: Option<JobProgress>)
    ensures
        match download_fields(line@) {
            None => r is None && *final(current_filename) == *old(current_filename),
            Some(p) => r matches Some(g) && progress_from_fields(g, p) && filename_after(
                *old(current_filename),
                *final(current_filename),
                p[6],
            ),
        },
{
    let parts = match strip_and_split(line, "[DLPROG]", 7) {
        Some(p) => p,
        None => return None,
    };
    let ghost p = parts.deep_view();
    assert(p[1] == parts@[1]@ && p[2] == parts@[2]@ && p[3] == parts@[3]@ && p[4] == parts@[4]@
        && p[5] == parts@[5]@ && p[6] == parts@[6]@) by {
        assert(parts@[1].deep_view() =~= parts@[1]@);
        assert(parts@[2].deep_view() =~= parts@[2]@);
        assert(parts@[3].deep_view() =~= parts@[3]@);
        assert(parts@[4].deep_view() =~= parts@[4]@);
        assert(parts@[5].deep_view() =~= parts@[5]@);
        assert(parts@[6].deep_view() =~= parts@[6]@);
    }
    let downloaded_bytes = parse_u64(&parts[1]);
    let total_bytes = match parse_u64(&parts[2]) {
        Some(t) => Some(t),
        None => parse_u64(&parts[3]),
    };
    let speed = string_from_chars(&parts[4]);
    let eta_seconds = parse_u64(&parts[5]);
    if parts[6].len() > 0 && !chars_eq_str(&parts[6], "NA") {
        *current_filename = Some(string_from_chars(&parts[6]));
    }
    Some(JobProgress { downloaded_bytes, total_bytes, speed_bytes_per_sec: Some(speed), eta_seconds })
}

/// The status a postprocessor name means: merging streams, or converting.
pub open spec fn postprocess_status(postprocessor: Seq<char>) -> JobStatus {
    if has_substring(spec_lowercase(postprocessor), "merg"@) {
        JobStatus::Merging
    } else {
        JobStatus::Converting
    }
}

/// Reads a `[PPPROG]` post-processing line into the job's status; other lines
/// give `None`. A named file in the line becomes the job's current filename.
pub fn handle_postprocess_line(line: &str, current_filename: &mut Option<String>) -> (r: Option<JobStatus>)
    ensures
        match postprocess_fields(line@) {
            None => r is None && *final(current_filename) == *old(current_filename),
            Some(p) => r == Some(postprocess_status(p[1])) && filename_after(
                *old(current_filename),
                *final(current_filename),
                p[2],
            ),
        },
{
    let parts = match strip_and_split(line, "[PPPROG]", 3) {
        Some(p) => p,
        None => return None,
    };
    let ghost p = parts.deep_view();
    assert(p[1] == parts@[1]@ && p[2] == parts@[2]@) by {
        assert(parts@[1].deep_view() =~= parts@[1]@);
        assert(parts@[2].deep_view() =~= parts@[2]@);
    }
    if parts[2].len() > 0 && !chars_eq_str(&parts[2], "NA") {
        *current_filename = Some(string_from_chars(&parts[2]));
    }
    let name = string_from_chars(&parts[1]);
    let lower = to_lowercase(name.as_str());
    let lv = to_chars(lower.as_str());
    if contains_str(&lv, "merg") {
        Some(JobStatus::Merging)
    } else {
        Some(JobStatus::Converting)
    }
}

// -------------------------------------------------------------- stderr tail

/// How many of yt-dlp's last stderr lines a failure keeps.
pub const STDERR_TAIL_LINES: usize = 50;

/// The tail after one more stderr line: the oldest line leaves once the tail is full.
pub open spec fn pushed_bounded(buf: Seq<Seq<char>>, line: Seq<char>) -> Seq<Seq<char>> {
    (if buf.len() >= STDERR_TAIL_LINES {
        buf.drop_first()
    } else {
        buf
    }).push(line)
}

/// The tail kept after reading `lines` one by one into an empty tail.
pub open spec fn stderr_tail(lines: Seq<Seq<char>>) -> Seq<Seq<char>>
    decreases lines.len(),
{
    if lines.len() == 0 {
        seq![]
    } else {
        pushed_bounded(stderr_tail(lines.drop_last()), lines.last())
    }
}

/// Adds a stderr line to the kept tail.
pub fn push_stderr_line(buf: &mut Vec<String>, line: String)
    ensures
        final(buf).deep_view() == pushed_bounded(old(buf).deep_view(), line@),
{
    let ghost before = buf.deep_view();
    let ghost lv = line@;
    if buf.len() >= STDERR_TAIL_LINES {
        buf.remove(0);
    }
    buf.push(line);
    assert(buf.deep_view() =~= pushed_bounded(before, lv));
}

/// Law: reading any stream of stderr lines keeps exactly its last 50 lines
/// (all of them when there are fewer).
pub proof fn law_stderr_tail_is_last_lines(lines: Seq<Seq<char>>)
    ensures
        stderr_tail(lines) == lines.skip(
            if lines.len() > STDERR_TAIL_LINES {
                lines.len() - STDERR_TAIL_LINES
            } else {
                0
            },
        ),
    decreases lines.len(),
{
    if lines.len() > 0 {
        law_stderr_tail_is_last_lines(lines.drop_last());
        let prev = lines.drop_last();
        let k: int = if prev.len() > STDERR_TAIL_LINES { prev.len() - STDERR_TAIL_LINES } else { 0 };
        let k2: int = if lines.len() > STDERR_TAIL_LINES { lines.len() - STDERR_TAIL_LINES } else { 0 };
        assert(stderr_tail(prev) == prev.skip(k));
        if prev.skip(k).len() >= STDERR_TAIL_LINES {
            assert(prev.skip(k).drop_first().push(lines.last()) =~= lines.skip(k2));
        } else {
            assert(prev.skip(k).push(lines.last()) =~= lines.skip(k2));
        }
    } else {
        assert(lines.skip(0) =~= lines);
    }
}

// ------------------------------------------------------------------ outcome

/// How one yt-dlp run ended.
#[derive(Clone, Debug)]
pub enum Attempt {
    Done,
    Killed(KillReason),
    /// Joined tail of yt-dlp's stderr.
    Failed(String),
    SpawnFailed(String),
}

/// The outcome of a run: a stop request wins; otherwise a successful exit is
/// `Done` and anything else a failure carrying the stderr tail.
pub fn attempt_outcome(kill_reason: Option<KillReason>, exited_ok: bool, stderr_tail: &Vec<String>) -> (r: Attempt)
    ensures
        match kill_reason {
            Some(k) => r == Attempt::Killed(k),
            None => if exited_ok {
                r is Done
            } else {
                r matches Attempt::Failed(s) && s@ == join_with(stderr_tail.deep_view(), "\n"@)
            },
        },
{
    match kill_reason {
        Some(k) => Attempt::Killed(k),
        None => if exited_ok {
            Attempt::Done
        } else {
            Attempt::Failed(join(stderr_tail, "\n"))
        },
    }
}

/// The outcome when yt-dlp could not be started (`err` is the OS error text).
pub fn spawn_failed(err: &str) -> (r: Attempt)
    ensures
        r matches Attempt::SpawnFailed(m) && m@ == "Не удалось запустить yt-dlp: "@ + err@,
{
    Attempt::SpawnFailed(concat("Не удалось запустить yt-dlp: ", err))
}

/// What the job records when its download ends, and whether partial files go.
#[derive(Clone, Debug)]
pub struct Finish {
    pub status: JobStatus,
    pub output_path: Option<String>,
    pub error: Option<String>,
    pub error_detail: Option<String>,
    pub remove_partial: bool,
}

/// `r` is how a job ends after `outcome`: paused or canceled on a stop request
/// (a cancel also removes partial files), done with the file it wrote, or an
/// error — a failure shows the friendly message and keeps stderr as detail.
pub open spec fn is_finish_for(outcome: Attempt, current_filename: Option<String>, r: Finish) -> bool {
    match outcome {
        Attempt::Killed(KillReason::Pause) => r.status == JobStatus::Paused && r.output_path is None
            && r.error is None && r.error_detail is None && !r.remove_partial,
        Attempt::Killed(KillReason::Cancel) => r.status == JobStatus::Canceled && r.output_path is None
            && r.error is None && r.error_detail is None && r.remove_partial,
        Attempt::Done => r.status == JobStatus::Done && r.output_path == current_filename && r.error is None
            && r.error_detail is None && !r.remove_partial,
        Attempt::SpawnFailed(m) => r.status == JobStatus::Error && r.output_path is None && r.error == Some(m)
            && r.error_detail is None && !r.remove_partial,
        Attempt::Failed(s) => r.status == JobStatus::Error && r.output_path is None && (r.error matches Some(e)
            && e@ == spec_classify_error(spec_lowercase(s@), s@)) && r.error_detail == Some(s) && !r.remove_partial,
    }
}

/// Law: a finished download asks to remove its partial files exactly when it
/// was canceled. A pause, a failure, a failed start or a finished download
/// keeps them, so a later retry resumes where it stopped. A failure or a
/// failed start ends in `Error` with no output file, and only a finished
/// download ends `Done`.
pub proof fn law_only_cancel_removes_partial_files(outcome: Attempt, current_filename: Option<String>, r: Finish)
    requires
        is_finish_for(outcome, current_filename, r),
    ensures
        r.remove_partial <==> outcome == Attempt::Killed(KillReason::Cancel),
        outcome is Failed || outcome is SpawnFailed ==> r.status == JobStatus::Error && r.output_path is None,
        r.status == JobStatus::Done <==> outcome is Done,
{
}

/// How a job ends after `outcome` (see `is_finish_for`).
pub fn finish_for(outcome: Attempt, current_filename: Option<String>) -> (r: Finish)
    ensures
        is_finish_for(outcome, current_filename, r),
{
    match outcome {
        Attempt::Killed(KillReason::Pause) => Finish {
            status: JobStatus::Paused,
            output_path: None,
            error: None,
            error_detail: None,
            remove_partial: false,
        },
        Attempt::Killed(KillReason::Cancel) => Finish {
            status: JobStatus::Canceled,
            output_path: None,
            error: None,
            error_detail: None,
            remove_partial: true,
        },
        Attempt::Done => Finish {
            status: JobStatus::Done,
            output_path: current_filename,
            error: None,
            error_detail: None,
            remove_partial: false,
        },
        Attempt::SpawnFailed(m) => Finish {
            status: JobStatus::Error,
            output_path: None,
            error: Some(m),
            error_detail: None,
            remove_partial: false,
        },
        Attempt::Failed(s) => {
            let message = friendly_error(s.as_str());
            Finish {
                status: JobStatus::Error,
                output_path: None,
                error: Some(message),
                error_detail: Some(s),
                remove_partial: false,
            }
        },
    }
}

/// Whether a first run is tried again without cookies: only when it failed,
/// the download used cookies, and yt-dlp's error shows that the site rejected
/// the cookie-bearing client (`cookie_client_rejected`, judged from its stderr).
pub fn retries_without_cookies(first: &Attempt, uses_cookies: bool, cookie_client_rejected: bool) -> (r: bool)
    ensures
        r == (first is Failed && uses_cookies && cookie_client_rejected),
{
    match first {
        Attempt::Failed(_) => uses_cookies && cookie_client_rejected,
        _ => false,
    }
}

/// The separator between the two stderr tails kept after a retry without cookies.
pub open spec fn cookie_retry_separator() -> Seq<char> {
    "\n\n--- повтор без cookies ---\n"@
}

/// How a job ends after its first run failed with `first_stderr` and the retry
/// without cookies ended with `retry`. A failed retry reports the first
/// error's message (the retry's would ask for cookies the user already set),
/// with both stderr tails as detail; any other retry outcome ends the job as it
/// would alone.
pub fn finish_after_cookie_retry(first_stderr: String, retry: Attempt, current_filename: Option<String>) -> (r: Finish)
    ensures
        match retry {
            Attempt::Failed(rs) => {
                &&& r.status == JobStatus::Error
                &&& r.output_path is None
                &&& r.error matches Some(e) && e@ == spec_classify_error(spec_lowercase(first_stderr@), first_stderr@)
                &&& r.error_detail matches Some(d) && d@ == first_stderr@ + cookie_retry_separator() + rs@
                &&& !r.remove_partial
            },
            _ => is_finish_for(retry, current_filename, r),
        },
{
    match retry {
        Attempt::Failed(rs) => {
            let message = friendly_error(first_stderr.as_str());
            let head = concat(first_stderr.as_str(), "\n\n--- повтор без cookies ---\n");
            let detail = concat(head.as_str(), rs.as_str());
            Finish {
                status: JobStatus::Error,
                output_path: None,
                error: Some(message),
                error_detail: Some(detail),
                remove_partial: false,
            }
        },
        other => finish_for(other, current_filename),
    }
}

/// How a job ends when it cannot even start (e.g. yt-dlp was not found).
pub fn finish_with_error(message: String) -> (r: Finish)
    ensures
        r.status == JobStatus::Error && r.output_path is None && r.error == Some(message) && r.error_detail is None
            && !r.remove_partial,
{
    Finish { status: JobStatus::Error, output_path: None, error: Some(message), error_detail: None, remove_partial: false }
}

/// The files a canceled download leaves behind: `<f>.part`, `<f>.ytdl`, `<f>`.
pub fn partial_files(filename: &Option<String>) -> (r: Vec<String>)
    ensures
        match filename {
            Some(f) => r.deep_view() == seq![f@ + ".part"@, f@ + ".ytdl"@, f@],
            None => r@.len() == 0,
        },
{
    let mut r: Vec<String> = Vec::new();
    match filename {
        Some(f) => {
            r.push(concat(f.as_str(), ".part"));
            r.push(concat(f.as_str(), ".ytdl"));
            r.push(f.clone());
            assert(r.deep_view() =~= seq![f@ + ".part"@, f@ + ".ytdl"@, f@]);
        },
        None => {},
    }
    r
}


// --------------------------------------------------------------------- laws

/// Law: a configured limit splits into shares that stay a real cap (at least
/// 1 KB/s each) and that together never exceed the budget once the budget
/// covers 1 KB/s per slot; no limit stays no limit.
pub proof fn law_split_rate_limit(total_kbps: Option<u32>, concurrency: usize)
    ensures
        total_kbps is None ==> spec_split_rate_limit(total_kbps, concurrency) is None,
        total_kbps matches Some(total) ==> ({
            let slots: int = if concurrency == 0 { 1 } else { concurrency as int };
            &&& spec_split_rate_limit(total_kbps, concurrency) matches Some(share)
            &&& share >= 1
            &&& share <= total || total == 0
            &&& total >= slots ==> share * slots <= total
        }),
{
    if let Some(total) = total_kbps {
        let slots: int = if concurrency == 0 { 1 } else { concurrency as int };
        let share: int = total as int / slots;
        assert(share * slots <= total) by (nonlinear_arith)
            requires
                slots >= 1,
                total >= 0,
                share == total as int / slots,
        ;
        assert(share <= total) by (nonlinear_arith)
            requires
                slots >= 1,
                total >= 0,
                share == total as int / slots,
        ;
        assert(total >= slots ==> share >= 1) by (nonlinear_arith)
            requires
                slots >= 1,
                share == total as int / slots,
        ;
    }
}

} // verus!
