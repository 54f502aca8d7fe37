//! The download queue: jobs, their states, and the decisions the scheduler and
//! the user's commands make on them.
use vstd::prelude::*;
use vstd::string::*;
use crate::spec::{copy_opt, DownloadSpec};
use crate::text::{all_digits, concat, spec_trim, str_eq, string_from_range, to_chars, trim_str};

verus! {

broadcast use vstd::string::group_string_axioms;

/// Where a job is in its life.
#[derive(Clone, Copy, Debug, PartialEq, Eq, Structural)]
pub enum JobStatus {
    Queued,
    Downloading,
    Merging,
    Converting,
    Paused,
    Done,
    Error,
    Canceled,
}

/// Why a running download is being stopped.
#[derive(Clone, Copy, Debug, PartialEq, Eq, Structural)]
pub enum KillReason {
    Pause,
    Cancel,
}

/// Download progress as yt-dlp last reported it.
#[derive(Clone, Debug, PartialEq)]
pub struct JobProgress {
    pub downloaded_bytes: Option<u64>,
    pub total_bytes: Option<u64>,
    /// Bytes per second, as the decimal text yt-dlp printed.
    pub speed_bytes_per_sec: Option<String>,
    pub eta_seconds: Option<u64>,
}

/// Progress with nothing known yet.
pub open spec fn blank_progress() -> JobProgress {
    JobProgress { downloaded_bytes: None, total_bytes: None, speed_bytes_per_sec: None, eta_seconds: None }
}

impl Default for JobProgress {
    fn default() -> (r: Self)
        ensures
            r == blank_progress(),
    {
        JobProgress { downloaded_bytes: None, total_bytes: None, speed_bytes_per_sec: None, eta_seconds: None }
    }
}

/// One download in the queue.
#[derive(Clone, Debug)]
pub struct Job {
    pub id: String,
    pub group_id: Option<String>,
    pub group_title: Option<String>,
    pub video_id: String,
    pub title: String,
    pub thumbnail: Option<String>,
    pub url: String,
    pub spec: DownloadSpec,
    pub status: JobStatus,
    pub progress: JobProgress,
    pub error: Option<String>,
    /// The full stderr behind `error`, when there is any.
    pub error_detail: Option<String>,
    pub output_path: Option<String>,
    pub created_at: String,
    pub retries_left: u32,
}

/// What the user asks to download.
#[derive(Clone, Debug)]
pub struct NewJobRequest {
    pub group_id: Option<String>,
    pub group_title: Option<String>,
    pub video_id: String,
    pub title: String,
    pub thumbnail: Option<String>,
    pub url: String,
    pub spec: DownloadSpec,
}

/// The queue's state: its jobs in order, the ids of the jobs being downloaded,
/// and how many may download at once.
pub struct QueueManager {
    pub jobs: Vec<Job>,
    /// The running ids, each once (see `wf`). A set keyed by the id string would
    /// do the same job, but Verus states nothing of `HashMap` or `HashSet`
    /// lookups for `String` keys, so the ids are kept in a list.
    pub running: Vec<String>,
    pub concurrency: usize,
}

// ------------------------------------------------------------------- lookup

/// `i` is the first position of `s` whose job satisfies `p`.
pub open spec fn is_first_where(s: Seq<Job>, p: spec_fn(Job) -> bool, i: int) -> bool {
    0 <= i < s.len() && p(s[i]) && forall|j: int| 0 <= j < i ==> !p(#[trigger] s[j])
}

/// The first position of `s` whose job satisfies `p` (what `iter().find` finds).
pub open spec fn first_where(s: Seq<Job>, p: spec_fn(Job) -> bool) -> Option<int> {
    if exists|i: int| is_first_where(s, p, i) {
        Some(choose|i: int| is_first_where(s, p, i))
    } else {
        None
    }
}

proof fn lemma_first_where_some(s: Seq<Job>, p: spec_fn(Job) -> bool, i: int)
    requires
        is_first_where(s, p, i),
    ensures
        first_where(s, p) == Some(i),
{
    let k = choose|k: int| is_first_where(s, p, k);
    assert(is_first_where(s, p, k));
    if k < i {
        assert(!p(s[k]));
    } else if k > i {
        assert(!p(s[i]));
    }
}

proof fn lemma_first_where_found(s: Seq<Job>, p: spec_fn(Job) -> bool, i: int)
    requires
        0 <= i < s.len(),
        p(s[i]),
    ensures
        first_where(s, p) is Some,
    decreases i,
{
    if forall|j: int| 0 <= j < i ==> !p(#[trigger] s[j]) {
        assert(is_first_where(s, p, i));
    } else {
        let j = choose|j: int| 0 <= j < i && p(#[trigger] s[j]);
        lemma_first_where_found(s, p, j);
    }
}

proof fn lemma_first_where_none(s: Seq<Job>, p: spec_fn(Job) -> bool)
    requires
        forall|j: int| 0 <= j < s.len() ==> !p(#[trigger] s[j]),
    ensures
        first_where(s, p) is None,
{
    assert(!exists|i: int| is_first_where(s, p, i));
}

/// The job has the given id.
pub open spec fn has_id(id: Seq<char>) -> spec_fn(Job) -> bool {
    |j: Job| j.id@ == id
}

/// The position of the first job with id `id`.
pub open spec fn job_index(jobs: Seq<Job>, id: Seq<char>) -> Option<int> {
    first_where(jobs, has_id(id))
}

// ------------------------------------------------------------ transitions

/// The jobs that are mid-download (or waiting to be) and so cannot survive a restart.
pub open spec fn is_active(s: JobStatus) -> bool {
    s == JobStatus::Queued || s == JobStatus::Downloading || s == JobStatus::Merging || s
        == JobStatus::Converting
}

/// A job as restored after a restart: active jobs come back paused.
pub open spec fn restored(j: Job) -> Job {
    if is_active(j.status) {
        Job { status: JobStatus::Paused, ..j }
    } else {
        j
    }
}

/// The jobs after setting the status of the first job with `id`.
pub open spec fn with_status(jobs: Seq<Job>, id: Seq<char>, s: JobStatus) -> Seq<Job> {
    match job_index(jobs, id) {
        Some(i) => jobs.update(i, Job { status: s, ..jobs[i] }),
        None => jobs,
    }
}

/// A job re-queued by the user: fresh progress, no error, a new retry budget.
pub open spec fn requeued(j: Job, retries: u32) -> Job {
    Job { status: JobStatus::Queued, progress: blank_progress(), error: None, retries_left: retries, ..j }
}

/// A failed job re-queued automatically, spending one retry.
pub open spec fn auto_requeued(j: Job) -> Job {
    Job {
        status: JobStatus::Queued,
        progress: blank_progress(),
        error: None,
        retries_left: (j.retries_left - 1) as u32,
        ..j
    }
}

/// A failed job the queue still has retries for.
pub open spec fn retries_automatically(j: Job) -> bool {
    j.status == JobStatus::Error && j.retries_left > 0
}

/// `ids` without any occurrence of `id`.
pub open spec fn ids_without(ids: Seq<Seq<char>>, id: Seq<char>) -> Seq<Seq<char>>
    decreases ids.len(),
{
    if ids.len() == 0 {
        ids
    } else {
        let rest = ids_without(ids.drop_last(), id);
        if ids.last() == id {
            rest
        } else {
            rest.push(ids.last())
        }
    }
}

/// `jobs` without the jobs whose id is `id`, in their order.
pub open spec fn jobs_without(jobs: Seq<Job>, id: Seq<char>) -> Seq<Job>
    decreases jobs.len(),
{
    if jobs.len() == 0 {
        jobs
    } else {
        let rest = jobs_without(jobs.drop_last(), id);
        if jobs.last().id@ == id {
            rest
        } else {
            rest.push(jobs.last())
        }
    }
}

/// The job may be started: queued and not already running.
pub open spec fn startable(running: Seq<Seq<char>>) -> spec_fn(Job) -> bool {
    |j: Job| j.status == JobStatus::Queued && !running.contains(j.id@)
}

/// The id of the job the scheduler starts next, if a slot is free.
pub open spec fn spec_next_to_start(jobs: Seq<Job>, running: Seq<Seq<char>>, concurrency: usize) -> Option<Seq<char>> {
    if running.len() >= concurrency {
        None
    } else {
        match first_where(jobs, startable(running)) {
            Some(i) => Some(jobs[i].id@),
            None => None,
        }
    }
}

/// Some job in `jobs` has id `id` and is queued.
pub open spec fn has_queued_job(jobs: Seq<Job>, id: Seq<char>) -> bool {
    exists|i: int| 0 <= i < jobs.len() && jobs[i].id@ == id && jobs[i].status == JobStatus::Queued
}

/// The running ids after recording that `id` started.
pub open spec fn with_running(running: Seq<Seq<char>>, id: Seq<char>) -> Seq<Seq<char>> {
    if running.contains(id) {
        running
    } else {
        running.push(id)
    }
}

/// A concurrency setting clamped to 1..=5.
pub open spec fn clamp_concurrency(v: usize) -> usize {
    if v < 1 {
        1
    } else if v > 5 {
        5
    } else {
        v
    }
}

/// What a finished job records as its detail: non-blank text only.
pub open spec fn kept_detail(detail: Option<String>) -> Option<String> {
    match detail {
        Some(d) => if spec_trim(d@).len() > 0 {
            Some(d)
        } else {
            None
        },
        None => None,
    }
}

/// A job after its download ended: the final status, the output path when one
/// is known, the error and its (non-blank) detail.
pub open spec fn finalized(
    j: Job,
    status: JobStatus,
    output_path: Option<String>,
    error: Option<String>,
    detail: Option<String>,
) -> Job {
    Job {
        status,
        output_path: if output_path is Some {
            output_path
        } else {
            j.output_path
        },
        error,
        error_detail: kept_detail(detail),
        ..j
    }
}

/// `s` without trailing `/` characters.
pub open spec fn trim_end_slashes(s: Seq<char>) -> Seq<char>
    decreases s.len(),
{
    if s.len() > 0 && s.last() == '/' {
        trim_end_slashes(s.drop_last())
    } else {
        s
    }
}

/// The download archive a job uses by default: next to its output.
pub open spec fn default_archive_path(output_dir: Seq<char>) -> Seq<char> {
    trim_end_slashes(output_dir) + "/.yt-downloader-archive.txt"@
}

/// `j` is the job made from `req` under its id and creation time: the request's
/// fields, `Queued` with no progress or error, the given retry budget, and the
/// spec's ffmpeg directory and archive filled in when the request left them unset.
pub open spec fn job_made_from(j: Job, req: NewJobRequest, ffmpeg_dir: Option<String>, retries: u32) -> bool {
    &&& j.group_id == req.group_id
    &&& j.group_title == req.group_title
    &&& j.video_id == req.video_id
    &&& j.title == req.title
    &&& j.thumbnail == req.thumbnail
    &&& j.url == req.url
    &&& j.spec == DownloadSpec {
        ffmpeg_dir: if req.spec.ffmpeg_dir is None {
            ffmpeg_dir
        } else {
            req.spec.ffmpeg_dir
        },
        download_archive_path: j.spec.download_archive_path,
        ..req.spec
    }
    &&& if req.spec.download_archive_path is None {
        j.spec.download_archive_path matches Some(a) && a@ == default_archive_path(req.spec.output_dir@)
    } else {
        j.spec.download_archive_path == req.spec.download_archive_path
    }
    &&& j.status == JobStatus::Queued
    &&& j.progress == blank_progress()
    &&& j.error is None
    &&& j.error_detail is None
    &&& j.output_path is None
    &&& j.retries_left == retries
}

// ------------------------------------------------------------ outside calls

/// A lowercase hexadecimal digit.
pub open spec fn is_lower_hex(c: char) -> bool {
    ('0' <= c && c <= '9') || ('a' <= c && c <= 'f')
}

/// `s` is a random (version 4, RFC 4122 variant) UUID in hyphenated lowercase
/// form: 8-4-4-4-12 hex digits, version digit `4`, variant digit one of `8 9 a b`.
pub open spec fn is_hyphenated_uuid_v4(s: Seq<char>) -> bool {
    &&& s.len() == 36
    &&& forall|i: int|
        0 <= i < 36 ==> if i == 8 || i == 13 || i == 18 || i == 23 {
            s[i] == '-'
        } else {
            is_lower_hex(#[trigger] s[i])
        }
    &&& s[14] == '4'
    &&& (s[19] == '8' || s[19] == '9' || s[19] == 'a' || s[19] == 'b')
}

/// The year of an RFC 3339 time: four digits, or `+` and five or more digits
/// past year 9999.
pub open spec fn is_rfc3339_year(y: Seq<char>) -> bool {
    (y.len() == 4 && all_digits(y)) || (y.len() >= 6 && y[0] == '+' && all_digits(y.drop_first()))
}

/// Fractional seconds: none, or `.` and 3, 6 or 9 digits.
pub open spec fn is_rfc3339_fraction(f: Seq<char>) -> bool {
    f.len() == 0 || ((f.len() == 4 || f.len() == 7 || f.len() == 10) && f[0] == '.' && all_digits(f.drop_first()))
}

/// `s` is a UTC time in RFC 3339 form, `YYYY-MM-DDTHH:MM:SS[.fff]+00:00`, whose
/// year takes the first `yl` characters.
pub open spec fn is_rfc3339_utc_with_year(s: Seq<char>, yl: int) -> bool {
    let n = s.len() as int;
    &&& 4 <= yl
    &&& yl + 21 <= n
    &&& is_rfc3339_year(s.subrange(0, yl))
    &&& s[yl] == '-'
    &&& all_digits(s.subrange(yl + 1, yl + 3))
    &&& s[yl + 3] == '-'
    &&& all_digits(s.subrange(yl + 4, yl + 6))
    &&& s[yl + 6] == 'T'
    &&& all_digits(s.subrange(yl + 7, yl + 9))
    &&& s[yl + 9] == ':'
    &&& all_digits(s.subrange(yl + 10, yl + 12))
    &&& s[yl + 12] == ':'
    &&& all_digits(s.subrange(yl + 13, yl + 15))
    &&& is_rfc3339_fraction(s.subrange(yl + 15, n - 6))
    &&& s.subrange(n - 6, n) == "+00:00"@
}

/// `s` is a UTC time in RFC 3339 form, `YYYY-MM-DDTHH:MM:SS[.fff]+00:00`.
pub open spec fn is_rfc3339_utc(s: Seq<char>) -> bool {
    exists|yl: int| is_rfc3339_utc_with_year(s, yl)
}

/// Calls `uuid::Uuid::new_v4` and renders it with `to_string`, which writes the
/// hyphenated lowercase form. The 122 random bits are not stated; the version
/// and variant digits that `new_v4` fixes, and the form, are.
#[verifier::external_body]
fn fresh_job_id() -> (r: String)
    ensures
        is_hyphenated_uuid_v4(r@),
{
    uuid::Uuid::new_v4().to_string()
}

/// Calls `chrono::Utc::now` and renders it with `to_rfc3339`, which writes the
/// date, `T`, the time with 0, 3, 6 or 9 fractional digits, and `+00:00`. The
/// clock's value is not stated, only the form.
#[verifier::external_body]
fn now_rfc3339() -> (r: String)
    ensures
        is_rfc3339_utc(r@),
{
    chrono::Utc::now().to_rfc3339()
}

// ----------------------------------------------------------------- helpers

/// The path of the default download archive for `output_dir`.
pub fn archive_path_for(output_dir: &str) -> (r: String)
    ensures
        r@ == default_archive_path(output_dir@),
{
    let v = to_chars(output_dir);
    let mut end = v.len();
    assert(v@.subrange(0, end as int) =~= v@);
    while end > 0 && v[end - 1] == '/'
        invariant
            end <= v@.len(),
            trim_end_slashes(v@) == trim_end_slashes(v@.subrange(0, end as int)),
        decreases end,
    {
        assert(v@.subrange(0, end as int).drop_last() =~= v@.subrange(0, end - 1));
        end -= 1;
    }
    let base = string_from_range(&v, 0, end);
    concat(base.as_str(), "/.yt-downloader-archive.txt")
}

/// The job for a request, under a given id and creation time.
pub fn job_from_request(req: NewJobRequest, id: String, created_at: String, ffmpeg_dir: &Option<String>, retries: u32) -> (r: Job)
    ensures
        job_made_from(r, req, *ffmpeg_dir, retries),
        r.id == id,
        r.created_at == created_at,
{
    let mut spec = req.spec;
    if spec.ffmpeg_dir.is_none() {
        spec.ffmpeg_dir = copy_opt(ffmpeg_dir);
    }
    if spec.download_archive_path.is_none() {
        spec.download_archive_path = Some(archive_path_for(spec.output_dir.as_str()));
    }
    Job {
        id,
        group_id: req.group_id,
        group_title: req.group_title,
        video_id: req.video_id,
        title: req.title,
        thumbnail: req.thumbnail,
        url: req.url,
        spec,
        status: JobStatus::Queued,
        progress: JobProgress::default(),
        error: None,
        error_detail: None,
        output_path: None,
        created_at,
        retries_left: retries,
    }
}

/// Whether yt-dlp's progress deserves an event now: always on a status change,
/// otherwise at most every 250 ms (`elapsed_ms` is the time since the last one).
pub fn should_emit_progress(status_changed: bool, elapsed_ms: Option<u64>) -> (r: bool)
    ensures
        r == (status_changed || match elapsed_ms {
            Some(ms) => ms >= 250,
            None => true,
        }),
{
    if status_changed {
        true
    } else {
        match elapsed_ms {
            Some(ms) => ms >= 250,
            None => true,
        }
    }
}

/// What to do with a progress report: whether to send the progress event, and
/// whether to remember now as the time of the last one. Only throttled events
/// are timed: an event sent for a status change leaves the throttle's clock alone.
pub fn progress_event(status_changed: bool, elapsed_ms: Option<u64>) -> (r: (bool, bool))
    ensures
        r.0 == (status_changed || match elapsed_ms {
            Some(ms) => ms >= 250,
            None => true,
        }),
        r.1 == (r.0 && !status_changed),
{
    let emit = should_emit_progress(status_changed, elapsed_ms);
    (emit, emit && !status_changed)
}

/// How many seconds to wait before scheduling again once a download ended:
/// a job that just went back to the queue for an automatic retry waits four
/// seconds, so a persistently failing job does not hot-loop; otherwise none.
pub fn backoff_secs(retried: bool) -> (secs: u64)
    ensures
        secs == (if retried { 4u64 } else { 0u64 }),
{
    if retried {
        4
    } else {
        0
    }
}

fn status_is_active(s: JobStatus) -> (r: bool)
    ensures
        r == is_active(s),
{
    match s {
        JobStatus::Queued | JobStatus::Downloading | JobStatus::Merging | JobStatus::Converting => true,
        _ => false,
    }
}

impl QueueManager {
    /// The queue's invariant: no id is recorded as running twice, and the
    /// concurrency is between 1 and 5.
    pub open spec fn wf(&self) -> bool {
        &&& self.running.deep_view().no_duplicates()
        &&& 1 <= self.concurrency <= 5
    }

    /// An empty queue allowing three downloads at once.
    pub fn new() -> (r: QueueManager)
        ensures
            r.wf(),
            r.jobs@.len() == 0,
            r.running@.len() == 0,
            r.concurrency == 3,
    {
        QueueManager { jobs: Vec::new(), running: Vec::new(), concurrency: 3 }
    }

    /// The position of the first job with id `id`.
    pub fn find_job(&self, id: &str) -> (r: Option<usize>)
        ensures
            r matches Some(i) ==> job_index(self.jobs@, id@) == Some(i as int),
            r is None ==> job_index(self.jobs@, id@) is None,
    {
        let mut i: usize = 0;
        while i < self.jobs.len()
            invariant
                i <= self.jobs@.len(),
                forall|j: int| 0 <= j < i ==> !(has_id(id@))(#[trigger] self.jobs@[j]),
            decreases self.jobs.len() - i,
        {
            if str_eq(self.jobs[i].id.as_str(), id) {
                proof {
                    lemma_first_where_some(self.jobs@, has_id(id@), i as int);
                }
                return Some(i);
            }
            i += 1;
        }
        proof {
            lemma_first_where_none(self.jobs@, has_id(id@));
        }
        None
    }

    /// Whether a download of job `id` is running.
    pub fn is_running(&self, id: &str) -> (r: bool)
        ensures
            r == self.running.deep_view().contains(id@),
    {
        let ghost rv = self.running.deep_view();
        let mut i: usize = 0;
        while i < self.running.len()
            invariant
                i <= self.running@.len(),
                rv == self.running.deep_view(),
                forall|j: int| 0 <= j < i ==> rv[j] != id@,
            decreases self.running.len() - i,
        {
            if str_eq(self.running[i].as_str(), id) {
                assert(rv[i as int] == id@);
                return true;
            }
            i += 1;
        }
        false
    }

    /// Replaces the jobs with the ones read back after a restart; jobs that were
    /// queued or mid-download come back paused, since no download survives a restart.
    pub fn restore(&mut self, loaded: Vec<Job>)
        ensures
            old(self).wf() ==> final(self).wf(),
            final(self).jobs@ == loaded@.map_values(|j: Job| restored(j)),
            final(self).running == old(self).running,
            final(self).concurrency == old(self).concurrency,
    {
        self.jobs = loaded;
        let n = self.jobs.len();
        let mut i: usize = 0;
        while i < n
            invariant
                n == loaded@.len(),
                self.jobs@.len() == n,
                i <= n,
                forall|j: int| 0 <= j < i ==> self.jobs@[j] == restored(#[trigger] loaded@[j]),
                forall|j: int| i <= j < n ==> self.jobs@[j] == loaded@[j],
                self.running == old(self).running,
                self.concurrency == old(self).concurrency,
            decreases n - i,
        {
            if status_is_active(self.jobs[i].status) {
                self.jobs[i].status = JobStatus::Paused;
            }
            i += 1;
        }
        assert(self.jobs@ =~= loaded@.map_values(|j: Job| restored(j)));
    }

    /// Sets the status of the first job with id `id`, if there is one.
    pub fn set_status(&mut self, id: &str, status: JobStatus)
        ensures
            old(self).wf() ==> final(self).wf(),
            final(self).jobs@ == with_status(old(self).jobs@, id@, status),
            final(self).running == old(self).running,
            final(self).concurrency == old(self).concurrency,
    {
        match self.find_job(id) {
            Some(i) => {
                self.jobs[i].status = status;
            },
            None => {},
        }
    }

    /// Records progress and status for job `id`. `None` when there is no such
    /// job; otherwise whether the status changed.
    pub fn update_progress(&mut self, id: &str, progress: JobProgress, status: JobStatus) -> (r: Option<bool>)
        ensures
            old(self).wf() ==> final(self).wf(),
            match job_index(old(self).jobs@, id@) {
                Some(i) => {
                    &&& r == Some(old(self).jobs@[i].status != status)
                    &&& final(self).jobs@ == old(self).jobs@.update(
                        i,
                        Job { status, progress, ..old(self).jobs@[i] },
                    )
                },
                None => r is None && final(self).jobs == old(self).jobs,
            },
            final(self).running == old(self).running,
            final(self).concurrency == old(self).concurrency,
    {
        match self.find_job(id) {
            Some(i) => {
                let changed = self.jobs[i].status != status;
                self.jobs[i].status = status;
                self.jobs[i].progress = progress;
                Some(changed)
            },
            None => None,
        }
    }

    /// Records how a job's download ended.
    pub fn finalize(
        &mut self,
        id: &str,
        status: JobStatus,
        output_path: Option<String>,
        error: Option<String>,
        error_detail: Option<String>,
    )
        ensures
            old(self).wf() ==> final(self).wf(),
            final(self).jobs@ == (match job_index(old(self).jobs@, id@) {
                Some(i) => old(self).jobs@.update(
                    i,
                    finalized(old(self).jobs@[i], status, output_path, error, error_detail),
                ),
                None => old(self).jobs@,
            }),
            final(self).running == old(self).running,
            final(self).concurrency == old(self).concurrency,
    {
        let detail = match error_detail {
            Some(d) => {
                let t = trim_str(d.as_str());
                if t.as_str().is_empty() {
                    None
                } else {
                    Some(d)
                }
            },
            None => None,
        };
        match self.find_job(id) {
            Some(i) => {
                self.jobs[i].status = status;
                if output_path.is_some() {
                    self.jobs[i].output_path = output_path;
                }
                self.jobs[i].error = error;
                self.jobs[i].error_detail = detail;
            },
            None => {},
        }
    }

    /// The id of the job to start next: the first queued job not already
    /// running, and only while fewer than `concurrency` downloads run.
    pub fn next_to_start(&self) -> (r: Option<String>)
        ensures
            r.deep_view() == spec_next_to_start(self.jobs@, self.running.deep_view(), self.concurrency),
    {
        if self.running.len() >= self.concurrency {
            return None;
        }
        let ghost p = startable(self.running.deep_view());
        let mut i: usize = 0;
        while i < self.jobs.len()
            invariant
                i <= self.jobs@.len(),
                self.running@.len() < self.concurrency,
                p == startable(self.running.deep_view()),
                forall|j: int| 0 <= j < i ==> !p(#[trigger] self.jobs@[j]),
            decreases self.jobs.len() - i,
        {
            if self.jobs[i].status == JobStatus::Queued && !self.is_running(self.jobs[i].id.as_str()) {
                proof {
                    lemma_first_where_some(self.jobs@, p, i as int);
                }
                return Some(self.jobs[i].id.clone());
            }
            i += 1;
        }
        proof {
            lemma_first_where_none(self.jobs@, p);
        }
        None
    }

    /// Records that job `id` started downloading.
    pub fn mark_running(&mut self, id: String)
        ensures
            old(self).wf() ==> final(self).wf(),
            final(self).running.deep_view() == with_running(old(self).running.deep_view(), id@),
            final(self).jobs == old(self).jobs,
            final(self).concurrency == old(self).concurrency,
    {
        proof {
            if self.wf() {
                law_running_ids_stay_distinct(self.running.deep_view(), id@);
            }
        }
        if !self.is_running(id.as_str()) {
            let ghost before = self.running.deep_view();
            let ghost iv = id@;
            self.running.push(id);
            assert(self.running.deep_view() =~= before.push(iv));
        }
    }

    /// Records that the download of job `id` ended. A job that failed while it
    /// still has retries goes back to the queue, spending one; the result says
    /// whether that happened.
    pub fn finish_run(&mut self, id: &str) -> (r: bool)
        ensures
            old(self).wf() ==> final(self).wf(),
            final(self).running.deep_view() == ids_without(old(self).running.deep_view(), id@),
            final(self).concurrency == old(self).concurrency,
            match job_index(old(self).jobs@, id@) {
                Some(i) => if retries_automatically(old(self).jobs@[i]) {
                    r && final(self).jobs@ == old(self).jobs@.update(i, auto_requeued(old(self).jobs@[i]))
                } else {
                    !r && final(self).jobs == old(self).jobs
                },
                None => !r && final(self).jobs == old(self).jobs,
            },
    {
        let ghost orig = self.running.deep_view();
        proof {
            if self.wf() {
                law_running_ids_stay_distinct(orig, id@);
            }
        }
        let mut kept: Vec<String> = Vec::new();
        let mut i: usize = 0;
        assert(kept.deep_view() =~= ids_without(orig.take(0), id@));
        while i < self.running.len()
            invariant
                i <= self.running@.len(),
                orig == self.running.deep_view(),
                kept.deep_view() == ids_without(orig.take(i as int), id@),
            decreases self.running.len() - i,
        {
            assert(orig.take(i + 1).drop_last() =~= orig.take(i as int));
            assert(orig.take(i + 1).last() == orig[i as int]);
            if !str_eq(self.running[i].as_str(), id) {
                let ghost before = kept.deep_view();
                kept.push(self.running[i].clone());
                assert(kept.deep_view() =~= before.push(orig[i as int]));
            }
            i += 1;
        }
        assert(orig.take(orig.len() as int) =~= orig);
        self.running = kept;
        match self.find_job(id) {
            Some(i) => {
                if self.jobs[i].status == JobStatus::Error && self.jobs[i].retries_left > 0 {
                    self.jobs[i].retries_left = self.jobs[i].retries_left - 1;
                    self.jobs[i].status = JobStatus::Queued;
                    self.jobs[i].progress = JobProgress::default();
                    self.jobs[i].error = None;
                    true
                } else {
                    false
                }
            },
            None => false,
        }
    }

    /// Starts queued jobs while a slot is free, first in the list first, and
    /// returns their ids in the order they were started. On return either every
    /// slot is taken or no queued job is left that is not running.
    pub fn schedule(&mut self) -> (started: Vec<String>)
        ensures
            old(self).wf() ==> final(self).wf(),
            final(self).jobs == old(self).jobs,
            final(self).concurrency == old(self).concurrency,
            final(self).running.deep_view() == old(self).running.deep_view() + started.deep_view(),
            started.deep_view().no_duplicates(),
            forall|k: int|
                0 <= k < started@.len() ==> spec_next_to_start(
                    old(self).jobs@,
                    old(self).running.deep_view() + started.deep_view().take(k),
                    old(self).concurrency,
                ) == Some(#[trigger] started.deep_view()[k]),
            forall|k: int|
                0 <= k < started@.len() ==> !old(self).running.deep_view().contains(
                    #[trigger] started.deep_view()[k],
                ),
            forall|k: int|
                0 <= k < started@.len() ==> has_queued_job(old(self).jobs@, #[trigger] started.deep_view()[k]),
            started@.len() > 0 ==> final(self).running@.len() <= final(self).concurrency,
            spec_next_to_start(final(self).jobs@, final(self).running.deep_view(), final(self).concurrency) is None,
            final(self).running@.len() >= final(self).concurrency || forall|i: int|
                0 <= i < final(self).jobs@.len() && (#[trigger] final(self).jobs@[i]).status == JobStatus::Queued
                    ==> final(self).running.deep_view().contains(final(self).jobs@[i].id@),
    {
        let ghost r0 = self.running.deep_view();
        let mut started: Vec<String> = Vec::new();
        assert(r0 + started.deep_view() =~= r0);
        loop
            invariant
                self.jobs == old(self).jobs,
                self.concurrency == old(self).concurrency,
                r0 == old(self).running.deep_view(),
                self.running.deep_view() == r0 + started.deep_view(),
                self.running@.len() == self.running.deep_view().len(),
                old(self).wf() ==> self.wf(),
                started.deep_view().no_duplicates(),
                forall|k: int|
                    0 <= k < started@.len() ==> spec_next_to_start(
                        self.jobs@,
                        r0 + started.deep_view().take(k),
                        self.concurrency,
                    ) == Some(#[trigger] started.deep_view()[k]),
                forall|k: int| 0 <= k < started@.len() ==> !r0.contains(#[trigger] started.deep_view()[k]),
                forall|k: int|
                    0 <= k < started@.len() ==> has_queued_job(self.jobs@, #[trigger] started.deep_view()[k]),
                started@.len() > 0 ==> self.running@.len() <= self.concurrency,
            ensures
                spec_next_to_start(self.jobs@, self.running.deep_view(), self.concurrency) is None,
            decreases self.concurrency - self.running@.len(),
        {
            match self.next_to_start() {
                Some(id) => {
                    let ghost iv = id@;
                    let ghost rb = self.running.deep_view();
                    let ghost sb = started.deep_view();
                    proof {
                        law_scheduling_respects_concurrency(self.jobs@, rb, self.concurrency);
                    }
                    assert(!rb.contains(iv));
                    let copy = id.clone();
                    self.mark_running(copy);
                    assert(self.running.deep_view() == rb.push(iv));
                    started.push(id);
                    assert(started.deep_view() =~= sb.push(iv));
                    assert(self.running.deep_view() =~= r0 + started.deep_view());
                    assert forall|k: int| 0 <= k < started@.len() implies spec_next_to_start(
                        self.jobs@,
                        r0 + started.deep_view().take(k),
                        self.concurrency,
                    ) == Some(#[trigger] started.deep_view()[k]) by {
                        if k < sb.len() {
                            assert(started.deep_view().take(k) =~= sb.take(k));
                            assert(started.deep_view()[k] == sb[k]);
                        } else {
                            assert(started.deep_view().take(k) =~= sb);
                            assert(r0 + sb =~= rb);
                        }
                    }
                    assert forall|k: int| 0 <= k < started@.len() implies !r0.contains(
                        #[trigger] started.deep_view()[k],
                    ) by {
                        if k < sb.len() {
                            assert(started.deep_view()[k] == sb[k]);
                        } else {
                            if r0.contains(iv) {
                                let j = choose|j: int| 0 <= j < r0.len() && r0[j] == iv;
                                assert(rb[j] == iv);
                            }
                        }
                    }
                    assert forall|k: int| 0 <= k < started@.len() implies has_queued_job(
                        self.jobs@,
                        #[trigger] started.deep_view()[k],
                    ) by {
                        if k < sb.len() {
                            assert(started.deep_view()[k] == sb[k]);
                        }
                    }
                    assert(started.deep_view().no_duplicates()) by {
                        assert forall|a: int, b: int|
                            0 <= a < b < started.deep_view().len() implies started.deep_view()[a]
                            != started.deep_view()[b] by {
                            if b == sb.len() {
                                assert(rb[r0.len() + a] == sb[a]);
                            }
                        }
                    }
                },
                None => {
                    assert(spec_next_to_start(self.jobs@, self.running.deep_view(), self.concurrency) is None);
                    break;
                },
            }
        }
        proof {
            let jobs = self.jobs@;
            let running = self.running.deep_view();
            if self.running@.len() < self.concurrency {
                assert forall|i: int|
                    0 <= i < jobs.len() && (#[trigger] jobs[i]).status == JobStatus::Queued implies running.contains(
                        jobs[i].id@,
                    ) by {
                    if !running.contains(jobs[i].id@) {
                        assert(startable(running)(jobs[i]));
                        lemma_first_where_found(jobs, startable(running), i);
                    }
                }
            }
        }
        started
    }

    /// Appends one job per request, in order, each with a fresh id and creation
    /// time. The new jobs are the last `requests.len()` ones.
    pub fn enqueue(&mut self, requests: Vec<NewJobRequest>, ffmpeg_dir: &Option<String>, retries: u32)
        ensures
            old(self).wf() ==> final(self).wf(),
            final(self).jobs@.len() == old(self).jobs@.len() + requests@.len(),
            final(self).jobs@.subrange(0, old(self).jobs@.len() as int) == old(self).jobs@,
            forall|k: int|
                0 <= k < requests@.len() ==> job_made_from(
                    #[trigger] final(self).jobs@[old(self).jobs@.len() + k],
                    requests@[k],
                    *ffmpeg_dir,
                    retries,
                ),
            forall|k: int|
                0 <= k < requests@.len() ==> is_hyphenated_uuid_v4(
                    (#[trigger] final(self).jobs@[old(self).jobs@.len() + k]).id@,
                ),
            forall|k: int|
                0 <= k < requests@.len() ==> is_rfc3339_utc(
                    (#[trigger] final(self).jobs@[old(self).jobs@.len() + k]).created_at@,
                ),
            final(self).running == old(self).running,
            final(self).concurrency == old(self).concurrency,
    {
        let ghost reqs = requests@;
        let ghost start = self.jobs@.len();
        let total = requests.len();
        let mut rest = requests;
        let mut k: usize = 0;
        while rest.len() > 0
            invariant
                total == reqs.len(),
                k + rest@.len() == reqs.len(),
                rest@ == reqs.subrange(k as int, reqs.len() as int),
                self.jobs@.len() == start + k,
                start == old(self).jobs@.len(),
                self.jobs@.subrange(0, start as int) == old(self).jobs@,
                forall|m: int| 0 <= m < k ==> job_made_from(#[trigger] self.jobs@[start + m], reqs[m], *ffmpeg_dir, retries),
                forall|m: int| 0 <= m < k ==> is_hyphenated_uuid_v4((#[trigger] self.jobs@[start + m]).id@),
                forall|m: int| 0 <= m < k ==> is_rfc3339_utc((#[trigger] self.jobs@[start + m]).created_at@),
                self.running == old(self).running,
                self.concurrency == old(self).concurrency,
            decreases rest.len(),
        {
            let req = rest.remove(0);
            assert(req == reqs[k as int]);
            let job = job_from_request(req, fresh_job_id(), now_rfc3339(), ffmpeg_dir, retries);
            let ghost before = self.jobs@;
            self.jobs.push(job);
            assert(self.jobs@.subrange(0, start as int) =~= before.subrange(0, start as int));
            assert forall|m: int| 0 <= m < k + 1 implies job_made_from(
                #[trigger] self.jobs@[start + m],
                reqs[m],
                *ffmpeg_dir,
                retries,
            ) by {
                if m < k {
                    assert(self.jobs@[start + m] == before[start + m]);
                }
            }
            assert forall|m: int| 0 <= m < k + 1 implies is_hyphenated_uuid_v4(
                (#[trigger] self.jobs@[start + m]).id@,
            ) by {
                if m < k {
                    assert(self.jobs@[start + m] == before[start + m]);
                }
            }
            assert forall|m: int| 0 <= m < k + 1 implies is_rfc3339_utc(
                (#[trigger] self.jobs@[start + m]).created_at@,
            ) by {
                if m < k {
                    assert(self.jobs@[start + m] == before[start + m]);
                }
            }
            k += 1;
            assert(rest@ =~= reqs.subrange(k as int, reqs.len() as int));
        }
    }

    /// Pausing job `id`: a running download has to be stopped first (the result
    /// is `true` and nothing changes here); any other job is marked paused now.
    pub fn pause_job(&mut self, id: &str) -> (needs_stop: bool)
        ensures
            old(self).wf() ==> final(self).wf(),
            needs_stop == old(self).running.deep_view().contains(id@),
            needs_stop ==> final(self).jobs == old(self).jobs,
            !needs_stop ==> final(self).jobs@ == with_status(old(self).jobs@, id@, JobStatus::Paused),
            final(self).running == old(self).running,
            final(self).concurrency == old(self).concurrency,
    {
        if self.is_running(id) {
            true
        } else {
            self.set_status(id, JobStatus::Paused);
            false
        }
    }

    /// Canceling job `id`: a running download has to be stopped first (the
    /// result is `true` and nothing changes here); any other job is marked canceled now.
    pub fn cancel_job(&mut self, id: &str) -> (needs_stop: bool)
        ensures
            old(self).wf() ==> final(self).wf(),
            needs_stop == old(self).running.deep_view().contains(id@),
            needs_stop ==> final(self).jobs == old(self).jobs,
            !needs_stop ==> final(self).jobs@ == with_status(old(self).jobs@, id@, JobStatus::Canceled),
            final(self).running == old(self).running,
            final(self).concurrency == old(self).concurrency,
    {
        if self.is_running(id) {
            true
        } else {
            self.set_status(id, JobStatus::Canceled);
            false
        }
    }

    /// Puts job `id` back in the queue with fresh progress, no error and a new
    /// automatic-retry budget.
    pub fn retry_job(&mut self, id: &str, retries: u32)
        ensures
            old(self).wf() ==> final(self).wf(),
            final(self).jobs@ == (match job_index(old(self).jobs@, id@) {
                Some(i) => old(self).jobs@.update(i, requeued(old(self).jobs@[i], retries)),
                None => old(self).jobs@,
            }),
            final(self).running == old(self).running,
            final(self).concurrency == old(self).concurrency,
    {
        match self.find_job(id) {
            Some(i) => {
                self.jobs[i].status = JobStatus::Queued;
                self.jobs[i].progress = JobProgress::default();
                self.jobs[i].error = None;
                self.jobs[i].retries_left = retries;
            },
            None => {},
        }
    }

    /// Removes every job with id `id`. The result says whether its download is
    /// running and must be stopped, so that no download goes on untracked.
    pub fn remove_job(&mut self, id: &str) -> (needs_stop: bool)
        ensures
            old(self).wf() ==> final(self).wf(),
            needs_stop == old(self).running.deep_view().contains(id@),
            final(self).jobs@ == jobs_without(old(self).jobs@, id@),
            final(self).jobs@ == old(self).jobs@.filter(other_than(id@)),
            final(self).running == old(self).running,
            final(self).concurrency == old(self).concurrency,
    {
        let needs_stop = self.is_running(id);
        let ghost orig = self.jobs@;
        let mut rest: Vec<Job> = Vec::new();
        std::mem::swap(&mut rest, &mut self.jobs);
        let n = rest.len();
        let mut k: usize = 0;
        assert(self.jobs@ =~= jobs_without(orig.take(0), id@));
        while rest.len() > 0
            invariant
                n == orig.len(),
                k + rest@.len() == n,
                rest@ == orig.subrange(k as int, n as int),
                self.jobs@ == jobs_without(orig.take(k as int), id@),
                self.running == old(self).running,
                self.concurrency == old(self).concurrency,
            decreases rest.len(),
        {
            let j = rest.remove(0);
            assert(j == orig[k as int]);
            assert(orig.take(k + 1).drop_last() =~= orig.take(k as int));
            assert(orig.take(k + 1).last() == orig[k as int]);
            if !str_eq(j.id.as_str(), id) {
                self.jobs.push(j);
            }
            k += 1;
            assert(rest@ =~= orig.subrange(k as int, n as int));
        }
        assert(orig.take(n as int) =~= orig);
        proof {
            law_remove_job(orig, id@);
        }
        needs_stop
    }

    /// Sets how many downloads may run at once, clamped to 1..=5.
    pub fn set_concurrency(&mut self, value: usize)
        ensures
            old(self).wf() ==> final(self).wf(),
            final(self).concurrency == clamp_concurrency(value),
            final(self).jobs == old(self).jobs,
            final(self).running == old(self).running,
    {
        self.concurrency = if value < 1 {
            1
        } else if value > 5 {
            5
        } else {
            value
        };
    }
}


// --------------------------------------------------------------------- laws

/// Law: scheduling never runs more downloads than allowed: starting the job
/// the scheduler picks keeps the number of running downloads within the
/// concurrency, and the job started was queued and not yet running.
pub proof fn law_scheduling_respects_concurrency(jobs: Seq<Job>, running: Seq<Seq<char>>, concurrency: usize)
    requires
        running.len() <= concurrency,
    ensures
        spec_next_to_start(jobs, running, concurrency) matches Some(id) ==> {
            &&& with_running(running, id).len() <= concurrency
            &&& !running.contains(id)
            &&& exists|i: int| 0 <= i < jobs.len() && jobs[i].id@ == id && jobs[i].status == JobStatus::Queued
        },
        running.len() == concurrency ==> spec_next_to_start(jobs, running, concurrency) is None,
{
    if let Some(id) = spec_next_to_start(jobs, running, concurrency) {
        let i = first_where(jobs, startable(running))->0;
        assert(is_first_where(jobs, startable(running), choose|k: int| is_first_where(jobs, startable(running), k)));
        assert(jobs[i].id@ == id);
    }
}

/// Law: after a restart no job is left queued or mid-download, and only
/// those jobs change (they come back paused).
pub proof fn law_restore_leaves_nothing_active(j: Job)
    ensures
        !is_active(restored(j).status),
        is_active(j.status) ==> restored(j).status == JobStatus::Paused,
        !is_active(j.status) ==> restored(j) == j,
{
}

/// Whether a job's id differs from `id`.
pub open spec fn other_than(id: Seq<char>) -> spec_fn(Job) -> bool {
    |j: Job| j.id@ != id
}

/// Law: removing a job leaves no job with its id and keeps every other job, in
/// its original order: what remains is exactly the jobs whose id differs, as
/// they stood.
pub proof fn law_remove_job(jobs: Seq<Job>, id: Seq<char>)
    ensures
        jobs_without(jobs, id) == jobs.filter(other_than(id)),
        forall|i: int| 0 <= i < jobs_without(jobs, id).len() ==> (#[trigger] jobs_without(jobs, id)[i]).id@ != id,
        jobs_without(jobs, id).len() == jobs.len() - jobs.filter(|j: Job| j.id@ == id).len(),
    decreases jobs.len(),
{
    if jobs.len() > 0 {
        law_remove_job(jobs.drop_last(), id);
        let rest = jobs_without(jobs.drop_last(), id);
        assert(jobs.drop_last().push(jobs.last()) =~= jobs);
        reveal(Seq::filter);
        assert(jobs.filter(other_than(id)) == (if jobs.last().id@ != id {
            jobs.drop_last().filter(other_than(id)).push(jobs.last())
        } else {
            jobs.drop_last().filter(other_than(id))
        }));
        if jobs.last().id@ != id {
            assert forall|i: int| 0 <= i < rest.push(jobs.last()).len() implies (#[trigger] rest.push(
                jobs.last(),
            )[i]).id@ != id by {
                if i < rest.len() {
                    assert(rest.push(jobs.last())[i] == rest[i]);
                }
            }
        }
    } else {
        reveal(Seq::filter);
    }
}

/// Law: each automatic retry spends one unit of the budget, and a job with no
/// budget left stays failed, so a persistently failing job is retried at most
/// `retries_left` times.
pub proof fn law_auto_retry_is_bounded(j: Job)
    ensures
        retries_automatically(j) ==> auto_requeued(j).retries_left == j.retries_left - 1,
        retries_automatically(j) ==> auto_requeued(j).status == JobStatus::Queued,
        j.retries_left == 0 ==> !retries_automatically(j),
{
}

/// Law: a retry by the user starts over: queued, no progress, no error, a fresh budget.
pub proof fn law_retry_starts_over(j: Job, retries: u32)
    ensures
        requeued(j, retries).status == JobStatus::Queued,
        requeued(j, retries).progress == blank_progress(),
        requeued(j, retries).error is None,
        requeued(j, retries).retries_left == retries,
        requeued(j, retries).id == j.id,
        requeued(j, retries).spec == j.spec,
{
}

/// Law: the concurrency setting always ends up between 1 and 5.
pub proof fn law_concurrency_in_range(v: usize)
    ensures
        1 <= clamp_concurrency(v) <= 5,
        1 <= v <= 5 ==> clamp_concurrency(v) == v,
{
}


proof fn lemma_ids_without_subset(ids: Seq<Seq<char>>, id: Seq<char>, x: Seq<char>)
    requires
        ids_without(ids, id).contains(x),
    ensures
        ids.contains(x),
        x != id,
    decreases ids.len(),
{
    if ids.len() > 0 {
        let prev = ids.drop_last();
        let rest = ids_without(prev, id);
        if ids.last() == id || x != ids.last() {
            if ids.last() != id {
                let k = choose|k: int| 0 <= k < rest.push(ids.last()).len() && rest.push(ids.last())[k] == x;
                assert(k < rest.len() && rest[k] == x);
            }
            lemma_ids_without_subset(prev, id, x);
            let k = choose|k: int| 0 <= k < prev.len() && prev[k] == x;
            assert(ids[k] == x);
        } else {
            assert(ids[ids.len() - 1] == x);
        }
    }
}

/// Law: the running ids never hold the same id twice: starting a job and
/// ending one both keep them distinct.
pub proof fn law_running_ids_stay_distinct(running: Seq<Seq<char>>, id: Seq<char>)
    requires
        running.no_duplicates(),
    ensures
        with_running(running, id).no_duplicates(),
        ids_without(running, id).no_duplicates(),
        !ids_without(running, id).contains(id),
    decreases running.len(),
{
    if !running.contains(id) {
        let w = running.push(id);
        assert forall|i: int, j: int| 0 <= i < w.len() && 0 <= j < w.len() && i != j implies w[i] != w[j] by {
            if i == running.len() {
                assert(w[j] == running[j]);
            } else if j == running.len() {
                assert(w[i] == running[i]);
            }
        }
    }
    if running.len() > 0 {
        let prev = running.drop_last();
        assert(prev.no_duplicates()) by {
            assert forall|i: int, j: int| 0 <= i < prev.len() && 0 <= j < prev.len() && i != j implies prev[i]
                != prev[j] by {
                assert(prev[i] == running[i] && prev[j] == running[j]);
            }
        }
        law_running_ids_stay_distinct(prev, id);
        let rest = ids_without(prev, id);
        let last = running.last();
        if last != id {
            assert(!rest.contains(last)) by {
                if rest.contains(last) {
                    lemma_ids_without_subset(prev, id, last);
                    let k = choose|k: int| 0 <= k < prev.len() && prev[k] == last;
                    assert(running[k] == running[running.len() - 1]);
                }
            }
            let w = rest.push(last);
            assert forall|i: int, j: int| 0 <= i < w.len() && 0 <= j < w.len() && i != j implies w[i] != w[j] by {
                if i == rest.len() {
                    assert(w[j] == rest[j]);
                } else if j == rest.len() {
                    assert(w[i] == rest[i]);
                } else {
                    assert(w[i] == rest[i] && w[j] == rest[j]);
                }
            }
            assert(!w.contains(id)) by {
                if w.contains(id) {
                    let k = choose|k: int| 0 <= k < w.len() && w[k] == id;
                    if k < rest.len() {
                        assert(rest[k] == id);
                    }
                }
            }
        }
    }
}
} // verus!
