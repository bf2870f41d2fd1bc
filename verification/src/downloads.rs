//! Downloads of videos: which links are taken, and how a job goes on.

use vstd::prelude::*;
use vstd::string::StrSliceExecFns;
use vstd::string::StringExecFns;

use crate::agent_jobs;
use crate::agents;
use crate::config::Config;
use crate::config::ConfigView;
use crate::decimal;
use crate::html;
use crate::outside;
use crate::paths;
use crate::text;
use crate::text::CharSet;
use crate::times;
use crate::times::Moment;
use crate::web;
use crate::web::Reply;
use crate::web::ReplyView;
use crate::web::UrlParts;
use crate::web::UrlView;

verus! {

/// How many jobs the page lists.
pub const LISTED_JOBS: usize = 12;

// ---------------------------------------------------------------------------
// Links
// ---------------------------------------------------------------------------

/// The link with a scheme, which is the usual one where none was typed.
pub open spec fn with_scheme(value: Seq<char>) -> Seq<char> {
    if text::has_text(value, "://"@) {
        value
    } else {
        "https://"@ + value
    }
}

/// A host of videos, in lower case.
pub open spec fn video_host(host: Seq<char>) -> bool {
    host == "youtu.be"@ || host == "youtube.com"@ || host == "youtube-nocookie.com"@
        || text::has_suffix(host, ".youtube.com"@)
}

pub open spec fn host_of(parts: UrlView) -> Seq<char> {
    match parts.host {
        Some(host) => host,
        None => ""@,
    }
}

pub open spec fn web_scheme(scheme: Seq<char>) -> bool {
    scheme == "http"@ || scheme == "https"@
}

/// The link that a text means, where it leads to a host of videos.
pub open spec fn video_link(raw: Seq<char>) -> Option<Seq<char>> {
    let value = text::trimmed(raw);
    if value.len() == 0 {
        None
    } else {
        match outside::url_parts(with_scheme(value)) {
            None => None,
            Some(parts) => if web_scheme(parts.scheme) && video_host(
                outside::lower_case(text::trimmed_end(host_of(parts), CharSet::Only('.'))),
            ) {
                Some(with_scheme(value))
            } else {
                None
            },
        }
    }
}

/// Whether a host, in lower case, is one of videos.
pub fn is_video_host(host: &str) -> (res: bool)
    ensures
        res == video_host(host@),
{
    text::same(host, "youtu.be") || text::same(host, "youtube.com") || text::same(
        host,
        "youtube-nocookie.com",
    ) || text::ends_with(host, ".youtube.com")
}

/// Whether a link with a scheme and a host, in lower case, is taken.
pub fn takes_link(scheme: &str, host: &str) -> (res: bool)
    ensures
        res == (web_scheme(scheme@) && video_host(host@)),
{
    (text::same(scheme, "http") || text::same(scheme, "https")) && is_video_host(host)
}

/// The link with a scheme.
pub fn add_scheme(value: &str) -> (res: String)
    ensures
        res@ == with_scheme(value@),
{
    if text::contains(value, "://") {
        value.to_owned()
    } else {
        let mut out = String::from_str("https://");
        out.append(value);
        out
    }
}

pub fn normalize_youtube_url(raw: &str) -> (res: Result<String, ()>)
    ensures
        match res {
            Ok(link) => video_link(raw@) == Some(link@),
            Err(_) => video_link(raw@) is None,
        },
{
    let value = text::trim(raw);
    if value.unicode_len() == 0 {
        return Err(());
    }
    let link = add_scheme(value);
    let parts = match outside::parse_url(link.as_str()) {
        Some(parts) => parts,
        None => {
            return Err(());
        },
    };
    let host = match &parts.host {
        Some(host) => host.as_str(),
        None => "",
    };
    let host = outside::to_lower_case(text::trim_end(host, CharSet::Only('.')));
    if takes_link(parts.scheme.as_str(), host.as_str()) {
        Ok(link)
    } else {
        Err(())
    }
}

/// The first value of a key in a query.
pub open spec fn query_value(query: Seq<(Seq<char>, Seq<char>)>, key: Seq<char>) -> Option<Seq<char>>
    decreases query.len(),
{
    if query.len() == 0 {
        None
    } else if query[0].0 == key {
        Some(query[0].1)
    } else {
        query_value(query.skip(1), key)
    }
}

/// The video that a link leads to, given its host in lower case.
pub open spec fn video_id(parts: UrlView, host: Seq<char>) -> Option<Seq<char>> {
    match (host == "youtu.be"@, parts.segments) {
        (true, Some(segments)) => if segments.len() > 0 {
            Some(segments[0])
        } else {
            None
        },
        _ => if host == "youtube.com"@ || text::has_suffix(host, ".youtube.com"@) {
            query_value(parts.query, "v"@)
        } else {
            None
        },
    }
}

/// The key under which the file of a link is kept, given the parts of the link
/// and its host in lower case.
pub open spec fn key_of(link: Seq<char>, parts: Option<UrlView>, host: Seq<char>) -> Seq<char> {
    match parts {
        Some(parts) => match video_id(parts, host) {
            Some(id) => "youtube:"@ + id,
            None => "url:"@ + link,
        },
        None => "url:"@ + link,
    }
}

/// The key under which the file of a link is kept.
pub open spec fn cache_key(link: Seq<char>) -> Seq<char> {
    let parts = outside::url_parts(link);
    let host = match parts {
        Some(parts) => outside::lower_case(host_of(parts)),
        None => ""@,
    };
    key_of(link, parts, host)
}

fn find_value<'a>(query: &'a Vec<(String, String)>, key: &str) -> (res: Option<&'a str>)
    ensures
        text::opt_str(res) == query_value(web::pair_views(query@), key@),
{
    let ghost all = web::pair_views(query@);
    let mut i: usize = 0;
    assert(all.skip(0) =~= all);
    while i < query.len()
        invariant
            i <= query@.len(),
            all == web::pair_views(query@),
            query_value(all.skip(i as int), key@) == query_value(all, key@),
        decreases query@.len() - i,
    {
        assert(all.skip(i as int)[0] == all[i as int]);
        assert(all.skip(i as int).skip(1) =~= all.skip(i + 1));
        if text::same(query[i].0.as_str(), key) {
            return Some(query[i].1.as_str());
        }
        i += 1;
    }
    None
}

/// The video that a link leads to, given its host in lower case.
pub fn find_video(parts: &UrlParts, host: &str) -> (res: Option<String>)
    ensures
        text::opt_text(res) == video_id(parts@, host@),
{
    if text::same(host, "youtu.be") {
        proof {
            reveal_strlit("youtu.be");
            reveal_strlit("youtube.com");
            reveal_strlit(".youtube.com");
            assert("youtu.be"@.len() != "youtube.com"@.len());
        }
        return match &parts.segments {
            Some(segments) => if segments.len() > 0 {
                assert(text::texts(segments@)[0] == segments@[0]@);
                Some(segments[0].clone())
            } else {
                None
            },
            None => None,
        };
    }
    if text::same(host, "youtube.com") || text::ends_with(host, ".youtube.com") {
        return match find_value(&parts.query, "v") {
            Some(id) => Some(id.to_owned()),
            None => None,
        };
    }
    None
}

/// The key under which the file of a link is kept, given the parts of the link
/// and its host in lower case.
pub fn cache_key_with(link: &str, parts: Option<&UrlParts>, host: &str) -> (res: String)
    ensures
        res@ == key_of(link@, match parts {
            Some(parts) => Some(parts@),
            None => None,
        }, host@),
{
    let id = match parts {
        Some(parts) => find_video(parts, host),
        None => None,
    };
    match id {
        Some(id) => {
            let mut out = String::from_str("youtube:");
            out.append(id.as_str());
            out
        },
        None => {
            let mut out = String::from_str("url:");
            out.append(link);
            out
        },
    }
}

pub fn cache_key_for_url(url: &str) -> (res: String)
    ensures
        res@ == cache_key(url@),
{
    match outside::parse_url(url) {
        Some(parts) => {
            let host = match &parts.host {
                Some(host) => host.as_str(),
                None => "",
            };
            let host = outside::to_lower_case(host);
            cache_key_with(url, Some(&parts), host.as_str())
        },
        None => cache_key_with(url, None, ""),
    }
}

// ---------------------------------------------------------------------------
// Jobs
// ---------------------------------------------------------------------------

/// How far a job is.
#[derive(Clone, Copy, Debug, PartialEq, Eq, Structural)]
pub enum JobStatus {
    Queued,
    Downloading,
    Complete,
    Error,
}

impl JobStatus {
    pub open spec fn told(self) -> Seq<char> {
        match self {
            JobStatus::Queued => "queued"@,
            JobStatus::Downloading => "downloading"@,
            JobStatus::Complete => "complete"@,
            JobStatus::Error => "error"@,
        }
    }

    pub fn text(&self) -> (res: &'static str)
        ensures
            res@ == self.told(),
    {
        match self {
            JobStatus::Queued => "queued",
            JobStatus::Downloading => "downloading",
            JobStatus::Complete => "complete",
            JobStatus::Error => "error",
        }
    }

    /// A job that is over.
    pub open spec fn over(self) -> bool {
        self == JobStatus::Complete || self == JobStatus::Error
    }
}

/// A download.
#[derive(Clone, Debug)]
pub struct Job {
    pub id: String,
    pub url: String,
    pub cache_key: String,
    pub created_at: Moment,
    pub status: JobStatus,
    pub progress: String,
    pub filename: Option<String>,
    pub file_path: Option<String>,
    pub error: Option<String>,
    pub log: Vec<String>,
}

#[verifier::ext_equal]
pub struct JobView {
    pub id: Seq<char>,
    pub url: Seq<char>,
    pub cache_key: Seq<char>,
    pub created_at: Moment,
    pub status: JobStatus,
    pub progress: Seq<char>,
    pub filename: Option<Seq<char>>,
    pub file_path: Option<Seq<char>>,
    pub error: Option<Seq<char>>,
    pub log: Seq<Seq<char>>,
}

impl View for Job {
    type V = JobView;

    open spec fn view(&self) -> JobView {
        JobView {
            id: self.id@,
            url: self.url@,
            cache_key: self.cache_key@,
            created_at: self.created_at,
            status: self.status,
            progress: self.progress@,
            filename: text::opt_text(self.filename),
            file_path: text::opt_text(self.file_path),
            error: text::opt_text(self.error),
            log: text::texts(self.log@),
        }
    }
}

impl JobView {
    /// A job that is complete has its file, and one that failed says why.
    pub open spec fn well_formed(self) -> bool {
        &&& self.status == JobStatus::Complete ==> self.file_path is Some && self.filename is Some
        &&& self.status == JobStatus::Error ==> self.error is Some
        &&& self.log.len() <= agents::LOG_LINES
    }
}

/// A job that waits.
pub open spec fn new_job(id: Seq<char>, url: Seq<char>, key: Seq<char>, now: Moment) -> JobView {
    JobView {
        id,
        url,
        cache_key: key,
        created_at: now,
        status: JobStatus::Queued,
        progress: ""@,
        filename: None,
        file_path: None,
        error: None,
        log: Seq::empty(),
    }
}

/// A job whose file is there already.
pub open spec fn cached_job(job: JobView, path: Seq<char>, filename: Seq<char>) -> JobView {
    JobView {
        status: JobStatus::Complete,
        progress: "100%"@,
        file_path: Some(path),
        filename: Some(filename),
        log: job.log.push("Using cached file"@),
        ..job
    }
}

/// The id of a job, cut from a longer one.
pub open spec fn job_id(id: Seq<char>) -> bool {
    id.len() == 12 && forall|i: int| 0 <= i < 12 ==> outside::is_hex_digit(#[trigger] id[i])
}

fn random_job_id() -> (res: String)
    ensures
        job_id(res@),
{
    let id = outside::random_id();
    let short = text::first_chars(id.as_str(), 12);
    assert forall|i: int| 0 <= i < 12 implies outside::is_hex_digit(#[trigger] short@[i]) by {
        assert(short@[i] == id@[i]);
    }
    short
}

impl Job {
    /// A job that waits, with a given id, since `now`.
    pub fn with_id(id: String, url: String, cache_key: String, now: Moment) -> (res: Job)
        ensures
            res@ == new_job(id@, url@, cache_key@, now),
            res@.well_formed(),
    {
        let res = Job {
            id,
            url,
            cache_key,
            created_at: now,
            status: JobStatus::Queued,
            progress: "".to_owned(),
            filename: None,
            file_path: None,
            error: None,
            log: Vec::new(),
        };
        assert(res@.log =~= Seq::empty());
        res
    }

    /// A job that waits since now, with an id of its own.
    pub fn new(url: String, cache_key: String) -> (res: Job)
        ensures
            job_id(res@.id),
            res@.created_at.valid(),
            res@ == new_job(res@.id, url@, cache_key@, res@.created_at),
            res@.well_formed(),
    {
        let id = random_job_id();
        let now = times::now();
        Job::with_id(id, url, cache_key, now)
    }

    /// A job whose file is there already, with an id of its own.
    pub fn with_cached(url: String, cache_key: String, file_path: String, filename: String) -> (res: Job)
        ensures
            job_id(res@.id),
            res@.created_at.valid(),
            res@ == cached_job(
                new_job(res@.id, url@, cache_key@, res@.created_at),
                file_path@,
                filename@,
            ),
            res@.well_formed(),
    {
        let mut job = Job::new(url, cache_key);
        job.status = JobStatus::Complete;
        job.progress = "100%".to_owned();
        job.file_path = Some(file_path);
        job.filename = Some(filename);
        text::push_text(&mut job.log, "Using cached file".to_owned());
        job
    }
}

/// A job with one more line in its log.
pub fn push_log(job: &mut Job, line: &str)
    ensures
        final(job)@ == (JobView { log: agents::with_line(old(job)@.log, line@), ..old(job)@ }),
        old(job)@.well_formed() ==> final(job)@.well_formed(),
{
    proof {
        if job@.well_formed() {
            agent_jobs::logs_stay_short(job@.log, line@);
        }
    }
    agents::push_line(&mut job.log, line);
}

/// The last word of a text.
pub open spec fn last_word(s: Seq<char>) -> Option<Seq<char>> {
    if text::words(s).len() == 0 {
        None
    } else {
        Some(text::words(s).last())
    }
}

/// The share that a line of output tells: the word before the percent sign
/// that follows the mark, where it is made of digits and dots.
pub open spec fn progress_in(line: Seq<char>) -> Option<Seq<char>> {
    match text::first_text(line, "[download]"@) {
        None => None,
        Some(i) => {
            let tail = line.skip(i + "[download]"@.len());
            match text::first_char(tail, '%') {
                None => None,
                Some(k) => match last_word(tail.take(k)) {
                    Some(number) => if text::all_in(number, CharSet::DigitDot) {
                        Some(number + "%"@)
                    } else {
                        None
                    },
                    None => None,
                },
            }
        },
    }
}

pub fn progress_from_line(line: &str) -> (res: Option<String>)
    ensures
        text::opt_text(res) == progress_in(line@),
{
    let at = match text::find(line, "[download]") {
        Some(at) => at,
        None => {
            return None;
        },
    };
    let end = line.unicode_len();
    let start = at + "[download]".unicode_len();
    let tail = line.substring_char(start, end);
    assert(tail@ =~= line@.skip(start as int));
    let percent = match text::find_char(tail, '%') {
        Some(percent) => percent,
        None => {
            return None;
        },
    };
    let head = tail.substring_char(0, percent);
    assert(head@ =~= tail@.take(percent as int));
    let words = text::split_words(head);
    assert(text::texts(words@).len() == words@.len());
    if words.len() == 0 {
        return None;
    }
    let number = words[words.len() - 1].as_str();
    assert(text::texts(words@)[words@.len() - 1] == number@);
    if text::all_within(number, CharSet::DigitDot) {
        let mut out = number.to_owned();
        out.append("%");
        Some(out)
    } else {
        None
    }
}

/// A job that waits for its turn.
pub fn requeue(job: &mut Job)
    ensures
        final(job)@ == (JobView { status: JobStatus::Queued, progress: ""@, ..old(job)@ }),
        old(job)@.well_formed() ==> final(job)@.well_formed(),
{
    job.status = JobStatus::Queued;
    job.progress = "".to_owned();
}

/// A job whose turn has come.
pub open spec fn started(job: JobView) -> JobView {
    JobView {
        status: JobStatus::Downloading,
        progress: "starting"@,
        log: agents::with_line(job.log, "Starting download"@),
        ..job
    }
}

pub fn start_download(job: &mut Job)
    ensures
        final(job)@ == started(old(job)@),
        old(job)@.well_formed() ==> final(job)@.well_formed(),
{
    job.status = JobStatus::Downloading;
    job.progress = "starting".to_owned();
    push_log(job, "Starting download");
}

/// A job after a line of the downloader's output.
pub open spec fn after_line(job: JobView, line: Seq<char>) -> JobView {
    JobView {
        progress: match progress_in(line) {
            Some(progress) => progress,
            None => job.progress,
        },
        log: agents::with_line(job.log, line),
        ..job
    }
}

pub fn note_output(job: &mut Job, line: &str)
    ensures
        final(job)@ == after_line(old(job)@, line@),
        old(job)@.well_formed() ==> final(job)@.well_formed(),
{
    if let Some(progress) = progress_from_line(line) {
        job.progress = progress;
    }
    push_log(job, line);
}

/// How a download ended.
pub enum DownloadEnd {
    /// Its folder could not be made, and why.
    NoFolder(String),
    /// The downloader did not start, and why.
    NotStarted(String),
    /// Its end could not be seen, and why.
    Lost(String),
    /// It failed, with its exit code.
    Failed(Option<i32>),
    /// It left no file.
    NoFile,
    /// It left a file of a name at a path.
    Done(String, String),
}

/// Why a download failed, if it did.
pub open spec fn failure_of(end: DownloadEnd) -> Option<Seq<char>> {
    match end {
        DownloadEnd::NoFolder(why) => Some("Could not create download directory: "@ + why@),
        DownloadEnd::NotStarted(why) => Some("Could not start yt-dlp: "@ + why@),
        DownloadEnd::Lost(why) => Some("yt-dlp wait failed: "@ + why@),
        DownloadEnd::Failed(code) => Some(
            "yt-dlp exited with code "@ + decimal::decimal(
                match code {
                    Some(code) => code as int,
                    None => -1,
                },
            ),
        ),
        DownloadEnd::NoFile => Some("Download finished but no file was found."@),
        DownloadEnd::Done(_, _) => None,
    }
}

/// A job at its end.
pub open spec fn ended(job: JobView, end: DownloadEnd) -> JobView {
    match end {
        DownloadEnd::Done(path, filename) => JobView {
            status: JobStatus::Complete,
            progress: "100%"@,
            file_path: Some(path@),
            filename: Some(filename@),
            log: agents::with_line(job.log, "Download ready"@),
            ..job
        },
        _ => JobView { status: JobStatus::Error, error: failure_of(end), ..job },
    }
}

/// The file that later requests for the same video are given: its path and its
/// name, where the download is done.
pub open spec fn remembered(end: DownloadEnd) -> Option<(Seq<char>, Seq<char>)> {
    match end {
        DownloadEnd::Done(path, filename) => Some((path@, filename@)),
        _ => None,
    }
}

pub fn file_to_remember(end: &DownloadEnd) -> (res: Option<(&str, &str)>)
    ensures
        match res {
            Some((path, filename)) => remembered(*end) == Some((path@, filename@)),
            None => remembered(*end) is None,
        },
{
    match end {
        DownloadEnd::Done(path, filename) => Some((path.as_str(), filename.as_str())),
        _ => None,
    }
}

fn fail_job(job: &mut Job, error: String)
    ensures
        final(job)@ == (JobView { status: JobStatus::Error, error: Some(error@), ..old(job)@ }),
{
    job.status = JobStatus::Error;
    job.error = Some(error);
}

fn because(head: &str, why: &str) -> (res: String)
    ensures
        res@ == head@ + why@,
{
    let mut out = head.to_owned();
    out.append(why);
    out
}

/// Takes note of the end of a download.
pub fn finish_download(job: &mut Job, end: &DownloadEnd)
    ensures
        final(job)@ == ended(old(job)@, *end),
        old(job)@.well_formed() ==> final(job)@.well_formed(),
{
    match end {
        DownloadEnd::NoFolder(why) => {
            fail_job(job, because("Could not create download directory: ", why.as_str()));
        },
        DownloadEnd::NotStarted(why) => {
            fail_job(job, because("Could not start yt-dlp: ", why.as_str()));
        },
        DownloadEnd::Lost(why) => {
            fail_job(job, because("yt-dlp wait failed: ", why.as_str()));
        },
        DownloadEnd::Failed(code) => {
            let code: i64 = match code {
                Some(code) => *code as i64,
                None => -1,
            };
            let number = decimal::integer_text(code);
            fail_job(job, because("yt-dlp exited with code ", number.as_str()));
        },
        DownloadEnd::NoFile => {
            fail_job(job, "Download finished but no file was found.".to_owned());
        },
        DownloadEnd::Done(path, filename) => {
            job.status = JobStatus::Complete;
            job.progress = "100%".to_owned();
            job.file_path = Some(path.clone());
            job.filename = Some(filename.clone());
            push_log(job, "Download ready");
        },
    }
}

/// The folder of a job.
pub fn job_folder(config: &Config, job: &Job) -> (res: String)
    ensures
        res@ == paths::under(config@.download_dir, job@.id),
{
    paths::join(config.download_dir.as_str(), job.id.as_str())
}

/// The arguments of the downloader.
pub open spec fn download_args_of(config: ConfigView, url: Seq<char>, folder: Seq<char>) -> Seq<
    Seq<char>,
> {
    seq![
        "--no-playlist"@,
        "--newline"@,
        "--no-part"@,
        "--restrict-filenames"@,
        "--windows-filenames"@,
        "--no-mtime"@,
        "--socket-timeout"@,
        "30"@,
        "--retries"@,
        "3"@,
        "--fragment-retries"@,
        "3"@,
        "-f"@,
        "bv*[ext=mp4][vcodec^=avc1][height<=1080]+ba[ext=m4a]/bv*[ext=mp4][height<=1080]+ba[ext=m4a]/b[ext=mp4][vcodec^=avc1][height<=720]/b[ext=mp4][height<=720]/b[ext=mp4]"@,
        "--merge-output-format"@,
        "mp4"@,
    ] + match config.js_runtime {
        Some(runtime) => seq!["--js-runtimes"@, "node:"@ + runtime],
        None => Seq::empty(),
    } + seq!["-o"@, paths::under(folder, "%(title).180B [%(id)s].%(ext)s"@), url]
}

pub fn download_args(config: &Config, job: &Job, folder: &str) -> (res: Vec<String>)
    ensures
        text::texts(res@) == download_args_of(config@, job@.url, folder@),
{
    let mut args: Vec<String> = Vec::new();
    text::push_text(&mut args, "--no-playlist".to_owned());
    text::push_text(&mut args, "--newline".to_owned());
    text::push_text(&mut args, "--no-part".to_owned());
    text::push_text(&mut args, "--restrict-filenames".to_owned());
    text::push_text(&mut args, "--windows-filenames".to_owned());
    text::push_text(&mut args, "--no-mtime".to_owned());
    text::push_text(&mut args, "--socket-timeout".to_owned());
    text::push_text(&mut args, "30".to_owned());
    text::push_text(&mut args, "--retries".to_owned());
    text::push_text(&mut args, "3".to_owned());
    text::push_text(&mut args, "--fragment-retries".to_owned());
    text::push_text(&mut args, "3".to_owned());
    text::push_text(&mut args, "-f".to_owned());
    text::push_text(
        &mut args,
        "bv*[ext=mp4][vcodec^=avc1][height<=1080]+ba[ext=m4a]/bv*[ext=mp4][height<=1080]+ba[ext=m4a]/b[ext=mp4][vcodec^=avc1][height<=720]/b[ext=mp4][height<=720]/b[ext=mp4]".to_owned(),
    );
    text::push_text(&mut args, "--merge-output-format".to_owned());
    text::push_text(&mut args, "mp4".to_owned());
    if let Some(runtime) = &config.js_runtime {
        text::push_text(&mut args, "--js-runtimes".to_owned());
        text::push_text(&mut args, because("node:", runtime.as_str()));
    }
    text::push_text(&mut args, "-o".to_owned());
    text::push_text(&mut args, paths::join(folder, "%(title).180B [%(id)s].%(ext)s"));
    text::push_text(&mut args, job.url.clone());
    assert(text::texts(args@) =~= download_args_of(config@, job@.url, folder@));
    args
}

/// A file in the folder of a job: its size and the time of its last change, as
/// far as they are known.
pub struct FolderFile {
    pub path: String,
    pub is_file: bool,
    pub size: u64,
    pub modified: Option<Moment>,
}

/// A file that a download can have left.
pub open spec fn left_by_download(file: FolderFile) -> bool {
    &&& file.is_file
    &&& (paths::extension_of(file.path@) matches Some(ext) ==> ext != "json"@ && ext != "part"@ && ext
        != "ytdl"@ && ext != "temp"@ && ext != "tmp"@)
    &&& !text::has_suffix(file.path@, ".part"@)
}

/// The one file is larger than the other, or as large and was changed later.
pub open spec fn outranks(a: FolderFile, b: FolderFile) -> bool {
    a.size > b.size || (a.size == b.size && match (a.modified, b.modified) {
        (Some(x), Some(y)) => y.earlier(x),
        (Some(_), None) => true,
        _ => false,
    })
}

/// The file that a download left: the largest; of those the one that was
/// changed last, and of those the last one.
pub open spec fn downloaded(files: Seq<FolderFile>) -> Option<FolderFile>
    decreases files.len(),
{
    if files.len() == 0 {
        None
    } else {
        let before = downloaded(files.drop_last());
        if !left_by_download(files.last()) {
            before
        } else {
            match before {
                Some(best) => if outranks(best, files.last()) {
                    before
                } else {
                    Some(files.last())
                },
                None => Some(files.last()),
            }
        }
    }
}

fn can_be_left(file: &FolderFile) -> (res: bool)
    ensures
        res == left_by_download(*file),
{
    if !file.is_file {
        return false;
    }
    if let Some(ext) = paths::extension(file.path.as_str()) {
        let ext = ext.as_str();
        if text::same(ext, "json") || text::same(ext, "part") || text::same(ext, "ytdl")
            || text::same(ext, "temp") || text::same(ext, "tmp") {
            return false;
        }
    }
    !text::ends_with(file.path.as_str(), ".part")
}

fn is_outranking(a: &FolderFile, b: &FolderFile) -> (res: bool)
    ensures
        res == outranks(*a, *b),
{
    if a.size != b.size {
        return a.size > b.size;
    }
    match (&a.modified, &b.modified) {
        (Some(x), Some(y)) => y.is_before(x),
        (Some(_), None) => true,
        _ => false,
    }
}

pub fn find_downloaded_file(files: &Vec<FolderFile>) -> (res: Option<&FolderFile>)
    ensures
        match res {
            Some(file) => downloaded(files@) == Some(*file),
            None => downloaded(files@) is None,
        },
{
    let mut best: Option<usize> = None;
    let mut i: usize = 0;
    while i < files.len()
        invariant
            i <= files@.len(),
            match best {
                Some(k) => k < i && downloaded(files@.take(i as int)) == Some(files@[k as int]),
                None => downloaded(files@.take(i as int)) is None,
            },
        decreases files@.len() - i,
    {
        assert(files@.take(i + 1).drop_last() =~= files@.take(i as int));
        if can_be_left(&files[i]) {
            match best {
                Some(k) => {
                    if !is_outranking(&files[k], &files[i]) {
                        best = Some(i);
                    }
                },
                None => {
                    best = Some(i);
                },
            }
        }
        i += 1;
    }
    assert(files@.take(i as int) =~= files@);
    match best {
        Some(k) => Some(&files[k]),
        None => None,
    }
}

/// The name under which a downloaded file is offered.
pub fn downloaded_name(path: &str) -> (res: String)
    ensures
        res@ == match paths::name_of(path@) {
            Some(name) => name,
            None => ""@,
        },
{
    match paths::file_name(path) {
        Some(name) => name,
        None => "".to_owned(),
    }
}

/// Whether a file that is kept can be used: it lies in the folder of downloads.
pub fn cache_usable(path: Option<&str>, root: Option<&str>, is_file: bool) -> (res: bool)
    ensures
        res == (text::opt_str(path) matches Some(p) && text::opt_str(root) matches Some(r)
            && paths::within(p, r) && is_file),
{
    match (path, root) {
        (Some(path), Some(root)) => paths::starts_with(path, root) && is_file,
        _ => false,
    }
}

// ---------------------------------------------------------------------------
// Cleaning up
// ---------------------------------------------------------------------------

/// The point in time a number of hours before. A leap second becomes the
/// second after it.
pub open spec fn hours_before(now: Moment, hours: int) -> Moment {
    if now.nanos >= 1_000_000_000 {
        Moment {
            seconds: (now.seconds + 1 - hours * 3600) as i64,
            nanos: (now.nanos - 1_000_000_000) as u32,
        }
    } else {
        Moment { seconds: (now.seconds - hours * 3600) as i64, nanos: now.nanos }
    }
}

/// The time before which finished downloads are forgotten.
pub fn cleanup_cutoff(now: &Moment, hours: i64) -> (res: Moment)
    requires
        now.valid(),
        0 < hours,
        now.seconds - hours * 3600 >= times::FIRST_SECOND,
    ensures
        res == hours_before(*now, hours as int),
{
    if now.nanos >= 1_000_000_000 {
        Moment { seconds: now.seconds + 1 - hours * 3600, nanos: now.nanos - 1_000_000_000 }
    } else {
        Moment { seconds: now.seconds - hours * 3600, nanos: now.nanos }
    }
}

/// Whether the calendar reaches so many hours back.
pub fn cutoff_exists(now: &Moment, hours: i64) -> (res: bool)
    requires
        now.valid(),
        0 < hours,
    ensures
        res == (now.seconds - hours * 3600 >= times::FIRST_SECOND),
{
    let reach: i64 = now.seconds - times::FIRST_SECOND;
    hours <= reach / 3600
}

/// A job is kept while it goes on, and for a while after.
pub open spec fn kept(job: JobView, cutoff: Moment) -> bool {
    !job.created_at.earlier(cutoff) || !job.status.over()
}

pub fn keeps_job(job: &Job, cutoff: &Moment) -> (res: bool)
    ensures
        res == kept(job@, *cutoff),
{
    let over = match job.status {
        JobStatus::Complete => true,
        JobStatus::Error => true,
        _ => false,
    };
    !job.created_at.is_before(cutoff) || !over
}

/// A kept file is forgotten when its time, where it can be read, lies before the cutoff.
pub fn stale_since(created: Option<Moment>, now: &Moment, cutoff: &Moment) -> (res: bool)
    ensures
        res == match created {
            Some(created) => created.earlier(*cutoff),
            None => now.earlier(*cutoff),
        },
{
    match created {
        Some(created) => created.is_before(cutoff),
        None => now.is_before(cutoff),
    }
}

pub fn is_stale(created: &str, now: &Moment, cutoff: &Moment) -> (res: bool)
    ensures
        res == match times::read_moment(created@) {
            Some(created) => created.earlier(*cutoff),
            None => now.earlier(*cutoff),
        },
{
    stale_since(outside::read_rfc3339(created), now, cutoff)
}

/// How many permits are missing for so many downloads at a time.
pub fn missing_permits(current: usize, wanted: usize) -> (res: usize)
    ensures
        res == if wanted > current {
            wanted - current
        } else {
            0
        },
{
    if wanted > current {
        wanted - current
    } else {
        0
    }
}

// ---------------------------------------------------------------------------
// The file that is handed out
// ---------------------------------------------------------------------------

/// What a request for the file of a job is answered; nothing where the file is
/// looked for.
pub open spec fn job_refusal(job: Option<JobView>) -> Option<ReplyView> {
    match job {
        None => Some(ReplyView::Plain(404, "unknown job"@)),
        Some(job) => if job.status != JobStatus::Complete {
            Some(ReplyView::Plain(409, "not ready"@))
        } else if job.file_path is None {
            Some(ReplyView::Plain(404, "missing file"@))
        } else {
            None
        },
    }
}

pub fn refuse_job_file(job: Option<&Job>) -> (res: Option<Reply>)
    ensures
        web::opt_reply(res) == job_refusal(match job {
            Some(job) => Some(job@),
            None => None,
        }),
{
    match job {
        None => Some(web::plain(404, "unknown job")),
        Some(job) => match job.status {
            JobStatus::Complete => if job.file_path.is_none() {
                Some(web::plain(404, "missing file"))
            } else {
                None
            },
            _ => Some(web::plain(409, "not ready")),
        },
    }
}

/// The name that a browser saves a file under.
pub open spec fn saved_name(filename: Seq<char>) -> Seq<char> {
    let name = text::kept(paths::safe_name(filename), CharSet::Printable);
    if name.len() == 0 {
        "download.mp4"@
    } else {
        name
    }
}

pub fn download_disposition(filename: &str) -> (res: String)
    ensures
        res@ == "attachment; filename=\""@ + saved_name(filename@) + "\""@,
{
    let name = text::keep(paths::sanitize_filename(filename).as_str(), CharSet::Printable);
    let mut out = String::from_str("attachment; filename=\"");
    if name.as_str().unicode_len() == 0 {
        out.append("download.mp4");
    } else {
        out.append(name.as_str());
    }
    out.append("\"");
    out
}

/// The media type of a file, by its name.
pub fn file_media_type(path: &str) -> (res: String)
    ensures
        res@ == outside::media_type(path@),
{
    outside::guess_media_type(path)
}

// ---------------------------------------------------------------------------
// Pages
// ---------------------------------------------------------------------------

pub open spec fn job_link(job: JobView) -> Seq<char> {
    "<a class=\"job\" href=\"/downloads/jobs/"@ + html::escaped(job.id) + "\"><strong>"@
        + html::escaped(
        match job.filename {
            Some(name) => name,
            None => job.status.told(),
        },
    ) + "</strong><span>"@ + html::escaped(job.progress) + "</span></a>"@
}

/// The last jobs of a list, the last one first.
pub open spec fn job_links(jobs: Seq<JobView>, count: nat) -> Seq<char>
    decreases count,
{
    if jobs.len() == 0 || count == 0 {
        ""@
    } else {
        job_link(jobs.last()) + job_links(jobs.drop_last(), (count - 1) as nat)
    }
}

pub open spec fn downloads_body(links: Seq<char>) -> Seq<char> {
    "\n<nav><a href=\"/\">Plugdeck</a><strong>YTP Downloader</strong></nav>\n<main class=\"download\">\n  <form action=\"/downloads\" method=\"post\" class=\"download-form\">\n    <input name=\"url\" type=\"url\" inputmode=\"url\" placeholder=\"https://youtu.be/...\" required autofocus>\n    <button type=\"submit\">Download Video</button>\n  </form>\n  <section class=\"jobs\">"@
        + links + "</section>\n</main>\n"@
}

pub open spec fn job_views(jobs: Seq<Job>) -> Seq<JobView> {
    jobs.map_values(|job: Job| job@)
}

fn job_link_html(job: &Job) -> (res: String)
    ensures
        res@ == job_link(job@),
{
    let name = match &job.filename {
        Some(name) => name.as_str(),
        None => job.status.text(),
    };
    let mut out = String::from_str("<a class=\"job\" href=\"/downloads/jobs/");
    out.append(html::html_escape(job.id.as_str()).as_str());
    out.append("\"><strong>");
    out.append(html::html_escape(name).as_str());
    out.append("</strong><span>");
    out.append(html::html_escape(job.progress.as_str()).as_str());
    out.append("</span></a>");
    out
}

fn job_links_html(jobs: &Vec<Job>, end: usize, count: usize) -> (res: String)
    requires
        end <= jobs@.len(),
    ensures
        res@ == job_links(job_views(jobs@).take(end as int), count as nat),
    decreases count,
{
    if end == 0 || count == 0 {
        return "".to_owned();
    }
    let ghost all = job_views(jobs@);
    assert(all.take(end as int).drop_last() =~= all.take(end - 1));
    let mut out = job_link_html(&jobs[end - 1]);
    out.append(job_links_html(jobs, end - 1, count - 1).as_str());
    out
}

/// The page of downloads.
pub fn downloads_page(jobs: &Vec<Job>) -> (res: Reply)
    ensures
        res@ == ReplyView::Page(
            "YTP Downloader"@,
            downloads_body(job_links(job_views(jobs@), LISTED_JOBS as nat)),
        ),
{
    let ghost all = job_views(jobs@);
    assert(all.take(all.len() as int) =~= all);
    let links = job_links_html(jobs, jobs.len(), LISTED_JOBS);
    let mut out = String::from_str(
        "\n<nav><a href=\"/\">Plugdeck</a><strong>YTP Downloader</strong></nav>\n<main class=\"download\">\n  <form action=\"/downloads\" method=\"post\" class=\"download-form\">\n    <input name=\"url\" type=\"url\" inputmode=\"url\" placeholder=\"https://youtu.be/...\" required autofocus>\n    <button type=\"submit\">Download Video</button>\n  </form>\n  <section class=\"jobs\">",
    );
    out.append(links.as_str());
    out.append("</section>\n</main>\n");
    Reply::Page("YTP Downloader".to_owned(), out)
}

/// What a link is answered that is not taken.
pub fn refused_link_page() -> (res: Reply)
    ensures
        res@ == ReplyView::Page(
            "YTP Downloader"@,
            "<nav><a href=\"/\">Plugdeck</a><strong>YTP Downloader</strong></nav><main class=\"download\"><p class=\"error\">Only YouTube links are accepted.</p><form action=\"/downloads\" method=\"post\" class=\"download-form\"><input name=\"url\" type=\"url\" inputmode=\"url\" required autofocus><button type=\"submit\">Download Video</button></form></main>"@,
        ),
{
    Reply::Page(
        "YTP Downloader".to_owned(),
        "<nav><a href=\"/\">Plugdeck</a><strong>YTP Downloader</strong></nav><main class=\"download\"><p class=\"error\">Only YouTube links are accepted.</p><form action=\"/downloads\" method=\"post\" class=\"download-form\"><input name=\"url\" type=\"url\" inputmode=\"url\" required autofocus><button type=\"submit\">Download Video</button></form></main>".to_owned(),
    )
}

/// Where a job is shown.
pub fn job_location(job: &Job) -> (res: String)
    ensures
        res@ == "/downloads/jobs/"@ + job@.id,
{
    because("/downloads/jobs/", job.id.as_str())
}

pub const JOB_PAGE_SCRIPT: &'static str = r#"/status";
function width(progress) {
  const match = String(progress || "").match(/([0-9.]+)%/);
  if (!match) return "8%";
  return Math.max(4, Math.min(100, Number(match[1]))) + "%";
}
async function poll() {
  const response = await fetch(statusUrl, {cache: "no-store"});
  if (!response.ok) return;
  const job = await response.json();
  document.getElementById("state").textContent = job.status + (job.progress ? " · " + job.progress : "");
  document.getElementById("fill").style.width = width(job.progress);
  document.getElementById("log").textContent = (job.log || []).join("\n");
  if (job.status === "error") {
    document.getElementById("error").textContent = job.error || "Download failed.";
    return;
  }
  if (job.status === "complete") {
    document.getElementById("ready").hidden = false;
    document.getElementById("fill").style.width = "100%";
    return;
  }
  setTimeout(poll, 1500);
}
poll();
</script>
"#;

pub open spec fn job_body(id: Seq<char>) -> Seq<char> {
    "\n<nav><a href=\"/\">Plugdeck</a><a href=\"/downloads\">YTP Downloader</a></nav>\n<main class=\"download\">\n  <h1 id=\"state\">Preparing</h1>\n  <div class=\"bar\"><div id=\"fill\"></div></div>\n  <p id=\"error\" class=\"error\"></p>\n  <p id=\"ready\" hidden><a class=\"button\" id=\"file\" href=\"/downloads/jobs/"@
        + html::escaped(id)
        + "/file\">Save</a></p>\n  <pre id=\"log\"></pre>\n</main>\n<script>\nconst statusUrl = \"/downloads/jobs/"@
        + html::escaped(id) + JOB_PAGE_SCRIPT@
}

/// The page of a job.
pub fn download_job_page(id: &str, known: bool) -> (res: Reply)
    ensures
        res@ == if known {
            ReplyView::Page("YTP Downloader"@, job_body(id@))
        } else {
            ReplyView::Plain(404, "unknown job"@)
        },
{
    if !known {
        return web::plain(404, "unknown job");
    }
    let escaped = html::html_escape(id);
    let mut out = String::from_str(
        "\n<nav><a href=\"/\">Plugdeck</a><a href=\"/downloads\">YTP Downloader</a></nav>\n<main class=\"download\">\n  <h1 id=\"state\">Preparing</h1>\n  <div class=\"bar\"><div id=\"fill\"></div></div>\n  <p id=\"error\" class=\"error\"></p>\n  <p id=\"ready\" hidden><a class=\"button\" id=\"file\" href=\"/downloads/jobs/",
    );
    out.append(escaped.as_str());
    out.append(
        "/file\">Save</a></p>\n  <pre id=\"log\"></pre>\n</main>\n<script>\nconst statusUrl = \"/downloads/jobs/",
    );
    out.append(escaped.as_str());
    out.append(JOB_PAGE_SCRIPT);
    Reply::Page("YTP Downloader".to_owned(), out)
}

// ---------------------------------------------------------------------------
// What holds of downloads
// ---------------------------------------------------------------------------

/// A link is taken only if it leads to a host of videos over the web.
pub proof fn only_video_links_are_taken(raw: Seq<char>)
    requires
        video_link(raw) is Some,
    ensures
        ({
            let link = video_link(raw).unwrap();
            &&& text::has_text(link, "://"@)
            &&& outside::url_parts(link) matches Some(parts)
            &&& web_scheme(parts.scheme)
            &&& video_host(
                outside::lower_case(text::trimmed_end(host_of(parts), CharSet::Only('.'))),
            )
        }),
{
    reveal_strlit("https://");
    reveal_strlit("://");
    let value = text::trimmed(raw);
    if !text::has_text(value, "://"@) {
        let link = "https://"@ + value;
        assert(link.subrange(5, 8) =~= "://"@);
        assert(text::occurs_at(link, "://"@, 5));
    }
}

/// Two links to the same video share one key.
pub proof fn links_to_a_video_share_a_key(
    a: Seq<char>,
    pa: UrlView,
    ha: Seq<char>,
    b: Seq<char>,
    pb: UrlView,
    hb: Seq<char>,
)
    requires
        video_id(pa, ha) is Some,
        video_id(pa, ha) == video_id(pb, hb),
    ensures
        key_of(a, Some(pa), ha) == key_of(b, Some(pb), hb),
{
}

/// No file that a download can have left outranks the one that is taken.
pub proof fn the_downloaded_file_ranks_highest(files: Seq<FolderFile>, i: int)
    requires
        0 <= i < files.len(),
        left_by_download(files[i]),
    ensures
        downloaded(files) is Some,
        left_by_download(downloaded(files).unwrap()),
        !outranks(files[i], downloaded(files).unwrap()),
    decreases files.len(),
{
    let front = files.drop_last();
    let last = files.last();
    if i < files.len() - 1 {
        the_downloaded_file_ranks_highest(front, i);
    } else if downloaded(front) is Some {
        downloaded_is_left(front);
    }
}

proof fn downloaded_is_left(files: Seq<FolderFile>)
    ensures
        downloaded(files) matches Some(file) ==> left_by_download(file),
    decreases files.len(),
{
    if files.len() > 0 {
        downloaded_is_left(files.drop_last());
    }
}

/// A job that goes on is never forgotten.
pub proof fn running_jobs_are_kept(job: JobView, cutoff: Moment)
    requires
        job.status == JobStatus::Queued || job.status == JobStatus::Downloading,
    ensures
        kept(job, cutoff),
{
}

/// The name that a browser saves a file under is plain: it has no quote and no
/// control character.
pub proof fn saved_names_are_plain(filename: Seq<char>)
    ensures
        saved_name(filename).len() > 0,
        text::all_in(saved_name(filename), CharSet::Printable),
{
    text::kept_belongs(paths::safe_name(filename), CharSet::Printable);
    reveal_strlit("download.mp4");
}

/// A link is taken exactly where it is not blank, can be read as a web address
/// once the secure scheme stands before one that has none, has the scheme `http`
/// or `https`, and its host, without dots at its end and in lower case, is one of
/// the video hosts or a host under `youtube.com`. It is taken with its scheme.
pub proof fn every_video_link_is_taken(raw: Seq<char>, link: Seq<char>, parts: UrlView)
    requires
        text::has_text(text::trimmed(raw), "://"@) ==> link == text::trimmed(raw),
        !text::has_text(text::trimmed(raw), "://"@) ==> link == "https://"@ + text::trimmed(raw),
        outside::url_parts(link) == Some(parts),
    ensures
        ({
            let host = outside::lower_case(
                text::trimmed_end(
                    match parts.host {
                        Some(host) => host,
                        None => ""@,
                    },
                    CharSet::Only('.'),
                ),
            );
            let belongs = host == "youtu.be"@ || host == "youtube.com"@ || host
                == "youtube-nocookie.com"@ || exists|name: Seq<char>|
                host == #[trigger] (name + ".youtube.com"@);
            let taken = text::trimmed(raw).len() > 0 && (parts.scheme == "http"@ || parts.scheme
                == "https"@) && belongs;
            &&& taken ==> video_link(raw) == Some(link)
            &&& !taken ==> video_link(raw) is None
        }),
{
    let host = outside::lower_case(
        text::trimmed_end(
            match parts.host {
                Some(host) => host,
                None => ""@,
            },
            CharSet::Only('.'),
        ),
    );
    let end = ".youtube.com"@;
    if exists|name: Seq<char>| host == #[trigger] (name + end) {
        let name = choose|name: Seq<char>| host == #[trigger] (name + end);
        text::parts_of_a_text(name, end, Seq::empty());
    }
    if text::has_suffix(host, end) {
        text::a_part_leaves_the_rest(host, end);
        let name = host.take(host.len() - end.len());
        assert(host == name + end);
    }
}

/// A blank link, or one that cannot be read, is not taken.
pub proof fn unreadable_links_are_refused(raw: Seq<char>)
    ensures
        text::is_blank(raw) ==> video_link(raw) is None,
        text::has_text(text::trimmed(raw), "://"@) && outside::url_parts(text::trimmed(raw)) is None
            ==> video_link(raw) is None,
        !text::has_text(text::trimmed(raw), "://"@) && outside::url_parts(
            "https://"@ + text::trimmed(raw),
        ) is None ==> video_link(raw) is None,
{
}

/// The value of a key in a query is that of its first occurrence, and there is
/// one exactly where the query has the key.
pub proof fn the_first_value_of_a_key_counts(
    query: Seq<(Seq<char>, Seq<char>)>,
    key: Seq<char>,
)
    ensures
        match query_value(query, key) {
            Some(v) => exists|k: int|
                0 <= k < query.len() && #[trigger] query[k] == (key, v) && forall|j: int|
                    0 <= j < k ==> (#[trigger] query[j]).0 != key,
            None => forall|k: int| 0 <= k < query.len() ==> (#[trigger] query[k]).0 != key,
        },
    decreases query.len(),
{
    if query.len() > 0 && query[0].0 != key {
        let rest = query.skip(1);
        the_first_value_of_a_key_counts(rest, key);
        match query_value(rest, key) {
            Some(v) => {
                let k = choose|k: int|
                    0 <= k < rest.len() && #[trigger] rest[k] == (key, v) && forall|j: int|
                        0 <= j < k ==> (#[trigger] rest[j]).0 != key;
                assert(query[k + 1] == (key, v));
                assert forall|j: int| 0 <= j < k + 1 implies (#[trigger] query[j]).0 != key by {
                    if j > 0 {
                        assert(rest[j - 1].0 != key);
                    }
                }
            },
            None => {
                assert forall|k: int| 0 <= k < query.len() implies (#[trigger] query[k]).0 != key by {
                    if k > 0 {
                        assert(rest[k - 1].0 != key);
                    }
                }
            },
        }
    } else if query.len() > 0 {
        assert(query[0] == (key, query[0].1));
    }
}

/// A video has one key: a short link gives it by the first part of its path, a
/// long one by the value of `v` in its query, under `youtube.com` or any host of
/// it. A link without a video has a key of its own.
pub proof fn keys_name_the_video(
    short: Seq<char>,
    short_parts: UrlView,
    long: Seq<char>,
    long_parts: UrlView,
    name: Seq<char>,
    id: Seq<char>,
)
    requires
        outside::url_parts(short) == Some(short_parts),
        short_parts.host matches Some(h) && outside::lower_case(h) == "youtu.be"@,
        short_parts.segments matches Some(segments) && segments.len() > 0 && segments[0] == id,
        outside::url_parts(long) == Some(long_parts),
        long_parts.host matches Some(h) && (outside::lower_case(h) == "youtube.com"@
            || outside::lower_case(h) == name + ".youtube.com"@),
        long_parts.query.len() > 0 && long_parts.query[0] == ("v"@, id),
    ensures
        cache_key(short) == "youtube:"@ + id,
        cache_key(long) == "youtube:"@ + id,
{
    reveal_strlit("youtu.be");
    reveal_strlit("youtube.com");
    reveal_strlit(".youtube.com");
    assert("youtu.be"@.len() < "youtube.com"@.len());
    text::parts_of_a_text(name, ".youtube.com"@, Seq::empty());
}

/// A link that cannot be read, whose host is none of those that name videos, or
/// that names no video, is its own key.
pub proof fn other_links_are_their_own_key(
    unread: Seq<char>,
    link: Seq<char>,
    parts: UrlView,
    host: Seq<char>,
)
    requires
        outside::url_parts(unread) is None,
        outside::url_parts(link) == Some(parts),
        parts.host matches Some(h) && outside::lower_case(h) == host,
    ensures
        cache_key(unread) == "url:"@ + unread,
        host != "youtu.be"@ && host != "youtube.com"@ && (forall|name: Seq<char>|
            host != #[trigger] (name + ".youtube.com"@)) ==> cache_key(link) == "url:"@ + link,
        host != "youtu.be"@ && (forall|k: int|
            0 <= k < parts.query.len() ==> (#[trigger] parts.query[k]).0 != "v"@) ==> cache_key(link)
            == "url:"@ + link,
        host == "youtu.be"@ && parts.segments == Some(Seq::<Seq<char>>::empty()) ==> cache_key(link)
            == "url:"@ + link,
{
    the_first_value_of_a_key_counts(parts.query, "v"@);
    let end = ".youtube.com"@;
    if text::has_suffix(host, end) {
        text::a_part_leaves_the_rest(host, end);
        let name = host.take(host.len() - end.len());
        assert(host == name + end);
    }
}

/// A new job waits: nothing has come of it, and nothing has gone wrong.
pub proof fn new_jobs_wait(id: Seq<char>, url: Seq<char>, key: Seq<char>, now: Moment)
    ensures
        ({
            let job = new_job(id, url, key, now);
            &&& job.id == id && job.url == url && job.cache_key == key && job.created_at == now
            &&& job.status == JobStatus::Queued && job.progress == ""@
            &&& job.filename is None && job.file_path is None && job.error is None
            &&& job.log.len() == 0
            &&& job_refusal(Some(job)) == Some(ReplyView::Plain(409, "not ready"@))
        }),
{
}

/// A job whose file is there already is complete, and gives that file at once.
pub proof fn cached_jobs_are_complete(job: JobView, path: Seq<char>, filename: Seq<char>)
    ensures
        ({
            let done = cached_job(job, path, filename);
            &&& done.status == JobStatus::Complete && done.progress == "100%"@
            &&& done.file_path == Some(path) && done.filename == Some(filename)
            &&& done.log.len() == job.log.len() + 1 && done.log.last() == "Using cached file"@
            &&& done.id == job.id && done.url == job.url && done.cache_key == job.cache_key
            &&& job_refusal(Some(done)) is None
        }),
{
}

/// A job that has started is downloading, and is not complete before its end.
pub proof fn started_jobs_download(job: JobView, line: Seq<char>)
    ensures
        started(job).status == JobStatus::Downloading,
        started(job).progress == "starting"@,
        started(job).log == agents::with_line(job.log, "Starting download"@),
        started(job).filename == job.filename,
        started(job).error == job.error,
        started(job).id == job.id,
        started(job).url == job.url,
        started(job).cache_key == job.cache_key,
        started(job).created_at == job.created_at,
        started(job).file_path == job.file_path,
        after_line(job, line).status == job.status,
        after_line(job, line).file_path == job.file_path,
        after_line(job, line).filename == job.filename,
        after_line(job, line).error == job.error,
        after_line(job, line).id == job.id,
        progress_in(line) matches Some(p) ==> after_line(job, line).progress == p,
        progress_in(line) is None ==> after_line(job, line).progress == job.progress,
        text::is_blank(line) ==> after_line(job, line).log == job.log,
        !text::is_blank(line) ==> after_line(job, line).log.last() == text::trimmed(line),
{
    if !text::is_blank(line) {
        let longer = job.log.push(text::trimmed(line));
        assert(longer.last() == text::trimmed(line));
    }
}

/// A download that left a file makes its job complete and has the file
/// remembered; every other end makes it an error with its reason, gives no file
/// and has nothing remembered.
pub proof fn only_files_complete_a_job(job: JobView, end: DownloadEnd, path: String, name: String)
    ensures
        ({
            let done = ended(job, DownloadEnd::Done(path, name));
            &&& done.status == JobStatus::Complete && done.progress == "100%"@
            &&& done.file_path == Some(path@) && done.filename == Some(name@)
            &&& done.id == job.id && done.url == job.url && done.cache_key == job.cache_key
            &&& done.log == agents::with_line(job.log, "Download ready"@)
            &&& done.created_at == job.created_at && done.error == job.error
            &&& job_refusal(Some(done)) is None
            &&& remembered(DownloadEnd::Done(path, name)) == Some((path@, name@))
        }),
        !(end is Done) ==> {
            let lost = ended(job, end);
            &&& lost.status == JobStatus::Error && lost.error is Some && lost.error == failure_of(
                end,
            )
            &&& lost.file_path == job.file_path && lost.filename == job.filename
            &&& lost.progress == job.progress && lost.log == job.log && lost.id == job.id
            &&& job_refusal(Some(lost)) == Some(ReplyView::Plain(409, "not ready"@))
            &&& remembered(end) is None
        },
        failure_of(end) is None <==> end is Done,
        end matches DownloadEnd::NoFolder(why) ==> failure_of(end) == Some(
            "Could not create download directory: "@ + why@,
        ),
        end matches DownloadEnd::NotStarted(why) ==> failure_of(end) == Some(
            "Could not start yt-dlp: "@ + why@,
        ),
        end matches DownloadEnd::Lost(why) ==> failure_of(end) == Some(
            "yt-dlp wait failed: "@ + why@,
        ),
        end matches DownloadEnd::Failed(Some(code)) ==> failure_of(end) == Some(
            "yt-dlp exited with code "@ + decimal::decimal(code as int),
        ),
        end == DownloadEnd::Failed(None) ==> failure_of(end) == Some(
            "yt-dlp exited with code "@ + decimal::decimal(-1),
        ),
        end is NoFile ==> failure_of(end) == Some("Download finished but no file was found."@),
{
}

/// A job's file is given exactly where the job is complete and has one.
pub proof fn files_need_a_complete_job(job: JobView)
    ensures
        job_refusal(None) == Some(ReplyView::Plain(404, "unknown job"@)),
        job_refusal(Some(job)) is None <==> job.status == JobStatus::Complete && job.file_path
            is Some,
        job.status == JobStatus::Queued || job.status == JobStatus::Downloading || job.status
            == JobStatus::Error ==> job_refusal(Some(job)) == Some(
            ReplyView::Plain(409, "not ready"@),
        ),
        job.status == JobStatus::Complete && job.file_path is None ==> job_refusal(Some(job))
            == Some(ReplyView::Plain(404, "missing file"@)),
{
}

proof fn the_last_word_ends(x: Seq<char>, c: char, w: Seq<char>)
    requires
        text::is_space(c),
        w.len() > 0,
        forall|i: int| 0 <= i < w.len() ==> !text::is_space(#[trigger] w[i]),
    ensures
        text::words(x + seq![c] + w).len() > 0,
        text::words(x + seq![c] + w).last() == w,
    decreases x.len(),
{
    let s = x + seq![c] + w;
    text::words_stand_between_white_space(w, c, w);
    if x.len() == 0 {
        assert(s =~= seq![c] + w);
    } else if text::is_space(x[0]) {
        let rest = x.skip(1) + seq![c] + w;
        the_last_word_ends(x.skip(1), c, w);
        assert(s =~= seq![x[0]] + rest);
        text::words_stand_between_white_space(w, x[0], rest);
    } else {
        let n = leading_run(x);
        let a = x.take(n);
        assert forall|i: int| 0 <= i < a.len() implies !text::is_space(#[trigger] a[i]) by {
            assert(a[i] == x[i]);
        }
        if n == x.len() {
            assert(a =~= x);
            text::words_stand_between_white_space(a, c, w);
            assert((seq![a] + seq![w]).last() == w);
        } else {
            let r = x.skip(n + 1);
            the_last_word_ends(r, c, w);
            assert(s =~= a + seq![x[n]] + (r + seq![c] + w));
            text::words_stand_between_white_space(a, x[n], r + seq![c] + w);
            let tail = text::words(r + seq![c] + w);
            assert((seq![a] + tail).last() == tail.last());
        }
    }
}

proof fn leading_run(x: Seq<char>) -> (n: int)
    requires
        x.len() > 0,
        !text::is_space(x[0]),
    ensures
        0 < n <= x.len(),
        forall|i: int| 0 <= i < n ==> !text::is_space(#[trigger] x[i]),
        n < x.len() ==> text::is_space(x[n]),
    decreases x.len(),
{
    if x.len() == 1 || text::is_space(x[1]) {
        1
    } else {
        let m = leading_run(x.skip(1));
        assert forall|i: int| 0 <= i < m + 1 implies !text::is_space(#[trigger] x[i]) by {
            if i > 0 {
                assert(x.skip(1)[i - 1] == x[i]);
            }
        }
        if m + 1 < x.len() {
            assert(x.skip(1)[m] == x[m + 1]);
        }
        m + 1
    }
}

/// The progress of a download line is the number before the first percent sign
/// after its mark; a line without the mark or without the sign tells none.
pub proof fn progress_is_the_number_before_the_sign(
    head: Seq<char>,
    mid: Seq<char>,
    gap: char,
    number: Seq<char>,
    rest: Seq<char>,
)
    requires
        text::first_text(
            head + "[download]"@ + mid + seq![gap] + number + seq!['%'] + rest,
            "[download]"@,
        ) == Some(head.len() as int),
        text::is_space(gap),
        !mid.contains('%'),
        number.len() > 0,
        forall|i: int|
            0 <= i < number.len() ==> ('0' <= #[trigger] number[i] <= '9' || number[i] == '.'),
    ensures
        progress_in(head + "[download]"@ + mid + seq![gap] + number + seq!['%'] + rest) == Some(
            number + "%"@,
        ),
{
    let line = head + "[download]"@ + mid + seq![gap] + number + seq!['%'] + rest;
    let tail = mid + seq![gap] + number + seq!['%'] + rest;
    assert(line =~= head + "[download]"@ + tail);
    assert(line.skip(head.len() + "[download]"@.len() as int) =~= tail);
    let front = mid + seq![gap] + number;
    assert(tail =~= front + seq!['%'] + rest);
    let k = front.len() as int;
    assert(tail[k] == '%');
    assert forall|j: int| 0 <= j < k implies #[trigger] tail[j] != '%' by {
        if j < mid.len() {
            assert(mid.contains(mid[j]));
            assert(tail[j] == mid[j]);
        } else if j == mid.len() {
            assert(tail[j] == gap);
        } else {
            assert(tail[j] == number[j - mid.len() - 1]);
        }
    }
    text::first_char_at(tail, '%', k);
    assert(tail.take(k) =~= front);
    assert forall|i: int| 0 <= i < number.len() implies !text::is_space(#[trigger] number[i]) by {
        assert('0' <= number[i] <= '9' || number[i] == '.');
    }
    the_last_word_ends(mid, gap, number);
    assert(text::all_in(number, CharSet::DigitDot));
}

/// A line without the mark of a download tells no progress, nor does one without
/// a percent sign.
pub proof fn other_lines_tell_no_progress(line: Seq<char>)
    requires
        !text::has_text(line, "[download]"@) || !line.contains('%'),
    ensures
        progress_in(line) is None,
{
    text::first_text_is_least(line, "[download]"@);
    if let Some(i) = text::first_text(line, "[download]"@) {
        assert(text::occurs_at(line, "[download]"@, i));
        let tail = line.skip(i + "[download]"@.len());
        text::first_char_is_least(tail, '%');
        if let Some(k) = text::first_char(tail, '%') {
            assert(line[i + "[download]"@.len() + k] == tail[k]);
        }
    }
}

/// The downloader is told to take one video in the wanted formats, to use the
/// script runtime of the settings where there is one, and to write the video of
/// the link into the folder.
pub proof fn the_downloader_is_told_what_to_do(
    config: ConfigView,
    url: Seq<char>,
    folder: Seq<char>,
)
    ensures
        ({
            let args = download_args_of(config, url, folder);
            let n = args.len();
            &&& args.take(16) == seq![
                "--no-playlist"@,
                "--newline"@,
                "--no-part"@,
                "--restrict-filenames"@,
                "--windows-filenames"@,
                "--no-mtime"@,
                "--socket-timeout"@,
                "30"@,
                "--retries"@,
                "3"@,
                "--fragment-retries"@,
                "3"@,
                "-f"@,
                "bv*[ext=mp4][vcodec^=avc1][height<=1080]+ba[ext=m4a]/bv*[ext=mp4][height<=1080]+ba[ext=m4a]/b[ext=mp4][vcodec^=avc1][height<=720]/b[ext=mp4][height<=720]/b[ext=mp4]"@,
                "--merge-output-format"@,
                "mp4"@,
            ]
            &&& args[n - 1] == url
            &&& args[n - 2] == paths::under(folder, "%(title).180B [%(id)s].%(ext)s"@)
            &&& args[n - 3] == "-o"@
            &&& config.js_runtime is None ==> n == 19
            &&& config.js_runtime matches Some(runtime) ==> n == 21 && args[16] == "--js-runtimes"@
                && args[17] == "node:"@ + runtime
        }),
{
}

/// A file that a download left is a file, and neither one of the downloader's own
/// nor one that is not finished.
pub proof fn unfinished_files_are_passed_over(file: FolderFile)
    ensures
        left_by_download(file) ==> file.is_file && !text::has_suffix(file.path@, ".part"@),
        left_by_download(file) ==> (paths::extension_of(file.path@) matches Some(ext) ==> ext
            != "json"@ && ext != "part"@ && ext != "ytdl"@ && ext != "temp"@ && ext != "tmp"@),
        file.is_file && !text::has_suffix(file.path@, ".part"@) && (paths::extension_of(
            file.path@,
        ) matches Some(ext) ==> ext != "json"@ && ext != "part"@ && ext != "ytdl"@ && ext != "temp"@
            && ext != "tmp"@) ==> left_by_download(file),
{
}

/// The file that is taken is one of the folder's that a download left, of those
/// the largest, and of the largest one that was changed last.
pub proof fn the_largest_file_is_taken(files: Seq<FolderFile>, i: int)
    requires
        0 <= i < files.len(),
        left_by_download(files[i]),
    ensures
        downloaded(files) matches Some(file) && {
            &&& exists|k: int| 0 <= k < files.len() && #[trigger] files[k] == file
            &&& file.size >= files[i].size
            &&& file.size == files[i].size ==> (files[i].modified matches Some(x) ==> (file.modified
                matches Some(y) && !y.earlier(x)))
        },
{
    the_downloaded_file_ranks_highest(files, i);
    downloaded_is_among(files);
}

proof fn downloaded_is_among(files: Seq<FolderFile>)
    ensures
        downloaded(files) matches Some(file) ==> exists|k: int|
            0 <= k < files.len() && #[trigger] files[k] == file,
    decreases files.len(),
{
    if files.len() > 0 {
        let front = files.drop_last();
        downloaded_is_among(front);
        if let Some(file) = downloaded(files) {
            if downloaded(front) == Some(file) {
                let k = choose|k: int| 0 <= k < front.len() && #[trigger] front[k] == file;
                assert(files[k] == file);
            } else {
                assert(files[files.len() - 1] == file);
            }
        }
    }
}

/// Of files that rank alike the last of the folder is taken: the file that is
/// taken outranks all that follow it.
pub proof fn the_last_of_equals_is_taken(files: Seq<FolderFile>)
    ensures
        downloaded(files) matches Some(file) ==> exists|k: int|
            0 <= k < files.len() && #[trigger] files[k] == file && forall|j: int|
                k < j < files.len() && left_by_download(#[trigger] files[j]) ==> outranks(
                    file,
                    files[j],
                ),
    decreases files.len(),
{
    if files.len() > 0 {
        let front = files.drop_last();
        the_last_of_equals_is_taken(front);
        if let Some(file) = downloaded(files) {
            if left_by_download(files.last()) && !(downloaded(front) matches Some(best) && outranks(
                best,
                files.last(),
            )) {
                assert(files[files.len() - 1] == file);
            } else {
                let k = choose|k: int|
                    0 <= k < front.len() && #[trigger] front[k] == file && forall|j: int|
                        k < j < front.len() && left_by_download(#[trigger] front[j]) ==> outranks(
                            file,
                            front[j],
                        );
                assert(files[k] == file);
                assert forall|j: int|
                    k < j < files.len() && left_by_download(#[trigger] files[j]) implies outranks(
                    file,
                    files[j],
                ) by {
                    if j < front.len() {
                        assert(front[j] == files[j]);
                    }
                }
            }
        }
    }
}

/// A larger file outranks a smaller one; of files of a size the one that was
/// changed later does, and one whose change is known one whose is not.
pub proof fn larger_and_later_files_rank_higher(a: FolderFile, b: FolderFile, x: Moment, y: Moment)
    ensures
        a.size > b.size ==> outranks(a, b) && !outranks(b, a),
        a.size == b.size && a.modified == Some(x) && b.modified == Some(y) && y.earlier(x)
            ==> outranks(a, b) && !outranks(b, a),
        a.size == b.size && a.modified == Some(x) && b.modified is None ==> outranks(a, b)
            && !outranks(b, a),
        a.size == b.size && a.modified == b.modified ==> !outranks(a, b),
{
}

/// A folder in which a download left nothing has no file to take.
pub proof fn nothing_left_is_nothing_taken(files: Seq<FolderFile>)
    requires
        forall|i: int| 0 <= i < files.len() ==> !left_by_download(#[trigger] files[i]),
    ensures
        downloaded(files) is None,
{
    downloaded_is_among(files);
    downloaded_is_left(files);
}

/// The time before which things are cleaned up lies the given hours back, to the
/// nanosecond.
pub proof fn cutoffs_lie_hours_back(now: Moment, hours: int)
    requires
        now.valid(),
        0 < hours,
        now.seconds - hours * 3600 >= times::FIRST_SECOND,
    ensures
        hours_before(now, hours).seconds * 1_000_000_000 + hours_before(now, hours).nanos
            == now.seconds * 1_000_000_000 + now.nanos - hours * 3600 * 1_000_000_000,
        hours_before(now, hours).nanos < 1_000_000_000,
        hours_before(now, hours).earlier(now),
{
}

/// A job is forgotten exactly where it is over and older than the time of the
/// cleaning.
pub proof fn old_jobs_that_are_over_are_forgotten(job: JobView, cutoff: Moment)
    ensures
        !kept(job, cutoff) <==> (job.status == JobStatus::Complete || job.status
            == JobStatus::Error) && job.created_at.earlier(cutoff),
{
}

/// A name that can be saved as it is stays as it is; one of which nothing is left
/// gets the general name.
pub proof fn plain_names_are_kept(filename: Seq<char>)
    ensures
        text::all_in(paths::safe_name(filename), CharSet::Printable) && paths::safe_name(
            filename,
        ).len() > 0 ==> saved_name(filename) == paths::safe_name(filename),
        (forall|i: int|
            0 <= i < paths::safe_name(filename).len() ==> !CharSet::Printable.has(
                #[trigger] paths::safe_name(filename)[i],
            )) ==> saved_name(filename) == "download.mp4"@,
{
    let name = paths::safe_name(filename);
    text::keeping_goes_by_characters(name, Seq::empty(), 'a', CharSet::Printable);
    if forall|i: int| 0 <= i < name.len() ==> !CharSet::Printable.has(#[trigger] name[i]) {
        nothing_is_kept(name, CharSet::Printable);
    }
}

proof fn nothing_is_kept(s: Seq<char>, set: CharSet)
    requires
        forall|i: int| 0 <= i < s.len() ==> !set.has(#[trigger] s[i]),
    ensures
        text::kept(s, set).len() == 0,
    decreases s.len(),
{
    if s.len() > 0 {
        assert(!set.has(s[s.len() - 1]));
        assert forall|i: int| 0 <= i < s.drop_last().len() implies !set.has(
            #[trigger] s.drop_last()[i],
        ) by {
            assert(s.drop_last()[i] == s[i]);
        }
        nothing_is_kept(s.drop_last(), set);
    }
}

/// The jobs are listed with the latest first, as many as there is room for, each
/// under its file's name or, without one, its status.
pub proof fn jobs_are_listed_latest_first(jobs: Seq<JobView>, job: JobView, n: nat)
    ensures
        job_links(jobs.push(job), n + 1) == job_link(job) + job_links(jobs, n),
        job_links(jobs, 0) == ""@,
        job_links(Seq::empty(), n) == ""@,
        LISTED_JOBS == 12,
        job.filename matches Some(name) ==> job_link(job)
            == "<a class=\"job\" href=\"/downloads/jobs/"@ + html::escaped(job.id) + "\"><strong>"@
            + html::escaped(name) + "</strong><span>"@ + html::escaped(job.progress)
            + "</span></a>"@,
        job.filename is None ==> job_link(job) == "<a class=\"job\" href=\"/downloads/jobs/"@
            + html::escaped(job.id) + "\"><strong>"@ + html::escaped(job.status.told())
            + "</strong><span>"@ + html::escaped(job.progress) + "</span></a>"@,
        JobStatus::Queued.told() == "queued"@,
        JobStatus::Downloading.told() == "downloading"@,
        JobStatus::Complete.told() == "complete"@,
        JobStatus::Error.told() == "error"@,
{
    assert(jobs.push(job).drop_last() =~= jobs);
}

/// The downloads' page shows the jobs, and a job's page leads to the file and the
/// state of the job of its own id, which is escaped.
pub proof fn the_pages_show_their_jobs(links: Seq<char>, id: Seq<char>)
    ensures
        text::has_text(downloads_body(links), links),
        job_body(id)
            == "\n<nav><a href=\"/\">Plugdeck</a><a href=\"/downloads\">YTP Downloader</a></nav>\n<main class=\"download\">\n  <h1 id=\"state\">Preparing</h1>\n  <div class=\"bar\"><div id=\"fill\"></div></div>\n  <p id=\"error\" class=\"error\"></p>\n  <p id=\"ready\" hidden><a class=\"button\" id=\"file\" href=\"/downloads/jobs/"@
            + html::escaped(id)
            + "/file\">Save</a></p>\n  <pre id=\"log\"></pre>\n</main>\n<script>\nconst statusUrl = \"/downloads/jobs/"@
            + html::escaped(id) + JOB_PAGE_SCRIPT@,
{
    let head = "\n<nav><a href=\"/\">Plugdeck</a><strong>YTP Downloader</strong></nav>\n<main class=\"download\">\n  <form action=\"/downloads\" method=\"post\" class=\"download-form\">\n    <input name=\"url\" type=\"url\" inputmode=\"url\" placeholder=\"https://youtu.be/...\" required autofocus>\n    <button type=\"submit\">Download Video</button>\n  </form>\n  <section class=\"jobs\">"@;
    text::parts_of_a_text(head, links, "</section>\n</main>\n"@);
}

} // verus!
