use plugdeck::config::Config;
use plugdeck::downloads::{
    add_scheme, cache_key_for_url, cache_key_with, cache_usable, cleanup_cutoff, cutoff_exists,
    download_args, download_disposition, download_job_page, downloaded_name, downloads_page,
    file_media_type, find_downloaded_file, find_video, finish_download, is_stale, is_video_host,
    job_folder, job_location, keeps_job, missing_permits, normalize_youtube_url, note_output,
    file_to_remember, progress_from_line, push_log, refuse_job_file, refused_link_page, requeue, stale_since,
    start_download, takes_link, DownloadEnd, FolderFile, Job, JobStatus,
};
use plugdeck::times::Moment;
use plugdeck::web::{Reply, UrlParts};

fn at(seconds: i64) -> Moment {
    Moment { seconds, nanos: 0 }
}

fn job() -> Job {
    Job::with_id(
        "0123456789ab".to_string(),
        "https://youtu.be/x".to_string(),
        "youtube:x".to_string(),
        at(1_000),
    )
}

fn config() -> Config {
    Config {
        bind: String::new(),
        db_path: String::new(),
        download_dir: "/d".into(),
        agent_default_workdir: String::new(),
        agent_upload_dir: String::new(),
        agent_codex_bin: String::new(),
        agent_codex_args: Vec::new(),
        codex_home: String::new(),
        codex_reset_command: None,
        agent_slots: Vec::new(),
        ytdlp: "yt-dlp".into(),
        js_runtime: None,
        max_active: 1,
        job_ttl_hours: 24,
        user: String::new(),
        password_hash: None,
        cookie_secret: Vec::new(),
        auth_disabled: false,
        links: Vec::new(),
    }
}

fn parts(scheme: &str, segments: &[&str], query: &[(&str, &str)]) -> UrlParts {
    UrlParts {
        scheme: scheme.to_string(),
        host: None,
        segments: Some(segments.iter().map(|s| s.to_string()).collect()),
        query: query
            .iter()
            .map(|(k, v)| (k.to_string(), v.to_string()))
            .collect(),
    }
}

fn text_of(reply: Reply) -> String {
    match reply {
        Reply::Page(_, body) => body,
        _ => panic!("not a page"),
    }
}

#[test]
fn accepts_youtube_domains() {
    assert!(normalize_youtube_url("https://youtu.be/abc123").is_ok());
    assert!(normalize_youtube_url("youtube.com/watch?v=abc123").is_ok());
    assert!(normalize_youtube_url("https://example.com/watch?v=abc123").is_err());
}

#[test]
fn links_are_taken_as_they_are_typed() {
    let taken = |raw: &str| normalize_youtube_url(raw);
    assert_eq!(taken("  youtu.be/a "), Ok("https://youtu.be/a".to_string()));
    assert_eq!(
        taken("HTTP://WWW.YouTube.com./x"),
        Ok("HTTP://WWW.YouTube.com./x".to_string())
    );
    assert_eq!(
        taken("https://youtube-nocookie.com/embed/x"),
        Ok("https://youtube-nocookie.com/embed/x".to_string())
    );
    assert_eq!(taken(""), Err(()));
    assert_eq!(taken("   "), Err(()));
    assert_eq!(taken("ftp://youtube.com/x"), Err(()));
    assert_eq!(taken("https://notyoutube.com/x"), Err(()));
    assert_eq!(taken("https://www.youtube-nocookie.com/x"), Err(()));
    assert_eq!(taken("https://"), Err(()));
    assert_eq!(add_scheme("a"), "https://a");
    assert_eq!(add_scheme("x://a"), "x://a");
    assert!(is_video_host("m.youtube.com"));
    assert!(!is_video_host("youtube.com.evil.org"));
    assert!(takes_link("http", "youtu.be"));
    assert!(!takes_link("file", "youtu.be"));
}

#[test]
fn links_to_one_video_share_a_key() {
    assert_eq!(cache_key_for_url("https://youtu.be/abc?t=3"), "youtube:abc");
    assert_eq!(
        cache_key_for_url("https://www.youtube.com/watch?a=1&v=abc&v=def"),
        "youtube:abc"
    );
    assert_eq!(
        cache_key_for_url("https://YOUTUBE.com/watch?v=a%20b"),
        "youtube:a b"
    );
    assert_eq!(cache_key_for_url("https://youtu.be"), "youtube:");
    assert_eq!(
        cache_key_for_url("https://youtube.com/shorts/x"),
        "url:https://youtube.com/shorts/x"
    );
    assert_eq!(cache_key_for_url("not a link"), "url:not a link");
    assert_eq!(
        cache_key_for_url("https://youtube-nocookie.com/watch?v=x"),
        "url:https://youtube-nocookie.com/watch?v=x"
    );
    let found = parts("https", &["one", "two"], &[("v", "three")]);
    assert_eq!(find_video(&found, "youtu.be").as_deref(), Some("one"));
    assert_eq!(find_video(&found, "a.youtube.com").as_deref(), Some("three"));
    assert_eq!(find_video(&found, "example.com"), None);
    assert_eq!(cache_key_with("L", Some(&found), "youtu.be"), "youtube:one");
    assert_eq!(cache_key_with("L", None, ""), "url:L");
}

#[test]
fn progress_is_read_from_lines() {
    let read = |line: &str| progress_from_line(line);
    assert_eq!(read("[download]  12.5% of 3MiB").as_deref(), Some("12.5%"));
    assert_eq!(read("x [download] 100%").as_deref(), Some("100%"));
    assert_eq!(read("[download] about 7%").as_deref(), Some("7%"));
    assert_eq!(read("[download] x7%"), None);
    assert_eq!(read("[download] %"), None);
    assert_eq!(read("[download] nothing"), None);
    assert_eq!(read("12%"), None);
}

#[test]
fn jobs_go_from_queued_to_ready() {
    let mut job = job();
    assert_eq!(job.status.text(), "queued");
    assert_eq!(job.progress, "");
    job.progress = "x".to_string();
    requeue(&mut job);
    assert_eq!(job.progress, "");
    start_download(&mut job);
    assert_eq!(job.status.text(), "downloading");
    assert_eq!(job.progress, "starting");
    assert_eq!(job.log, vec!["Starting download"]);
    note_output(&mut job, " [download] 5% ");
    note_output(&mut job, "other");
    note_output(&mut job, "   ");
    assert_eq!(job.progress, "5%");
    assert_eq!(job.log, vec!["Starting download", "[download] 5%", "other"]);
    assert!(matches!(refuse_job_file(Some(&job)), Some(Reply::Plain(409, body)) if body == "not ready"));
    let end = DownloadEnd::Done("/d/f.mp4".into(), "f.mp4".into());
    assert_eq!(file_to_remember(&end), Some(("/d/f.mp4", "f.mp4")));
    finish_download(&mut job, &end);
    assert_eq!(job.status.text(), "complete");
    assert_eq!(job.progress, "100%");
    assert_eq!(job.file_path.as_deref(), Some("/d/f.mp4"));
    assert_eq!(job.filename.as_deref(), Some("f.mp4"));
    assert_eq!(job.log.last().unwrap(), "Download ready");
    assert!(refuse_job_file(Some(&job)).is_none());
    job.file_path = None;
    assert!(matches!(refuse_job_file(Some(&job)), Some(Reply::Plain(404, body)) if body == "missing file"));
    assert!(matches!(refuse_job_file(None), Some(Reply::Plain(404, body)) if body == "unknown job"));
}

#[test]
fn failed_jobs_say_why() {
    let told = |end: DownloadEnd| {
        let mut job = job();
        finish_download(&mut job, &end);
        assert_eq!(job.status.text(), "error");
        assert_eq!(file_to_remember(&end), None);
        job.error.unwrap()
    };
    assert_eq!(
        told(DownloadEnd::NoFolder("e".into())),
        "Could not create download directory: e"
    );
    assert_eq!(
        told(DownloadEnd::NotStarted("e".into())),
        "Could not start yt-dlp: e"
    );
    assert_eq!(told(DownloadEnd::Lost("e".into())), "yt-dlp wait failed: e");
    assert_eq!(
        told(DownloadEnd::Failed(Some(2))),
        "yt-dlp exited with code 2"
    );
    assert_eq!(
        told(DownloadEnd::Failed(None)),
        "yt-dlp exited with code -1"
    );
    assert_eq!(
        told(DownloadEnd::NoFile),
        "Download finished but no file was found."
    );
}

#[test]
fn logs_keep_their_last_lines() {
    let mut job = job();
    for n in 0..100 {
        push_log(&mut job, &n.to_string());
    }
    assert_eq!(job.log.len(), 80);
    assert_eq!(job.log[0], "20");
    assert_eq!(job.log[79], "99");
}

#[test]
fn new_jobs_have_names_of_their_own() {
    let one = Job::new("u".into(), "k".into());
    let two = Job::new("u".into(), "k".into());
    assert_ne!(one.id, two.id);
    assert_eq!(one.id.len(), 12);
    assert!(one.id.chars().all(|c| c.is_ascii_hexdigit()));
    assert!(one.created_at.is_valid());
    assert!(!one.created_at.is_before(&at(1_600_000_000)));
    let cached = Job::with_cached("u".into(), "k".into(), "/p/f".into(), "f".into());
    assert_eq!(cached.status.text(), "complete");
    assert_eq!(cached.log, vec!["Using cached file"]);
    assert_eq!(cached.progress, "100%");
    assert_eq!(cached.file_path.as_deref(), Some("/p/f"));
    assert_eq!(job_location(&job()), "/downloads/jobs/0123456789ab");
}

#[test]
fn the_downloader_is_told_what_to_do() {
    let mut config = config();
    let job = job();
    let folder = job_folder(&config, &job);
    assert_eq!(folder, "/d/0123456789ab");
    let args = download_args(&config, &job, &folder);
    assert_eq!(
        args,
        vec![
            "--no-playlist",
            "--newline",
            "--no-part",
            "--restrict-filenames",
            "--windows-filenames",
            "--no-mtime",
            "--socket-timeout",
            "30",
            "--retries",
            "3",
            "--fragment-retries",
            "3",
            "-f",
            "bv*[ext=mp4][vcodec^=avc1][height<=1080]+ba[ext=m4a]/bv*[ext=mp4][height<=1080]+ba[ext=m4a]/b[ext=mp4][vcodec^=avc1][height<=720]/b[ext=mp4][height<=720]/b[ext=mp4]",
            "--merge-output-format",
            "mp4",
            "-o",
            "/d/0123456789ab/%(title).180B [%(id)s].%(ext)s",
            "https://youtu.be/x",
        ]
    );
    config.js_runtime = Some("/bin/node".into());
    let more = download_args(&config, &job, &folder);
    assert_eq!(more.len(), args.len() + 2);
    assert_eq!(more[16], "--js-runtimes");
    assert_eq!(more[17], "node:/bin/node");
    assert_eq!(more[18], "-o");
}

#[test]
fn the_largest_and_latest_file_is_the_download() {
    let file = |path: &str, size: u64, modified: Option<i64>| FolderFile {
        path: path.to_string(),
        is_file: true,
        size,
        modified: modified.map(at),
    };
    let mut files = vec![
        file("/j/a.mp4", 5, Some(1)),
        file("/j/b.mp4", 9, None),
        file("/j/c.json", 99, Some(9)),
        file("/j/d.mp4.part", 99, Some(9)),
        file("/j/e.mp4", 9, Some(4)),
        file("/j/f.mp4", 9, Some(4)),
        file("/j/g", 8, Some(9)),
    ];
    files.push(FolderFile {
        is_file: false,
        ..file("/j/folder", 1000, Some(9))
    });
    assert_eq!(find_downloaded_file(&files).unwrap().path, "/j/f.mp4");
    assert!(find_downloaded_file(&files[2..4].iter().map(|f| file(&f.path, f.size, None)).collect()).is_none());
    assert!(find_downloaded_file(&Vec::new()).is_none());
    assert_eq!(downloaded_name("/j/f.mp4"), "f.mp4");
    assert_eq!(downloaded_name("/"), "");
}

#[test]
fn old_downloads_are_dropped() {
    let now = at(1_000_000);
    let cutoff = cleanup_cutoff(&now, 24);
    assert_eq!(cutoff.seconds, 1_000_000 - 86_400);
    let mut kept = job();
    assert!(keeps_job(&kept, &cutoff));
    kept.status = JobStatus::Downloading;
    assert!(keeps_job(&kept, &cutoff));
    kept.status = JobStatus::Complete;
    assert!(!keeps_job(&kept, &cutoff));
    kept.status = JobStatus::Error;
    assert!(!keeps_job(&kept, &cutoff));
    kept.created_at = at(cutoff.seconds);
    assert!(keeps_job(&kept, &cutoff));
    assert!(is_stale("1970-01-01T00:00:00Z", &now, &cutoff));
    assert!(!is_stale("1970-01-12T00:00:00Z", &now, &cutoff));
    assert!(!is_stale("nonsense", &now, &cutoff));
    assert!(stale_since(Some(at(0)), &now, &cutoff));
    assert!(!stale_since(None, &now, &cutoff));
    assert!(cutoff_exists(&now, 24));
    assert!(!cutoff_exists(&now, 2_562_047_788_015));
}

#[test]
fn cached_files_must_lie_in_the_folder() {
    assert!(cache_usable(Some("/d/x/f"), Some("/d"), true));
    assert!(!cache_usable(Some("/d/x/f"), Some("/d"), false));
    assert!(!cache_usable(Some("/dx/f"), Some("/d"), true));
    assert!(!cache_usable(None, Some("/d"), true));
    assert!(!cache_usable(Some("/d/f"), None, true));
    assert_eq!(missing_permits(1, 4), 3);
    assert_eq!(missing_permits(4, 1), 0);
}

#[test]
fn files_are_sent_under_plain_names() {
    assert_eq!(
        download_disposition("a \"b\".mp4"),
        "attachment; filename=\"a__b_.mp4\""
    );
    assert_eq!(
        download_disposition(" "),
        "attachment; filename=\"attachment\""
    );
    assert_eq!(file_media_type("/x/a.mp4"), "video/mp4");
    assert_eq!(file_media_type("/x/a"), "application/octet-stream");
}

#[test]
fn pages_show_jobs() {
    let mut jobs: Vec<Job> = (0..14)
        .map(|n| Job::with_id(format!("id{n}"), "u".into(), "k".into(), at(0)))
        .collect();
    jobs[13].filename = Some("<f>".into());
    jobs[13].progress = "1%".into();
    let body = text_of(downloads_page(&jobs));
    assert!(body.contains(
        "<section class=\"jobs\"><a class=\"job\" href=\"/downloads/jobs/id13\"><strong>&lt;f&gt;</strong><span>1%</span></a><a class=\"job\" href=\"/downloads/jobs/id12\"><strong>queued</strong><span></span></a>"
    ));
    assert_eq!(body.matches("class=\"job\"").count(), 12);
    assert!(!body.contains("/id1\""));
    assert!(text_of(refused_link_page()).contains("Only YouTube links are accepted."));
    let page = text_of(download_job_page("i<d", true));
    assert!(page.contains("href=\"/downloads/jobs/i&lt;d/file\">Save</a>"));
    assert!(page.contains("const statusUrl = \"/downloads/jobs/i&lt;d/status\";\nfunction width"));
    assert!(matches!(download_job_page("x", false), Reply::Plain(404, body) if body == "unknown job"));
}
