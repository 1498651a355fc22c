use github_handler::git::{
    clone_args, collect_commits, fetch_args, get_author_commits, is_shallow_repo, log_args,
    read_log, reads_true, shallow_args, timezone_of, CommandOutput,
};
use github_handler::timezone::summarize_commits;

fn output(success: bool, stdout: &[u8]) -> Option<CommandOutput> {
    Some(CommandOutput { success, stdout: stdout.to_vec() })
}

#[test]
fn timezone_is_the_offset_behind_the_time() {
    assert_eq!(timezone_of("2024-05-06T07:08:09+08:00"), "+08:00");
    assert_eq!(timezone_of("2024-05-06T07:08:09-03:30"), "-03:30");
    assert_eq!(timezone_of("2024-05-06T07:08:09 +0530 "), "+0530 ");
    assert_eq!(timezone_of("+12024-05-06T07:08:09+08:00"), "+08:00");
    assert_eq!(timezone_of("2024-05-06T07:08:09\u{2212}03:30"), "\u{2212}03:30");
}

#[test]
fn timezone_of_utc_is_z() {
    assert_eq!(timezone_of("2024-01-01T00:00:00Z"), "Z");
    assert_eq!(timezone_of("2024-05-06T07:08:09.25Z"), "Z");
    assert_eq!(timezone_of("2024-05-06T07:08:09Z\r"), "Z");
    assert_eq!(timezone_of("20240506T070809Z"), "Z");
    assert_eq!(timezone_of("2024-01-01T00:00:00z"), "Z");
    assert_eq!(timezone_of("2024-05-06T07:08:09UTC"), "Z");
    assert_eq!(timezone_of("2024-05-06T07:08:09 utc"), "Z");
}

#[test]
fn timezone_without_offset_or_z_is_unknown() {
    assert_eq!(timezone_of("2024-05-06T07:08:09UT"), "Unknown");
    assert_eq!(timezone_of("2024-05-06T07:08:09"), "Unknown");
    assert_eq!(timezone_of("2024-05-06"), "Unknown");
    assert_eq!(timezone_of("UC"), "Unknown");
    assert_eq!(timezone_of("yesterday"), "Unknown");
    assert_eq!(timezone_of(""), "Unknown");
    assert_eq!(timezone_of("+"), "Unknown");
}

#[test]
fn log_is_read_line_by_line() {
    assert_eq!(read_log("\n a\n\nb \n"), vec!["a", "b"]);
    assert_eq!(read_log("  \n"), Vec::<String>::new());
}

#[test]
fn commits_are_collected_from_dated_lines() {
    let lines = vec!["7:8+01:00".to_string(), "y".to_string(), "7:9-02:00".to_string()];
    let parsed = vec![Some((1, 2, 3600)), None, Some((4, 5, -7200))];
    let commits = collect_commits(&lines, &parsed);
    assert_eq!(commits.len(), 2);
    assert_eq!(commits[0].timezone, "+01:00");
    assert_eq!(commits[0].datetime.timestamp, 1);
    assert_eq!(commits[0].datetime.nanos, 2);
    assert_eq!(commits[0].datetime.offset, 3600);
    assert_eq!(commits[1].timezone, "-02:00");
    assert_eq!(commits[1].datetime.offset, -7200);
}

#[test]
fn author_commits_come_from_the_log() {
    let log = b"2024-05-06T07:08:09+08:00\nnonsense\n\n2024-05-06T07:08:09.5-03:30\n";
    let commits = get_author_commits(output(true, log)).unwrap();
    assert_eq!(commits.len(), 2);
    assert_eq!(commits[0].timezone, "+08:00");
    assert_eq!(commits[0].datetime.timestamp, 1714950489);
    assert_eq!(commits[0].datetime.nanos, 0);
    assert_eq!(commits[0].datetime.offset, 8 * 3600);
    assert_eq!(commits[1].timezone, "-03:30");
    assert_eq!(commits[1].datetime.timestamp, 1714991889);
    assert_eq!(commits[1].datetime.nanos, 500_000_000);
    assert_eq!(commits[1].datetime.offset, -(3 * 3600 + 1800));
}

#[test]
fn commit_dates_are_those_of_chrono() {
    let text = "2012-  12-12T12:  12:12+0530";
    let date = text.parse::<chrono::DateTime<chrono::FixedOffset>>().unwrap();
    let commits = get_author_commits(output(true, text.as_bytes())).unwrap();
    assert_eq!(commits.len(), 1);
    assert_eq!(commits[0].datetime.timestamp, date.timestamp());
    assert_eq!(commits[0].datetime.offset, date.offset().local_minus_utc());
    assert_eq!(commits[0].timezone, "+0530");
}

#[test]
fn commits_in_utc_share_one_timezone() {
    let log = b"2024-01-01T00:00:00Z\n2024-05-06T07:08:09Z\n2024-05-06T07:08:09 +01:00\n";
    let commits = get_author_commits(output(true, log)).unwrap();
    assert_eq!(commits.len(), 3);
    assert_eq!(commits[0].timezone, "Z");
    assert_eq!(commits[0].datetime.offset, 0);
    assert_eq!(commits[1].timezone, "Z");
    assert_eq!(commits[2].timezone, "+01:00");
    let summary = summarize_commits(&commits).unwrap();
    assert_eq!(summary.common_timezone, "Z");
}

#[test]
fn every_form_of_offset_is_a_timezone() {
    let log = "2024-01-01T00:00:00z\n2024-01-01 00:00:00 UTC\n2024-01-01T00:00:00\u{2212}05:00\n";
    let commits = get_author_commits(output(true, log.as_bytes())).unwrap();
    let zones: Vec<&str> = commits.iter().map(|c| c.timezone.as_str()).collect();
    assert_eq!(zones, vec!["Z", "Z", "\u{2212}05:00"]);
    let offsets: Vec<i32> = commits.iter().map(|c| c.datetime.offset).collect();
    assert_eq!(offsets, vec![0, 0, -5 * 3600]);
}

#[test]
fn no_commits_without_a_successful_log() {
    assert!(get_author_commits(None).is_none());
    assert!(get_author_commits(output(false, b"2024-05-06T07:08:09+08:00\n")).is_none());
    assert!(get_author_commits(output(true, b"")).unwrap().is_empty());
    assert!(get_author_commits(output(true, b"nonsense\n")).unwrap().is_empty());
}

#[test]
fn invalid_bytes_spoil_only_their_line() {
    let log = b"2024-05-06T07:08:09+08:\xff0\n2024-05-06T07:08:09+02:00\n";
    let commits = get_author_commits(output(true, log)).unwrap();
    assert_eq!(commits.len(), 1);
    assert_eq!(commits[0].timezone, "+02:00");
}

#[test]
fn shallow_is_what_git_calls_true() {
    assert!(is_shallow_repo(&b"true\n".to_vec()));
    assert!(is_shallow_repo(&b"  true".to_vec()));
    assert!(is_shallow_repo(&"\u{3000}true\u{2003}".as_bytes().to_vec()));
    assert!(!is_shallow_repo(&b"false\n".to_vec()));
    assert!(!is_shallow_repo(&b"".to_vec()));
    assert!(!is_shallow_repo(&b"true\xff".to_vec()));
    assert!(!is_shallow_repo(&b"true true".to_vec()));
    assert!(reads_true("true\r\n"));
    assert!(!reads_true("True"));
}

#[test]
fn git_is_called_with_these_arguments() {
    assert_eq!(shallow_args(), vec!["rev-parse", "--is-shallow-repository"]);
    assert_eq!(log_args("a@x"), vec!["log", "--format=%aI", "--author", "a@x"]);
    assert_eq!(
        clone_args("rust-lang", "rust", "/mnt/ru/st/rust"),
        vec![
            "clone",
            "--filter=blob:none",
            "--no-checkout",
            "--config",
            "credential.helper=reject",
            "--config",
            "http.lowSpeedLimit=1000",
            "--config",
            "http.lowSpeedTime=10",
            "--config",
            "core.askpass=echo",
            "https://github.com/rust-lang/rust.git",
            "/mnt/ru/st/rust",
        ]
    );
    assert_eq!(
        fetch_args(),
        vec![
            "-c",
            "credential.helper=reject",
            "-c",
            "http.lowSpeedLimit=1000",
            "-c",
            "http.lowSpeedTime=10",
            "-c",
            "core.askpass=echo",
            "fetch",
            "--filter=blob:none",
            "--unshallow",
        ]
    );
}
