use github_handler::timezone::{
    analyze_contributor_timezone, is_china_timezone, summarize_commits, CommitInfo, CommitTime,
    TimezoneAnalysis,
};

fn commits(zones: &[&str]) -> Vec<CommitInfo> {
    zones
        .iter()
        .map(|z| CommitInfo {
            datetime: CommitTime { timestamp: 0, nanos: 0, offset: 0 },
            timezone: z.to_string(),
        })
        .collect()
}

fn names(list: &[&str]) -> Vec<String> {
    list.iter().map(|s| s.to_string()).collect()
}

#[test]
fn china_is_recognised_by_any_of_its_marks() {
    assert!(is_china_timezone("+0800"));
    assert!(is_china_timezone("+08:00"));
    assert!(is_china_timezone("CST"));
    assert!(is_china_timezone("Asia/Shanghai"));
    assert!(is_china_timezone("UTC+08:00 (CST)"));
    assert!(!is_china_timezone(""));
    assert!(!is_china_timezone("-08:00"));
    assert!(!is_china_timezone("+08:30"));
    assert!(!is_china_timezone("+8:00"));
    assert!(!is_china_timezone("asia/shanghai"));
    assert!(!is_china_timezone("Z"));
}

#[test]
fn no_commits_no_summary() {
    assert!(summarize_commits(&Vec::new()).is_none());
}

#[test]
fn most_frequent_timezone_is_common() {
    let a = summarize_commits(&commits(&["+01:00", "+08:00", "+01:00", "+02:00"])).unwrap();
    assert_eq!(a.common_timezone, "+01:00");
    assert!(a.has_china_timezone);
    let b = summarize_commits(&commits(&["+01:00", "+02:00", "+02:00"])).unwrap();
    assert_eq!(b.common_timezone, "+02:00");
    assert!(!b.has_china_timezone);
}

#[test]
fn tie_is_decided_for_one_of_the_most_frequent() {
    let a = summarize_commits(&commits(&["+01:00", "+02:00", "-03:00", "+02:00", "+01:00"]))
        .unwrap();
    assert!(a.common_timezone == "+01:00" || a.common_timezone == "+02:00");
}

#[test]
fn common_china_timezone_implies_china() {
    let a = summarize_commits(&commits(&["+08:00", "+08:00", "+01:00"])).unwrap();
    assert_eq!(a.common_timezone, "+08:00");
    assert!(a.has_china_timezone);
    let b = summarize_commits(&commits(&["CST", "+01:00", "CST"])).unwrap();
    assert_eq!(b.common_timezone, "CST");
    assert!(b.has_china_timezone);
}

#[test]
fn analysis_needs_a_repository_and_an_address() {
    assert!(matches!(
        analyze_contributor_timezone(false, names(&["a@x"])),
        TimezoneAnalysis::Finished(None)
    ));
    assert!(matches!(
        analyze_contributor_timezone(true, Vec::new()),
        TimezoneAnalysis::Finished(None)
    ));
}

#[test]
fn first_commits_found_end_the_analysis() {
    let a = analyze_contributor_timezone(true, names(&["a@x", "b@x", "c@x"]));
    assert_eq!(a.pending_email().unwrap(), "a@x");
    assert_eq!(a.log_command().unwrap(), vec!["log", "--format=%aI", "--author", "a@x"]);
    let a = a.on_commits(None);
    assert_eq!(a.pending_email().unwrap(), "b@x");
    assert_eq!(a.log_command().unwrap(), vec!["log", "--format=%aI", "--author", "b@x"]);
    let a = a.on_commits(Some(commits(&["+09:00"])));
    assert!(a.pending_email().is_none());
    assert!(a.log_command().is_none());
    match &a {
        TimezoneAnalysis::Finished(Some(found)) => assert_eq!(found.common_timezone, "+09:00"),
        _ => panic!("not finished"),
    }
    let a = a.on_commits(Some(commits(&["+01:00"])));
    match a {
        TimezoneAnalysis::Finished(Some(found)) => assert_eq!(found.common_timezone, "+09:00"),
        _ => panic!("not finished"),
    }
}

#[test]
fn addresses_without_commits_give_no_outcome() {
    let a = analyze_contributor_timezone(true, names(&["a@x", "b@x"]));
    let a = a.on_commits(Some(Vec::new()));
    assert_eq!(a.pending_email().unwrap(), "b@x");
    let a = a.on_commits(None);
    assert!(matches!(a, TimezoneAnalysis::Finished(None)));
}
