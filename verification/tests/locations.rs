use std::path::PathBuf;

use github_handler::locations::{
    analyze_contributor_locations, LocationAnalysis, LocationEvent, LocationStage,
};
use github_handler::model::AnalyzedUser;
use github_handler::timezone::ContributorAnalysis;
use uuid::Uuid;

fn user(id: u128, profile: Option<&str>, commit: Option<&str>) -> AnalyzedUser {
    AnalyzedUser {
        user_id: Uuid::from_u128(id),
        login: id.to_string(),
        profile_email: profile.map(|s| s.to_string()),
        commit_email: commit.map(|s| s.to_string()),
    }
}

fn analysis(zone: &str) -> ContributorAnalysis {
    ContributorAnalysis { has_china_timezone: false, common_timezone: zone.to_string() }
}

fn start(users: Vec<AnalyzedUser>) -> LocationAnalysis {
    analyze_contributor_locations(
        PathBuf::from("/mnt"),
        "rust-lang".to_string(),
        "rust".to_string(),
        Uuid::from_u128(77),
        users,
    )
}

#[test]
fn addresses_are_listed_once() {
    assert_eq!(user(1, Some("p"), Some("c")).emails(), vec!["p", "c"]);
    assert_eq!(user(1, Some("p"), Some("p")).emails(), vec!["p"]);
    assert_eq!(user(1, Some("p"), None).emails(), vec!["p"]);
    assert_eq!(user(1, None, Some("c")).emails(), vec!["c"]);
    assert!(user(1, None, None).emails().is_empty());
    assert!(!user(1, None, None).has_email());
    assert!(user(1, None, Some("c")).has_email());
}

#[test]
fn base_directory_is_created_where_missing() {
    let m = start(Vec::new());
    assert!(matches!(m.stage(), LocationStage::CheckBaseDir));
    let m = m.step(LocationEvent::Exists(false));
    assert!(matches!(m.stage(), LocationStage::CreateBaseDir));
    let m = m.step(LocationEvent::Created(true));
    assert!(matches!(m.stage(), LocationStage::CheckTargetDir));
}

#[test]
fn directory_that_cannot_be_created_fails_the_work() {
    let m = start(Vec::new()).step(LocationEvent::Exists(false)).step(LocationEvent::Created(false));
    assert!(matches!(m.stage(), LocationStage::Failed));
    let m = m.step(LocationEvent::Exists(true));
    assert!(matches!(m.stage(), LocationStage::Failed));
    let m = start(Vec::new())
        .step(LocationEvent::Exists(true))
        .step(LocationEvent::Exists(false))
        .step(LocationEvent::Exists(false));
    assert!(matches!(m.stage(), LocationStage::CreateParentDir));
    let m = m.step(LocationEvent::Created(false));
    assert!(matches!(m.stage(), LocationStage::Failed));
}

#[test]
fn repository_is_cloned_where_missing() {
    let m = start(vec![user(1, Some("p"), None)])
        .step(LocationEvent::Exists(true))
        .step(LocationEvent::Exists(false));
    assert!(matches!(m.stage(), LocationStage::CheckParentDir));
    let m = m.step(LocationEvent::Exists(false)).step(LocationEvent::Created(true));
    assert!(matches!(m.stage(), LocationStage::CloneRepository));
    let m = m.step(LocationEvent::Cloned(true));
    assert!(matches!(m.stage(), LocationStage::AnalyzeUser { user: 0 }));
}

#[test]
fn repository_that_cannot_be_cloned_is_skipped() {
    let m = start(vec![user(1, Some("p"), None)])
        .step(LocationEvent::Exists(true))
        .step(LocationEvent::Exists(false))
        .step(LocationEvent::Exists(true))
        .step(LocationEvent::Cloned(false));
    assert!(matches!(m.stage(), LocationStage::Skipped));
    assert_eq!(m.total_contributors(), 0);
}

#[test]
fn shallow_clone_is_completed() {
    let m = start(Vec::new()).step(LocationEvent::Exists(true)).step(LocationEvent::Exists(true));
    assert!(matches!(m.stage(), LocationStage::CheckShallow));
    let m = m.step(LocationEvent::Shallow(true));
    assert!(matches!(m.stage(), LocationStage::FetchHistory));
    let m = m.step(LocationEvent::Fetched);
    assert!(matches!(m.stage(), LocationStage::Completed));
}

#[test]
fn events_out_of_place_change_nothing() {
    let m = start(Vec::new()).step(LocationEvent::Stored).step(LocationEvent::Created(true));
    assert!(matches!(m.stage(), LocationStage::CheckBaseDir));
}

#[test]
fn users_are_analysed_in_order_and_counted() {
    let users = vec![
        user(1, None, None),
        user(2, Some("p"), None),
        user(3, None, Some("c")),
        user(4, None, None),
        user(5, Some("p"), Some("c")),
        user(6, Some("p"), None),
    ];
    let m = start(users)
        .step(LocationEvent::Exists(true))
        .step(LocationEvent::Exists(true))
        .step(LocationEvent::Shallow(false));
    assert_eq!(m.pending_user().unwrap().login, "2");
    assert!(m.location().is_none());
    let m = m.step(LocationEvent::Analyzed(Some(analysis("+08:00"))));
    assert!(m.pending_user().is_none());
    {
        let (repository, id, found) = m.location().unwrap();
        assert_eq!(repository, Uuid::from_u128(77));
        assert_eq!(id, Uuid::from_u128(2));
        assert_eq!(found.common_timezone, "+08:00");
    }
    assert_eq!(m.total_contributors(), 0);
    let m = m.step(LocationEvent::Stored);
    assert_eq!(m.china_contributors(), 1);
    assert_eq!(m.pending_user().unwrap().login, "3");
    let m = m.step(LocationEvent::Analyzed(None));
    assert_eq!(m.pending_user().unwrap().login, "5");
    let m = m.step(LocationEvent::Analyzed(Some(analysis("+0800")))).step(LocationEvent::Stored);
    assert_eq!(m.pending_user().unwrap().login, "6");
    let m = m.step(LocationEvent::Analyzed(Some(analysis("-05:00")))).step(LocationEvent::Stored);
    assert!(matches!(m.stage(), LocationStage::Completed));
    assert_eq!(m.china_contributors(), 1);
    assert_eq!(m.non_china_contributors(), 2);
    assert_eq!(m.total_contributors(), 3);
    assert_eq!(m.repository_id(), Uuid::from_u128(77));
    assert_eq!(m.users().len(), 6);
}

#[test]
fn one_directory_serves_the_whole_run() {
    let expected = PathBuf::from("/mnt/ru/st/rust");
    let target = |m: &LocationAnalysis| m.target().map(|(base, below)| base.join(below));
    let m = start(vec![user(1, Some("p"), None)]);
    assert_eq!(m.base_dir(), &PathBuf::from("/mnt"));
    assert_eq!(m.owner(), "rust-lang");
    assert_eq!(m.repo(), "rust");
    assert!(target(&m).is_none());
    let m = m.step(LocationEvent::Exists(true));
    assert_eq!(target(&m), Some(expected.clone()));
    let m = m.step(LocationEvent::Exists(false));
    assert_eq!(target(&m), Some(expected.clone()));
    let m = m.step(LocationEvent::Exists(false));
    assert_eq!(target(&m), Some(expected.clone()));
    let m = m.step(LocationEvent::Created(true));
    assert_eq!(target(&m), Some(expected.clone()));
    let m = m.step(LocationEvent::Cloned(true));
    assert_eq!(target(&m), Some(expected.clone()));
    let m = m.step(LocationEvent::Analyzed(Some(analysis("Z"))));
    assert!(target(&m).is_none());
    let m = m.step(LocationEvent::Stored);
    assert!(target(&m).is_none());

    let m = start(vec![user(1, Some("p"), None)])
        .step(LocationEvent::Exists(true))
        .step(LocationEvent::Exists(true));
    assert_eq!(target(&m), Some(expected.clone()));
    let m = m.step(LocationEvent::Shallow(true));
    assert_eq!(target(&m), Some(expected.clone()));
    let m = m.step(LocationEvent::Fetched);
    assert_eq!(target(&m), Some(expected));
}

#[test]
fn locations_are_stored_in_the_order_of_the_users() {
    let users = vec![
        user(1, Some("p"), None),
        user(2, None, None),
        user(3, Some("p"), None),
        user(4, Some("p"), None),
    ];
    let outcomes = [Some("+08:00"), Some("unused"), None, Some("Z")];
    let mut m = start(users)
        .step(LocationEvent::Exists(true))
        .step(LocationEvent::Exists(true))
        .step(LocationEvent::Shallow(false));
    let mut stored = Vec::new();
    loop {
        let event = match m.stage() {
            LocationStage::AnalyzeUser { user } => {
                LocationEvent::Analyzed(outcomes[*user].map(analysis))
            }
            LocationStage::StoreLocation { .. } => {
                let (repository, id, found) = m.location().unwrap();
                stored.push((repository.as_u128(), id.as_u128(), found.common_timezone.clone()));
                LocationEvent::Stored
            }
            LocationStage::Completed => break,
            other => panic!("unexpected: {:?}", other),
        };
        m = m.step(event);
    }
    assert_eq!(stored, vec![(77, 1, "+08:00".to_string()), (77, 4, "Z".to_string())]);
}

#[test]
fn each_stage_calls_for_its_own_command() {
    let m = start(Vec::new()).step(LocationEvent::Exists(true));
    assert!(m.clone_command("/mnt/ru/st/rust").is_none());
    assert!(m.shallow_command().is_none());
    assert!(m.fetch_command().is_none());

    let cloning = m.step(LocationEvent::Exists(false)).step(LocationEvent::Exists(true));
    let args = cloning.clone_command("/mnt/ru/st/rust").unwrap();
    assert_eq!(args[0], "clone");
    assert_eq!(args[args.len() - 2], "https://github.com/rust-lang/rust.git");
    assert_eq!(args[args.len() - 1], "/mnt/ru/st/rust");
    assert!(cloning.shallow_command().is_none());
    assert!(cloning.fetch_command().is_none());

    let checking = start(Vec::new()).step(LocationEvent::Exists(true)).step(LocationEvent::Exists(true));
    assert_eq!(
        checking.shallow_command().unwrap(),
        vec!["rev-parse", "--is-shallow-repository"]
    );
    assert!(checking.clone_command("x").is_none());
    let fetching = checking.step(LocationEvent::Shallow(true));
    assert_eq!(fetching.fetch_command().unwrap().last().unwrap(), "--unshallow");
    assert!(fetching.shallow_command().is_none());
}
