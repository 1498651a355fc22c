use std::path::PathBuf;

use github_handler::contributors::{
    analyze_git_contributors, ContributorEvent, ContributorScan, ContributorStage,
};
use github_handler::model::{AnalyzedUser, Contributor};
use uuid::Uuid;

fn user(id: u128) -> AnalyzedUser {
    AnalyzedUser {
        user_id: Uuid::from_u128(id),
        login: id.to_string(),
        profile_email: None,
        commit_email: None,
    }
}

fn start() -> ContributorScan {
    analyze_git_contributors("rust-lang".to_string(), "rust".to_string())
}

fn listed(logins: &[&str]) -> ContributorScan {
    let list = logins
        .iter()
        .enumerate()
        .map(|(i, l)| Contributor { login: l.to_string(), contributions: 10 + i as i32 })
        .collect();
    start()
        .step(ContributorEvent::Repository(Some(Uuid::from_u128(77))))
        .step(ContributorEvent::Contributors(list))
}

#[test]
fn unregistered_repository_ends_the_work() {
    let s = start();
    assert!(matches!(s.stage(), ContributorStage::FindRepository));
    let s = s.step(ContributorEvent::Repository(None));
    assert!(matches!(s.stage(), ContributorStage::Unregistered));
    assert!(s.repository_id().is_none());
    assert!(s.into_location_analysis(PathBuf::from("/mnt")).is_none());
}

#[test]
fn repository_without_contributors_has_nobody_to_analyse() {
    let s = listed(&[]);
    assert!(matches!(s.stage(), ContributorStage::AnalyzeLocations));
    assert!(s.users().is_empty());
}

#[test]
fn contributors_are_dealt_with_in_order() {
    let s = listed(&["known", "gone", "bot", "new"]);
    assert_eq!(s.login().unwrap(), "known");
    assert!(s.contribution().is_none());

    let s = s.step(ContributorEvent::User(Some(user(1))));
    assert!(s.login().is_none());
    assert_eq!(s.contribution(), Some((Uuid::from_u128(77), Uuid::from_u128(1), 10)));
    let s = s.step(ContributorEvent::Recorded);

    assert_eq!(s.login().unwrap(), "gone");
    let s = s.step(ContributorEvent::User(None));
    assert!(matches!(s.stage(), ContributorStage::FetchDetails { contributor: 1 }));
    let s = s.step(ContributorEvent::NoDetails);

    assert_eq!(s.login().unwrap(), "bot");
    let s = s.step(ContributorEvent::User(None)).step(ContributorEvent::Details { is_bot: true });

    assert_eq!(s.login().unwrap(), "new");
    let s = s.step(ContributorEvent::User(None)).step(ContributorEvent::Details { is_bot: false });
    assert!(matches!(s.stage(), ContributorStage::FindEmail { contributor: 3 }));
    let s = s.step(ContributorEvent::Email(Some("n@x".to_string())));
    match s.stage() {
        ContributorStage::StoreUser { contributor, commit_email } => {
            assert_eq!(*contributor, 3);
            assert_eq!(commit_email.as_deref(), Some("n@x"));
        }
        other => panic!("unexpected: {:?}", other),
    }
    let s = s.step(ContributorEvent::UserStored(user(4)));
    assert_eq!(s.contribution(), Some((Uuid::from_u128(77), Uuid::from_u128(4), 13)));
    let s = s.step(ContributorEvent::Recorded);

    assert!(matches!(s.stage(), ContributorStage::AnalyzeLocations));
    assert_eq!(s.contributors().len(), 4);
    let ids: Vec<Uuid> = s.users().iter().map(|u| u.user_id).collect();
    assert_eq!(ids, vec![Uuid::from_u128(1), Uuid::from_u128(4)]);
    let locations = s.into_location_analysis(PathBuf::from("/mnt")).unwrap();
    assert_eq!(locations.repository_id(), Uuid::from_u128(77));
    assert_eq!(locations.users().len(), 2);
    assert_eq!(locations.base_dir(), &PathBuf::from("/mnt"));
    assert_eq!(locations.owner(), "rust-lang");
    assert_eq!(locations.repo(), "rust");
}

#[test]
fn errors_end_the_work_where_the_rest_depends_on_them() {
    let s = start().step(ContributorEvent::Error);
    assert!(matches!(s.stage(), ContributorStage::Failed));
    let s = start()
        .step(ContributorEvent::Repository(Some(Uuid::from_u128(1))))
        .step(ContributorEvent::Error);
    assert!(matches!(s.stage(), ContributorStage::Failed));
    let s = listed(&["a"])
        .step(ContributorEvent::User(None))
        .step(ContributorEvent::Details { is_bot: false })
        .step(ContributorEvent::Error);
    assert!(matches!(s.stage(), ContributorStage::Failed));
    let s = listed(&["a"])
        .step(ContributorEvent::User(None))
        .step(ContributorEvent::Details { is_bot: false })
        .step(ContributorEvent::Email(None))
        .step(ContributorEvent::Error);
    assert!(matches!(s.stage(), ContributorStage::Failed));
    let s = s.step(ContributorEvent::Recorded);
    assert!(matches!(s.stage(), ContributorStage::Failed));
}

#[test]
fn answers_out_of_place_change_nothing() {
    let s = listed(&["a"]).step(ContributorEvent::Recorded).step(ContributorEvent::NoDetails);
    assert_eq!(s.login().unwrap(), "a");
    assert_eq!(s.owner(), "rust-lang");
    assert_eq!(s.repo(), "rust");
    assert!(matches!(s.stage(), ContributorStage::FindUser { contributor: 0 }));
}
