use github_handler::config::{Config, DatabaseConfig, GithubConfig};
use github_handler::tokens::{
    get_github_token, get_rechecked_token, is_recheck_due, mark_token_exhausted, Timestamp,
    TokenPool, TokenStep,
};

fn at(seconds: i64, nanos: u32) -> Timestamp {
    Timestamp { seconds, nanos }
}

fn config(tokens: &[&str]) -> Option<Config> {
    Some(Config {
        github: GithubConfig { tokens: tokens.iter().map(|t| t.to_string()).collect() },
        database: DatabaseConfig { url: String::new() },
        repopath: String::new(),
    })
}

/// A request at a time when no check is due.
fn request(pool: &mut TokenPool, config: &Option<Config>) -> String {
    match get_github_token(pool, config, false, at(0, 0), at(0, 0)) {
        TokenStep::Use(token) => token,
        other => panic!("unexpected: {:?}", other),
    }
}

#[test]
fn recheck_is_due_after_the_interval() {
    assert!(!is_recheck_due(at(1000, 0), at(1000, 0)));
    assert!(!is_recheck_due(at(1600, 0), at(1000, 0)));
    assert!(!is_recheck_due(at(1600, 999_999_999), at(1000, 0)));
    assert!(is_recheck_due(at(1601, 0), at(1000, 0)));
    assert!(!is_recheck_due(at(1601, 0), at(1000, 1)));
    assert!(is_recheck_due(at(999, 999_999_999), at(1000, 0)));
    assert!(is_recheck_due(at(i64::MAX, 0), at(i64::MIN, 0)));
    assert!(is_recheck_due(at(i64::MIN, 0), at(i64::MAX, 0)));
}

#[test]
fn configuration_is_loaded_once_for_a_request() {
    let mut pool = TokenPool::new();
    assert!(matches!(
        get_github_token(&mut pool, &None, false, at(0, 0), at(0, 0)),
        TokenStep::LoadConfig
    ));
    match get_github_token(&mut pool, &None, true, at(0, 0), at(0, 0)) {
        TokenStep::Use(token) => assert_eq!(token, ""),
        other => panic!("unexpected: {:?}", other),
    }
}

#[test]
fn no_tokens_no_choice() {
    let mut pool = TokenPool::new();
    assert_eq!(request(&mut pool, &config(&[])), "");
}

#[test]
fn tokens_are_used_in_turn() {
    let mut pool = TokenPool::new();
    let c = config(&["a", "b", "c"]);
    let used: Vec<String> = (0..7).map(|_| request(&mut pool, &c)).collect();
    assert_eq!(used, vec!["a", "b", "c", "a", "b", "c", "a"]);
}

#[test]
fn exhausted_tokens_are_passed_over() {
    let mut pool = TokenPool::new();
    let c = config(&["a", "b", "c"]);
    mark_token_exhausted(&mut pool, "b".to_string());
    mark_token_exhausted(&mut pool, "b".to_string());
    assert!(pool.is_exhausted(&"b".to_string()));
    assert!(!pool.is_exhausted(&"a".to_string()));
    let used: Vec<String> = (0..4).map(|_| request(&mut pool, &c)).collect();
    assert_eq!(used, vec!["a", "c", "a", "c"]);
}

#[test]
fn turn_stays_where_all_are_exhausted() {
    let mut pool = TokenPool::new();
    let c = config(&["a", "b"]);
    assert_eq!(request(&mut pool, &c), "a");
    mark_token_exhausted(&mut pool, "a".to_string());
    mark_token_exhausted(&mut pool, "b".to_string());
    assert_eq!(request(&mut pool, &c), "");
    assert_eq!(request(&mut pool, &c), "");
    let recovered = vec!["a".to_string(), "b".to_string()];
    assert_eq!(get_rechecked_token(&mut pool, c.as_ref().unwrap(), &recovered), "b");
}

#[test]
fn exhausted_tokens_are_checked_again() {
    let mut pool = TokenPool::new();
    let c = config(&["a", "b"]);
    mark_token_exhausted(&mut pool, "a".to_string());
    mark_token_exhausted(&mut pool, "gone".to_string());
    assert_eq!(request(&mut pool, &c), "b");
    match get_github_token(&mut pool, &c, false, at(601, 0), at(0, 0)) {
        TokenStep::Verify(mut tokens) => {
            tokens.sort();
            assert_eq!(tokens, vec!["a", "gone"]);
        }
        other => panic!("unexpected: {:?}", other),
    }
    let recovered = vec!["a".to_string()];
    assert_eq!(get_rechecked_token(&mut pool, c.as_ref().unwrap(), &recovered), "b");
    assert!(!pool.is_exhausted(&"a".to_string()));
    assert!(pool.is_exhausted(&"gone".to_string()));
    match get_github_token(&mut pool, &c, false, at(1201, 0), at(0, 0)) {
        TokenStep::Use(token) => assert_eq!(token, "a"),
        other => panic!("unexpected: {:?}", other),
    }
}

#[test]
fn first_check_stands_for_one_never_made() {
    let c = config(&["a"]);
    let mut pool = TokenPool::new();
    assert!(matches!(
        get_github_token(&mut pool, &c, false, at(5, 0), at(5, 1)),
        TokenStep::Verify(_)
    ));
    let mut pool = TokenPool::new();
    assert!(matches!(
        get_github_token(&mut pool, &c, false, at(5, 0), at(5, 0)),
        TokenStep::Use(_)
    ));
    assert!(matches!(
        get_github_token(&mut pool, &c, false, at(600, 0), at(9, 0)),
        TokenStep::Use(_)
    ));
    assert!(matches!(
        get_github_token(&mut pool, &c, false, at(606, 0), at(700, 0)),
        TokenStep::Verify(_)
    ));
}
