use github_handler::config::{
    config_path, find_variable, load_config, Config, ConfigFile, DatabaseConfig, GithubConfig,
};

fn vars(list: &[(&str, &str)]) -> Vec<(String, String)> {
    list.iter().map(|(n, v)| (n.to_string(), v.to_string())).collect()
}

fn config(tokens: &[&str]) -> Config {
    Config {
        github: GithubConfig { tokens: tokens.iter().map(|t| t.to_string()).collect() },
        database: DatabaseConfig { url: "postgres://file".to_string() },
        repopath: "/repos".to_string(),
    }
}

#[test]
fn variables_are_found_by_name() {
    let v = vars(&[("A", "1"), ("B", "2"), ("A", "3")]);
    assert_eq!(find_variable(&v, "A"), Some("1".to_string()));
    assert_eq!(find_variable(&v, "B"), Some("2".to_string()));
    assert_eq!(find_variable(&v, "C"), None);
}

#[test]
fn path_has_a_default() {
    assert_eq!(config_path(&Vec::new()), "config.json");
    assert_eq!(config_path(&vars(&[("CONFIG_PATH", "/etc/c.json")])), "/etc/c.json");
    assert_eq!(config_path(&vars(&[("CONFIG_PATH", "")])), "");
}

#[test]
fn missing_file_is_replaced_by_variables() {
    let v = vars(&[
        ("GITHUB_TOKEN_9", "nine"),
        ("GITHUB_TOKEN_10", "ten"),
        ("GITHUB_TOKEN_2", ""),
        ("GITHUB_TOKEN_1", "one"),
        ("GITHUB_TOKEN", "zero"),
        ("DATABASE_URL", "postgres://env"),
    ]);
    let mut store = None;
    let c = load_config(&mut store, &v, ConfigFile::Missing).unwrap();
    assert_eq!(c.github.tokens, vec!["zero", "one", "nine"]);
    assert_eq!(c.database.url, "postgres://env");
    assert_eq!(c.repopath, "");
    let kept = store.unwrap();
    assert_eq!(kept.github.tokens, vec!["zero", "one", "nine"]);
    assert_eq!(kept.database.url, "postgres://env");
}

#[test]
fn missing_file_without_tokens_is_no_failure() {
    let v = vars(&[("DATABASE_URL", "postgres://env"), ("GITHUB_TOKEN", "")]);
    let mut store = None;
    let c = load_config(&mut store, &v, ConfigFile::Missing).unwrap();
    assert!(c.github.tokens.is_empty());
    assert!(store.is_some());
}

#[test]
fn bad_file_leaves_the_store_alone() {
    let mut store = Some(config(&["old"]));
    assert!(load_config(&mut store, &Vec::new(), ConfigFile::Unreadable).is_none());
    assert!(load_config(&mut store, &Vec::new(), ConfigFile::Malformed).is_none());
    assert_eq!(store.unwrap().github.tokens, vec!["old"]);
    let mut empty = None;
    assert!(load_config(&mut empty, &Vec::new(), ConfigFile::Unreadable).is_none());
    assert!(empty.is_none());
}

#[test]
fn tokens_of_the_file_win() {
    let v = vars(&[("GITHUB_TOKEN", "env"), ("DATABASE_URL", "postgres://env")]);
    let mut store = Some(config(&["old"]));
    let c = load_config(&mut store, &v, ConfigFile::Parsed(config(&["a", "b"]))).unwrap();
    assert_eq!(c.github.tokens, vec!["a", "b"]);
    assert_eq!(c.database.url, "postgres://file");
    assert_eq!(c.repopath, "/repos");
    assert_eq!(store.unwrap().github.tokens, vec!["a", "b"]);
}

#[test]
fn file_without_tokens_takes_the_first_variable_only() {
    let v = vars(&[("GITHUB_TOKEN", "env"), ("GITHUB_TOKEN_1", "one")]);
    let mut store = None;
    let c = load_config(&mut store, &v, ConfigFile::Parsed(config(&[]))).unwrap();
    assert_eq!(c.github.tokens, vec!["env"]);
    let w = vars(&[("GITHUB_TOKEN", ""), ("GITHUB_TOKEN_1", "one")]);
    let c = load_config(&mut store, &w, ConfigFile::Parsed(config(&[]))).unwrap();
    assert!(c.github.tokens.is_empty());
}

#[test]
fn configurations_are_cloned_whole() {
    let c = config(&["a", ""]).clone();
    assert_eq!(c.github.tokens, vec!["a", ""]);
    assert_eq!(c.database.url, "postgres://file");
    assert_eq!(c.repopath, "/repos");
}
