use github_handler::repository::repository_subdir;

#[test]
fn short_owners_have_one_level() {
    assert_eq!(repository_subdir("abc", "repo"), "abc/repo");
    assert_eq!(repository_subdir("", "repo"), "/repo");
    assert_eq!(repository_subdir("日", "repo"), "日/repo");
}

#[test]
fn long_owners_are_spread_over_two_levels() {
    assert_eq!(repository_subdir("abcd", "repo"), "ab/cd/repo");
    assert_eq!(repository_subdir("rust-lang", "rust"), "ru/st/rust");
    assert_eq!(repository_subdir("éàx", "r"), "é/à/r");
}

#[test]
fn owners_with_the_same_first_bytes_share_a_directory() {
    assert_eq!(repository_subdir("rust-lang", "x"), repository_subdir("rustacean", "x"));
}
