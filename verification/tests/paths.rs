use maw::path::{fold, is_root, is_valid_group_path, join_paths, normalize_path};
use maw::router::Router;

#[test]
fn joining_an_empty_side_gives_the_other() {
    assert_eq!(join_paths("", ""), "/");
    assert_eq!(join_paths("", "/a"), "/a");
    assert_eq!(join_paths("/a", ""), "/a");
    assert_eq!(join_paths("", "/"), "/");
    assert_eq!(join_paths("/", ""), "/");
}

#[test]
fn joining_the_root_adds_nothing() {
    assert_eq!(join_paths("/a", "/"), "/a");
    assert_eq!(join_paths("/", "/a"), "/a");
    assert_eq!(join_paths("/", "/"), "/");
}

#[test]
fn joining_two_paths_concatenates_them() {
    assert_eq!(join_paths("/api", "/users"), "/api/users");
    assert_eq!(join_paths("/a/b", "/c/{id}"), "/a/b/c/{id}");
}

#[test]
fn group_paths() {
    assert!(is_valid_group_path("/"));
    assert!(is_valid_group_path("/a"));
    assert!(is_valid_group_path("/a/b"));
    assert!(is_valid_group_path("/a/{id}"));
    assert!(!is_valid_group_path(""));
    assert!(!is_valid_group_path("a"));
    assert!(!is_valid_group_path("/a/"));
    assert!(!is_valid_group_path("a/"));
    assert!(!is_valid_group_path("//"));
    assert!(is_root("/"));
    assert!(!is_root(""));
    assert!(!is_root("//"));
    assert!(!is_root("a"));
}

#[test]
fn a_group_keeps_its_path() {
    assert_eq!(Router::group("/").path, "/");
    assert_eq!(Router::group("/api").path, "/api");
    assert!(Router::group("/api").items.is_empty());
    assert_eq!(Router::new().path, "");
    assert!(Router::new().items.is_empty());
}

#[test]
fn normalising_folds_backslashes_and_case() {
    assert_eq!(normalize_path("\\a\\b"), "/a/b");
    assert_eq!(normalize_path("/Users/ABC"), "/users/abc");
    assert_eq!(normalize_path("/a-Z_0"), "/a-z_0");
    assert_eq!(fold('\\'), '/');
    assert_eq!(fold('A'), 'a');
    assert_eq!(fold('Z'), 'z');
    assert_eq!(fold('a'), 'a');
    assert_eq!(fold('@'), '@');
    assert_eq!(fold('['), '[');
    assert_eq!(fold('\u{c4}'), '\u{c4}');
}

#[test]
fn normalising_squeezes_slashes() {
    assert_eq!(normalize_path("//a///b"), "/a/b");
    assert_eq!(normalize_path("/\\/a"), "/a");
    assert_eq!(normalize_path("a//b"), "a/b");
}

#[test]
fn normalising_strips_the_trailing_slash_but_not_the_root() {
    assert_eq!(normalize_path("/a/"), "/a");
    assert_eq!(normalize_path("/a//"), "/a");
    assert_eq!(normalize_path("a/"), "a");
    assert_eq!(normalize_path("/"), "/");
    assert_eq!(normalize_path("//"), "/");
    assert_eq!(normalize_path("\\"), "/");
    assert_eq!(normalize_path(""), "");
}

#[test]
fn normalising_keeps_other_characters() {
    assert_eq!(normalize_path("/caf\u{e9}/\u{4e2d}"), "/caf\u{e9}/\u{4e2d}");
    assert_eq!(normalize_path("/a b/%20"), "/a b/%20");
}

#[test]
fn normalising_twice_changes_nothing_more() {
    for p in ["/A//b/", "\\x\\", "/", "", "a/b//c"] {
        let once = normalize_path(p);
        assert_eq!(normalize_path(&once), once);
    }
}
