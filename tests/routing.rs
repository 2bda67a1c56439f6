use golinks::models::Routes;
use golinks::routing::{resolve, split_segments};

fn pair(k: &str, v: &str) -> (String, String) {
    (k.to_string(), v.to_string())
}

/// The table used by the request tests.
fn scaffold_routes() -> Routes {
    Routes::with_routes(vec![
        pair("test", "https://example.com"),
        pair("e/x", "https://example.com"),
        pair("e", "https://differentexample.com"),
    ])
}

#[test]
fn test_path_single() {
    let routes = scaffold_routes();
    assert_eq!(resolve(&routes, "/test"), Some("https://example.com".to_string()));
}

#[test]
fn test_path_multi() {
    let routes = scaffold_routes();
    assert_eq!(resolve(&routes, "/e/x"), Some("https://example.com".to_string()));
}

#[test]
fn test_registered_ancestor() {
    let routes = scaffold_routes();
    assert_eq!(
        resolve(&routes, "/e/x/ample"),
        Some("https://example.com/ample".to_string())
    );
}

#[test]
fn test_first_registered_ancestor() {
    let routes = scaffold_routes();
    assert_eq!(
        resolve(&routes, "/e/l/ample"),
        Some("https://differentexample.com/l/ample".to_string())
    );
    assert_eq!(
        resolve(&routes, "/e/x/ample"),
        Some("https://example.com/ample".to_string())
    );
}

#[test]
fn test_path_not_found() {
    let routes = scaffold_routes();
    assert_eq!(resolve(&routes, "/not-found"), None);
}

#[test]
fn test_multipath_not_found() {
    let routes = scaffold_routes();
    assert_eq!(resolve(&routes, "/not/found/at/all"), None);
}

#[test]
fn registered_key_resolves_without_suffix() {
    let routes = scaffold_routes();
    assert_eq!(resolve(&routes, "e"), Some("https://differentexample.com".to_string()));
    assert_eq!(resolve(&routes, "e/x"), Some("https://example.com".to_string()));
}

#[test]
fn suffix_is_appended_after_one_slash() {
    let routes = scaffold_routes();
    assert_eq!(
        resolve(&routes, "test/a/b"),
        Some("https://example.com/a/b".to_string())
    );
}

#[test]
fn longest_ancestor_wins() {
    let routes = Routes::with_routes(vec![pair("e", "A"), pair("e/x", "B")]);
    assert_eq!(resolve(&routes, "e/x"), Some("B".to_string()));
    assert_eq!(resolve(&routes, "e/x/ample"), Some("B/ample".to_string()));
    assert_eq!(resolve(&routes, "e/l/ample"), Some("A/l/ample".to_string()));
}

#[test]
fn repeated_resolution_gives_the_same_answer() {
    let routes = scaffold_routes();
    let first = resolve(&routes, "/e/l/ample");
    let second = resolve(&routes, "/e/l/ample");
    assert_eq!(first, second);
    assert_eq!(resolve(&routes, "/absent"), resolve(&routes, "/absent"));
}

#[test]
fn end_to_end_single_link() {
    let routes = Routes::with_routes(vec![pair("test", "https://example.com")]);
    assert_eq!(resolve(&routes, "/test"), Some("https://example.com".to_string()));
    assert_eq!(
        resolve(&routes, "/test/sub"),
        Some("https://example.com/sub".to_string())
    );
    assert_eq!(resolve(&routes, "/absent"), None);
}

#[test]
fn extra_slashes_are_ignored() {
    let routes = scaffold_routes();
    assert_eq!(
        resolve(&routes, "//e///x//ample/"),
        Some("https://example.com/ample".to_string())
    );
}

#[test]
fn trailing_slash_of_destination_is_kept() {
    let routes = Routes::with_routes(vec![pair("d", "https://example.com/")]);
    assert_eq!(
        resolve(&routes, "d/sub"),
        Some("https://example.com//sub".to_string())
    );
}

#[test]
fn root_matches_only_the_empty_key() {
    let routes = scaffold_routes();
    assert_eq!(resolve(&routes, "/"), None);
    assert_eq!(resolve(&routes, ""), None);
    let with_root = Routes::with_routes(vec![pair("", "https://home.example")]);
    assert_eq!(resolve(&with_root, "/"), Some("https://home.example".to_string()));
    assert_eq!(
        resolve(&with_root, "/x/y"),
        Some("https://home.example/x/y".to_string())
    );
}

#[test]
fn lookup_is_case_sensitive() {
    let routes = scaffold_routes();
    assert_eq!(resolve(&routes, "/TEST"), None);
}

#[test]
fn fetch_is_exact() {
    let routes = scaffold_routes();
    assert_eq!(routes.fetch("e/x"), Some("https://example.com".to_string()));
    assert_eq!(routes.fetch("e/"), None);
    assert_eq!(routes.fetch("x"), None);
}

#[test]
fn later_duplicate_key_wins() {
    let routes = Routes::with_routes(vec![pair("a", "first"), pair("a", "second")]);
    assert_eq!(routes.fetch("a"), Some("second".to_string()));
}

#[test]
fn segments_drop_empty_components() {
    assert_eq!(
        split_segments("//a/bc///d/"),
        vec!["a".to_string(), "bc".to_string(), "d".to_string()]
    );
    assert!(split_segments("///").is_empty());
    assert!(split_segments("").is_empty());
}

#[test]
fn build_normalizes_keys() {
    let routes = Routes::build(vec![pair("/docs/", "https://docs.example"), pair("a//b", "AB")])
        .unwrap_or_else(|e| panic!("rejected {}", e.key));
    assert_eq!(routes.fetch("docs"), Some("https://docs.example".to_string()));
    assert_eq!(routes.fetch("a/b"), Some("AB".to_string()));
    assert_eq!(routes.fetch("/docs/"), None);
    assert_eq!(
        resolve(&routes, "/docs/guide"),
        Some("https://docs.example/guide".to_string())
    );
}

#[test]
fn build_rejects_a_key_without_segments() {
    let result = Routes::build(vec![pair("ok", "x"), pair("//", "y"), pair("", "z")]);
    match result {
        Ok(_) => panic!("a key without segments was accepted"),
        Err(e) => assert_eq!(e.key, "//"),
    }
}

#[test]
fn build_keeps_the_last_of_equal_keys() {
    let routes = Routes::build(vec![pair("k", "first"), pair("/k", "second")])
        .unwrap_or_else(|e| panic!("rejected {}", e.key));
    assert_eq!(routes.fetch("k"), Some("second".to_string()));
}
