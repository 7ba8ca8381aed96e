use lightron::paths::{
    forbidden_fallback_path, normalize_request_path, requested_target, resolve_canonical,
    within_root,
};

#[test]
fn bare_root_normalizes_to_index_page() {
    assert_eq!(normalize_request_path(b"/"), b"/index.html".to_vec());
}

#[test]
fn other_paths_are_kept() {
    assert_eq!(normalize_request_path(b"/style.css"), b"/style.css".to_vec());
    assert_eq!(normalize_request_path(b"/index.html"), b"/index.html".to_vec());
}

#[test]
fn root_and_index_page_ask_for_the_same_target() {
    // The bare root and the index page request the same filesystem target,
    // so the whole resolution pipeline treats them alike.
    let a = requested_target(b"/srv/a", b"/");
    let b = requested_target(b"/srv/a", b"/index.html");
    assert_eq!(a, b);
    assert_eq!(a, b"/srv/a/index.html".to_vec());
}

#[test]
fn target_joins_root_and_path() {
    assert_eq!(requested_target(b"/srv/a", b"/x/y.css"), b"/srv/a/x/y.css".to_vec());
}

#[test]
fn within_root_accepts_root_and_descendants_only() {
    assert!(within_root(b"/srv/a", b"/srv/a"));
    assert!(within_root(b"/srv/a", b"/srv/a/x.html"));
    assert!(!within_root(b"/srv/a", b"/srv/ab"));
    assert!(!within_root(b"/srv/a", b"/etc/passwd"));
    assert!(!within_root(b"/srv/a", b"/srv"));
}

#[test]
fn resolution_keeps_confined_candidates() {
    let r = resolve_canonical(b"/srv/a", Some(b"/srv/a/index.html".to_vec()));
    assert_eq!(r, b"/srv/a/index.html".to_vec());
    let eq = resolve_canonical(b"/srv/a", Some(b"/srv/a".to_vec()));
    assert_eq!(eq, b"/srv/a".to_vec());
}

#[test]
fn traversal_and_failure_fall_back_to_forbidden_page() {
    // A canonical path outside the root — as a `..` or symlink escape would
    // produce — is replaced by the fixed forbidden-fallback path.
    let escape = resolve_canonical(b"/srv/a", Some(b"/etc/passwd".to_vec()));
    assert_eq!(escape, forbidden_fallback_path());
    let sibling = resolve_canonical(b"/srv/a", Some(b"/srv/ab/x".to_vec()));
    assert_eq!(sibling, forbidden_fallback_path());
    let failure = resolve_canonical(b"/srv/a", None);
    assert_eq!(failure, forbidden_fallback_path());
    assert_eq!(forbidden_fallback_path(), b"/var/www/403.html".to_vec());
}
