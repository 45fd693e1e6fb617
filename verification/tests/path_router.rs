use qrkit::{InsertError, PathRouter};

#[test]
fn return_empty_path_error_for_insert() {
    let mut router = PathRouter::new();
    assert_eq!(InsertError::EmptyPath, router.insert("").unwrap_err());
}

#[test]
fn return_root_route_idx_for_slash() {
    let mut router = PathRouter::new();
    let route_idx = router.insert("/").unwrap();
    assert_eq!(0usize, route_idx.0);
}

#[test]
fn return_second_node_for_first_nested_path() {
    let mut router = PathRouter::new();
    let route_idx = router.insert("/foo").unwrap();
    assert_eq!(1usize, route_idx.0);
}

#[test]
fn return_warning_for_trailing_path_after_consume() {
    let mut router = PathRouter::new();
    assert_eq!(
        InsertError::TrailingWildcardPath,
        router.insert("/*foo/bar").unwrap_err()
    );
}

#[test]
fn return_warning_for_trailing_path_after_wildcard() {
    let mut router = PathRouter::new();
    assert_eq!(
        InsertError::TrailingWildcardPath,
        router.insert("/*/bar").unwrap_err()
    );
}

#[test]
fn create_second_peer_node_for_next_root_child() {
    let mut router = PathRouter::new();
    let first = router.insert("/foo").unwrap();
    let second = router.insert("/bar").unwrap();
    assert_eq!(1usize, first.0);
    assert_eq!(2usize, second.0);
}

#[test]
fn create_third_peer_node_for_nested_child_of_existing_despite_used_key() {
    let mut router = PathRouter::new();
    router.insert("/foo").unwrap();
    router.insert("/bar").unwrap();
    let third = router.insert("/foo/bar").unwrap();
    assert_eq!(3usize, third.0);
}
