use smol_cli::paths::{
    backup_path, backup_root_for, ensure_inside_repo, is_inside, is_write_blocked, join_path,
    path_components, target_from_backup, PathError,
};

#[test]
fn absolute_paths_outside_root_escape() {
    assert!(ensure_inside_repo("/repo", None, "/etc/passwd") == Err(PathError::PathEscape));
    assert!(ensure_inside_repo("/repo", Some("/etc/passwd"), "/etc/passwd") == Err(PathError::PathEscape));
    assert!(ensure_inside_repo("/repo", None, "/repository/x") == Err(PathError::PathEscape));
    assert!(ensure_inside_repo("/repo", None, "../x") == Err(PathError::PathEscape));
}

#[test]
fn paths_inside_root_resolve() {
    assert_eq!(ensure_inside_repo("/repo", None, "src/a.rs").ok().unwrap(), "/repo/src/a.rs");
    assert_eq!(ensure_inside_repo("/repo", Some("/repo/b.rs"), "b.rs").ok().unwrap(), "/repo/b.rs");
    assert_eq!(ensure_inside_repo("/repo", None, "/repo/c").ok().unwrap(), "/repo/c");
    assert!(is_inside("/repo", "/repo//./x"));
    assert!(!is_inside("/repo", "repo/x"));
    assert_eq!(join_path("/a", "b"), "/a/b");
    assert_eq!(join_path("/a", "/b"), "/b");
}

#[test]
fn components_drop_empty_and_dot() {
    assert_eq!(path_components("/a//b/./c/"), vec!["a", "b", "c"]);
    assert_eq!(path_components("./x/../y"), vec!["x", "..", "y"]);
    assert_eq!(path_components(""), Vec::<String>::new());
}

#[test]
fn write_blocked_paths() {
    assert!(is_write_blocked("/etc/hosts"));
    assert!(is_write_blocked(".git/config"));
    assert!(!is_write_blocked("src/main.rs"));
    assert!(!is_write_blocked(""));
}

#[test]
fn backup_maps_back_to_target() {
    let root = backup_root_for("/home/u/.smol/backups", 1700000000);
    assert_eq!(root, "/home/u/.smol/backups/1700000000");
    let b = backup_path(&root, "/repo/src/a.rs", "/repo").unwrap();
    assert_eq!(b, "/home/u/.smol/backups/1700000000/src/a.rs");
    let t = target_from_backup("/repo", "/home/u/.smol/backups", &b).unwrap();
    assert_eq!(t, "/repo/src/a.rs");
    assert!(backup_path(&root, "/elsewhere/a.rs", "/repo").is_none());
    assert!(target_from_backup("/repo", "/home/u/.smol/backups", "/home/u/.smol/backups/17").is_none());
    assert!(target_from_backup("/repo", "/other", &b).is_none());
}
