//! Resolution of policy binaries.

use openshell_supervisor_network::opa::binaries::{
    normalize_path, resolve_binary_in_container, BinaryResolver, ContainerFiles, FileEntry,
    ResolverAction, ResolverEvent,
};
use openshell_supervisor_network::opa::policy::{BinaryResolution, IoErrorKind};

fn files(entries: Vec<(&str, FileEntry)>) -> ContainerFiles {
    ContainerFiles {
        root: Ok(()),
        root_later: Ok(()),
        entries: entries
            .into_iter()
            .map(|(path, entry)| (path.to_string(), entry))
            .collect(),
    }
}

fn link(target: &str) -> FileEntry {
    FileEntry::Link(Ok(target.to_string()))
}

/// `count` symlinks in a row, the last of which leads to a file.
fn chain(count: usize) -> ContainerFiles {
    let mut entries = vec![("/tmp/real".to_string(), FileEntry::Target)];
    for i in 0..count {
        let target = if i + 1 == count {
            "/tmp/real".to_string()
        } else {
            format!("/tmp/link{}", i + 1)
        };
        entries.push((format!("/tmp/link{i}"), FileEntry::Link(Ok(target))));
    }
    ContainerFiles {
        root: Ok(()),
        root_later: Ok(()),
        entries,
    }
}

#[test]
fn normalize_path_resolves_parent_and_current() {
    assert_eq!(normalize_path("/usr/bin/../lib/python3"), "/usr/lib/python3");
    assert_eq!(normalize_path("/usr/bin/./python3"), "/usr/bin/python3");
    assert_eq!(normalize_path("/a/b/c/../../d"), "/a/d");
    assert_eq!(normalize_path("/usr/bin/python3"), "/usr/bin/python3");
}

#[test]
fn normalize_path_stays_below_the_root() {
    assert_eq!(normalize_path("/../.."), "/");
    assert_eq!(normalize_path("//usr///bin/"), "/usr/bin");
    assert_eq!(normalize_path("a/../b"), "b");
    assert_eq!(normalize_path(""), "");
}

#[test]
fn resolve_binary_skips_glob_paths() {
    assert_eq!(
        resolve_binary_in_container("/usr/bin/*", 1, &files(vec![])),
        BinaryResolution::Literal
    );
    assert_eq!(
        resolve_binary_in_container("/usr/local/bin/**", 1, &files(vec![])),
        BinaryResolution::Literal
    );
}

#[test]
fn resolve_binary_skips_pid_zero() {
    assert_eq!(
        resolve_binary_in_container("/usr/bin/python3", 0, &files(vec![])),
        BinaryResolution::Literal
    );
}

#[test]
fn resolve_binary_does_not_resolve_nonexistent_path() {
    let result = resolve_binary_in_container(
        "/nonexistent/binary/path/that/will/never/exist",
        1,
        &files(vec![]),
    );
    assert!(
        !matches!(result, BinaryResolution::Resolved(_)),
        "nonexistent path must not resolve, got: {result:?}"
    );
}

#[test]
fn classify_not_found_is_absent() {
    assert_eq!(
        BinaryResolution::classify_first_probe_error(IoErrorKind::NotFound),
        BinaryResolution::Absent
    );
}

#[test]
fn classify_permission_denied_is_candidate_inaccessible() {
    assert_eq!(
        BinaryResolution::classify_first_probe_error(IoErrorKind::PermissionDenied),
        BinaryResolution::CandidateInaccessible(IoErrorKind::PermissionDenied)
    );
}

#[test]
fn absent_candidate_resolves_to_absent() {
    assert_eq!(
        resolve_binary_in_container("/tmp/dir/missing-python", 7, &files(vec![])),
        BinaryResolution::Absent
    );
}

#[test]
fn unreachable_process_root_is_inaccessible() {
    let dead_pid = u32::MAX;
    let gone = ContainerFiles {
        root: Err(IoErrorKind::NotFound),
        root_later: Err(IoErrorKind::NotFound),
        entries: vec![],
    };
    assert!(
        matches!(
            resolve_binary_in_container("/usr/bin/python3", dead_pid, &gone),
            BinaryResolution::Inaccessible(_)
        ),
        "an unreachable process root must classify as Inaccessible"
    );
}

#[test]
fn process_that_exits_during_the_probe_is_inaccessible() {
    let exited = ContainerFiles {
        root: Ok(()),
        root_later: Err(IoErrorKind::NotFound),
        entries: vec![],
    };
    assert_eq!(
        resolve_binary_in_container("/usr/bin/python3", 7, &exited),
        BinaryResolution::Inaccessible(IoErrorKind::NotFound)
    );
}

#[test]
fn symlink_cycle_exhausts_limit_as_chain_broken() {
    let cycle = files(vec![("/tmp/a", link("/tmp/b")), ("/tmp/b", link("/tmp/a"))]);
    assert!(
        matches!(
            resolve_binary_in_container("/tmp/a", 7, &cycle),
            BinaryResolution::ChainBroken(_)
        ),
        "a symlink cycle must classify as ChainBroken"
    );
}

#[test]
fn symlink_chain_at_limit_resolves_to_target() {
    let result = resolve_binary_in_container("/tmp/link0", 7, &chain(40));
    assert!(
        matches!(result, BinaryResolution::Resolved(_)),
        "a 40-link chain ending at a real file must resolve, got {result:?}"
    );
    assert_eq!(result, BinaryResolution::Resolved("/tmp/real".to_string()));
}

#[test]
fn symlink_chain_over_limit_is_chain_broken() {
    let result = resolve_binary_in_container("/tmp/link0", 7, &chain(41));
    assert!(
        matches!(result, BinaryResolution::ChainBroken(_)),
        "a 41-link chain must classify as ChainBroken, got {result:?}"
    );
    assert_eq!(
        result,
        BinaryResolution::ChainBroken(IoErrorKind::FilesystemLoop)
    );
}

#[test]
fn resolve_binary_with_real_symlink() {
    let result = resolve_binary_in_container(
        "/tmp/dir/python3",
        7,
        &files(vec![
            ("/tmp/dir/python3", link("/tmp/dir/python3.11")),
            ("/tmp/dir/python3.11", FileEntry::Target),
        ]),
    );
    let BinaryResolution::Resolved(resolved) = result else {
        panic!("Should resolve symlink via /proc/<pid>/root/, got: {result:?}");
    };
    assert!(
        resolved.ends_with("python3.11"),
        "Resolved path should point to target: {resolved}"
    );
}

#[test]
fn resolve_binary_non_symlink_returns_none() {
    assert_eq!(
        resolve_binary_in_container(
            "/tmp/regular",
            7,
            &files(vec![("/tmp/regular", FileEntry::Target)])
        ),
        BinaryResolution::Literal
    );
}

#[test]
fn resolve_binary_multi_level_symlink() {
    let result = resolve_binary_in_container(
        "/tmp/dir/python3",
        7,
        &files(vec![
            ("/tmp/dir/python3", link("/tmp/dir/python3.11")),
            ("/tmp/dir/python3.11", link("/tmp/dir/cpython3.11")),
            ("/tmp/dir/cpython3.11", FileEntry::Target),
        ]),
    );
    let BinaryResolution::Resolved(resolved) = result else {
        panic!("Should resolve multi-level symlink chain, got: {result:?}");
    };
    assert!(
        resolved.ends_with("cpython3.11"),
        "Should resolve to final target: {resolved}"
    );
}

#[test]
fn relative_symlink_starts_from_its_directory() {
    let result = resolve_binary_in_container(
        "/usr/bin/python3",
        7,
        &files(vec![
            ("/usr/bin/python3", link("../lib/./python3.11")),
            ("/usr/lib/python3.11", FileEntry::Target),
        ]),
    );
    assert_eq!(
        result,
        BinaryResolution::Resolved("/usr/lib/python3.11".to_string())
    );
}

#[test]
fn broken_links_break_the_chain() {
    let dangling = files(vec![("/usr/bin/python3", link("python3.11"))]);
    assert_eq!(
        resolve_binary_in_container("/usr/bin/python3", 7, &dangling),
        BinaryResolution::ChainBroken(IoErrorKind::NotFound)
    );
    let unreadable = files(vec![(
        "/usr/bin/python3",
        FileEntry::Link(Err(IoErrorKind::PermissionDenied)),
    )]);
    assert_eq!(
        resolve_binary_in_container("/usr/bin/python3", 7, &unreadable),
        BinaryResolution::ChainBroken(IoErrorKind::PermissionDenied)
    );
    let denied = files(vec![(
        "/usr/bin/python3",
        FileEntry::Failed(IoErrorKind::PermissionDenied),
    )]);
    assert_eq!(
        resolve_binary_in_container("/usr/bin/python3", 7, &denied),
        BinaryResolution::CandidateInaccessible(IoErrorKind::PermissionDenied)
    );
}

#[test]
fn resolver_asks_for_paths_under_the_process_root() {
    let mut resolver = BinaryResolver::start("/usr/bin/python3", 42);
    match resolver.want() {
        ResolverAction::InspectRoot(path) => assert_eq!(path, "/proc/42/root"),
        other => panic!("unexpected {other:?}"),
    }
    resolver.on(&ResolverEvent::Root(Ok(())));
    match resolver.want() {
        ResolverAction::InspectPath(path) => assert_eq!(path, "/proc/42/root/usr/bin/python3"),
        other => panic!("unexpected {other:?}"),
    }
    resolver.on(&ResolverEvent::Root(Ok(())));
    resolver.on(&ResolverEvent::Path(link("python3.11")));
    match resolver.want() {
        ResolverAction::InspectPath(path) => assert_eq!(path, "/proc/42/root/usr/bin/python3.11"),
        other => panic!("unexpected {other:?}"),
    }
    resolver.on(&ResolverEvent::Path(FileEntry::Target));
    match resolver.want() {
        ResolverAction::Done(resolution) => assert_eq!(
            resolution,
            BinaryResolution::Resolved("/usr/bin/python3.11".to_string())
        ),
        other => panic!("unexpected {other:?}"),
    }
}
