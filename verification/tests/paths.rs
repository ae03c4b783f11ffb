use js_engine::paths::{HostPath, ProbeOutcome, ScanStep, SubsetScan};

fn path(s: &str) -> HostPath {
    HostPath::parse(s)
}

fn segs(p: &HostPath) -> Vec<&str> {
    p.segs.iter().map(|s| s.as_str()).collect()
}

/// Drives the containment scan the way the embedding does, with a pure
/// probe rule standing in for the filesystem: a path exists when it is
/// an ancestor of (or equal to) `existing`.
fn run_is_subset(parent: &str, child: &str, existing: &str) -> bool {
    let parent = path(parent);
    let child = path(child);
    let existing = path(existing);
    let mut scan = SubsetScan::start(&child);
    loop {
        match scan.advance() {
            ScanStep::Escaped => return false,
            ScanStep::NeedProbe => {
                let current = scan.current();
                let exists = existing.starts_with(&current);
                match scan.apply_probe(exists) {
                    ProbeOutcome::Found => break,
                    ProbeOutcome::Escaped => return false,
                    ProbeOutcome::Continue => {}
                }
            }
        }
    }
    // With no symbolic links, canonicalisation leaves both paths as
    // they are.
    let canonical_child = scan.current();
    canonical_child.starts_with(&parent)
}

#[test]
fn test_is_subset() {
    assert!(!run_is_subset(
        "/home/drbonez",
        "/home/drbonez/code/fakedir/../../..",
        "/home/drbonez"
    ));
}

#[test]
fn subset_holds_inside_volume() {
    assert!(run_is_subset(
        "/data/volumes/pkg/data/main",
        "/data/volumes/pkg/data/main/logs/test.log",
        "/data/volumes/pkg/data/main"
    ));
}

#[test]
fn triple_parent_traversal_fails_everywhere() {
    assert!(!run_is_subset(
        "/data/volumes/pkg/data/main",
        "/data/volumes/pkg/data/main/../../..",
        "/data/volumes/pkg/data/main"
    ));
}

#[test]
fn deep_dir_escape_fails() {
    assert!(!run_is_subset(
        "/data/volumes/pkg/data/main",
        "/data/volumes/pkg/data/main/../../etc/passwd",
        "/data/volumes/pkg/data/main"
    ));
}

#[test]
fn parse_splits_and_normalizes() {
    let p = path("/a//b/./c");
    assert!(p.absolute);
    assert_eq!(segs(&p), vec!["a", "b", "c"]);
    let q = path("x/../y");
    assert!(!q.absolute);
    assert_eq!(segs(&q), vec!["x", "..", "y"]);
    let r = path("");
    assert!(!r.absolute);
    assert_eq!(r.segs.len(), 0);
}

#[test]
fn join_replaces_on_absolute_request() {
    let base = path("/data/main");
    let rel = path("sub/file");
    let joined = HostPath::join(&base, &rel);
    assert_eq!(segs(&joined), vec!["data", "main", "sub", "file"]);
    let abs = path("/etc/passwd");
    let replaced = HostPath::join(&base, &abs);
    assert_eq!(segs(&replaced), vec!["etc", "passwd"]);
    assert!(replaced.absolute);
}

#[test]
fn starts_with_is_segment_wise() {
    assert!(path("/a/b/c").starts_with(&path("/a/b")));
    assert!(!path("/a/bc").starts_with(&path("/a/b")));
    assert!(!path("/a").starts_with(&path("/a/b")));
}

#[test]
fn to_display_renders_back() {
    assert_eq!(path("/a/b/c").to_display(), "/a/b/c");
    assert_eq!(path("a/b").to_display(), "a/b");
    assert_eq!(path("/").to_display(), "/");
}
