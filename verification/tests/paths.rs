use gpui_utils::utils::{SanitizedPath, SharedSanitizedPath};
use std::path::{Path, PathBuf};
use std::sync::Arc;

fn sane(path: &str) -> SanitizedPath<'_> {
    SanitizedPath::new(Path::new(path))
}

#[test]
fn test_sanitized_path() {
    let path = std::path::Path::new("C:\\Users\\someone\\test_file.rs");
    let sanitized_path = SanitizedPath::new(path);
    assert_eq!(
        sanitized_path.to_string(),
        "C:\\Users\\someone\\test_file.rs"
    );
}

#[test]
fn path_is_kept() {
    assert_eq!(sane("/a/b").as_path(), Path::new("/a/b"));
    assert_eq!(SanitizedPath::unchecked_new(Path::new("/a/b")).as_path(), Path::new("/a/b"));
    assert_eq!(sane("/a/b").to_path_buf(), PathBuf::from("/a/b"));
    assert_eq!(PathBuf::from(&sane("/a/b")), PathBuf::from("/a/b"));
    let sanitized = sane("/a/b");
    let as_ref: &Path = sanitized.as_ref();
    assert_eq!(as_ref, Path::new("/a/b"));
}

#[test]
fn sanitizing_twice_changes_nothing() {
    for path in ["", "/", "a/./b", "\\\\?\\C:\\a", "C:\\a"] {
        let once = sane(path);
        let twice = SanitizedPath::new(once.as_path());
        assert_eq!(once.as_path().as_os_str(), twice.as_path().as_os_str());
    }
}

#[test]
fn arcs_hold_the_same_path() {
    let shared: Arc<Path> = Arc::from(Path::new("/a/b"));
    let sanitized = SanitizedPath::from_arc(shared.clone());
    assert!(sanitized.as_sanitized() == sane("/a/b"));
    assert_eq!(SanitizedPath::cast_arc_ref(&sanitized), &shared);
    assert_eq!(SanitizedPath::cast_arc(sanitized), shared);
    let fresh = SanitizedPath::new_arc(Path::new("/a/b"));
    assert_eq!(fresh.as_sanitized().as_path(), &*shared);
    let again = SharedSanitizedPath::from(&sane("/a/b"));
    assert_eq!(again.as_sanitized().as_path(), &*shared);
}

#[test]
fn unchanged_path_stays_shared() {
    let shared: Arc<Path> = Arc::from(Path::new("/a/b"));
    let sanitized = SanitizedPath::from_arc(shared.clone());
    assert!(Arc::ptr_eq(SanitizedPath::cast_arc_ref(&sanitized), &shared));
    let cloned = SanitizedPath::cast_arc(sanitized.clone());
    assert!(Arc::ptr_eq(&cloned, &shared));
    drop(cloned);
    let inner = SanitizedPath::cast_arc(sanitized);
    assert!(Arc::ptr_eq(&inner, &shared));
    assert_eq!(Arc::strong_count(&shared), 2);
    drop(inner);
    assert_eq!(Arc::strong_count(&shared), 1);
    let copied = SanitizedPath::cast_arc(SanitizedPath::new_arc(&shared));
    assert!(!Arc::ptr_eq(&copied, &shared));
    assert_eq!(copied, shared);
}

#[test]
fn sanitizing_copies_nothing() {
    let path = PathBuf::from("/a/b");
    assert!(std::ptr::eq(SanitizedPath::new(&path).as_path(), path.as_path()));
    assert!(std::ptr::eq(SanitizedPath::unchecked_new(&path).as_path(), path.as_path()));
    let parent = SanitizedPath::new(&path).parent().unwrap();
    assert!(std::ptr::eq(parent.as_path(), path.parent().unwrap()));
}

#[test]
fn whole_components_make_a_prefix() {
    assert!(sane("/a/b/c").starts_with(&sane("/a/b")));
    assert!(sane("/a/b/c").starts_with(&sane("/a/b/")));
    assert!(sane("/a/b/c").starts_with(&sane("/a/b/c")));
    assert!(sane("a").starts_with(&sane("")));
    assert!(!sane("/a/bc").starts_with(&sane("/a/b")));
    assert!(!sane("/a").starts_with(&sane("/a/b")));
    assert!(!sane("a/b").starts_with(&sane("/a")));
}

#[test]
fn names_and_extensions() {
    let path = sane("/a/b.tar.gz");
    assert_eq!(path.file_name(), Some(Path::new("b.tar.gz")));
    assert_eq!(path.extension(), Some(Path::new("gz")));
    assert_eq!(sane("/a/.hidden").file_name(), Some(Path::new(".hidden")));
    assert_eq!(sane("/a/.hidden").extension(), None);
    assert_eq!(sane("/a/plain").extension(), None);
    assert_eq!(sane("/a/b.").extension(), Some(Path::new("")));
    assert_eq!(sane("/a/..").file_name(), None);
    assert_eq!(sane("/a/..").extension(), None);
    assert_eq!(sane("/").file_name(), None);
    assert_eq!(sane("").file_name(), None);
}

#[test]
fn joining_appends_or_replaces() {
    assert_eq!(sane("/a").join(Path::new("b")), PathBuf::from("/a/b"));
    assert_eq!(sane("/a").join(Path::new("./b")), PathBuf::from("/a/b"));
    assert_eq!(sane("/a").join(Path::new("/b")), PathBuf::from("/b"));
    assert_eq!(sane("").join(Path::new("./b")), PathBuf::from("./b"));
    assert_eq!(sane("/a").join(Path::new("")), PathBuf::from("/a"));
    assert_eq!(sane("/a").join(Path::new("..")), PathBuf::from("/a/.."));
}

#[test]
fn parent_drops_the_last_component() {
    assert_eq!(sane("/a/b").parent().unwrap().as_path(), Path::new("/a"));
    assert_eq!(sane("/a").parent().unwrap().as_path(), Path::new("/"));
    assert_eq!(sane("a").parent().unwrap().as_path(), Path::new(""));
    assert_eq!(sane("./a").parent().unwrap().as_path(), Path::new("."));
    assert!(sane("/").parent().is_none());
    assert!(sane("").parent().is_none());
}

#[test]
fn path_begins_with_its_parent() {
    for path in ["/a/b/c", "a/b", "../x", "./y"] {
        let path = sane(path);
        let parent = path.parent().unwrap();
        assert!(path.starts_with(&parent));
        if let Some(name) = path.file_name() {
            assert_eq!(parent.join(name), path.to_path_buf());
        }
    }
}

#[test]
fn stripping_a_prefix() {
    assert_eq!(sane("/a/b/c").strip_prefix(&sane("/a")).unwrap(), Path::new("b/c"));
    assert_eq!(sane("/a").strip_prefix(&sane("/a")).unwrap(), Path::new(""));
    assert_eq!(sane("/a/./b").strip_prefix(&sane("/a")).unwrap(), Path::new("b"));
    assert!(sane("/a").strip_prefix(&sane("/b")).is_err());
    assert!(sane("/a").strip_prefix(&sane("/a/b")).is_err());
}

#[test]
fn joining_restores_what_was_stripped() {
    for (whole, base) in [("/a/b/c", "/a"), ("a/b", ""), ("./a", "."), ("/x", "/x"), ("/x/y", "/")] {
        let (whole, base) = (sane(whole), sane(base));
        let rest = whole.strip_prefix(&base).unwrap();
        assert_eq!(base.join(rest), whole.to_path_buf());
    }
}

#[test]
fn text_of_a_path() {
    assert_eq!(sane("/a/\u{e9}").to_str(), Some("/a/\u{e9}"));
    assert_eq!(sane("/a/\u{e9}").to_string(), "/a/\u{e9}");
    assert_eq!(sane("").to_str(), Some(""));
}

#[test]
fn paths_compare_by_component() {
    assert!(sane("/a/b/") == sane("/a//b"));
    assert!(sane("/a") < sane("/b"));
    assert!(sane("/a") != sane("a"));
}
