use codspeed::executor::wall_time::profiler::perf::naming::indexed_semantic_key;
use codspeed::executor::wall_time::profiler::perf::path_keys::PathKeys;

#[test]
fn test_normal_path() {
    let key = indexed_semantic_key(0, "/usr/lib/libc.so.6");
    assert_eq!(key, "0__libc.so.6");
}

#[test]
fn test_jit_path() {
    let key = indexed_semantic_key(5, "/tmp/jit-12345.so");
    assert_eq!(key, "5__jit-12345.so");
}

#[test]
fn test_same_basename_different_paths() {
    let key1 = indexed_semantic_key(0, "/usr/lib/libc.so.6");
    let key2 = indexed_semantic_key(1, "/opt/lib/libc.so.6");
    assert_ne!(key1, key2);
}

#[test]
fn test_bare_filename() {
    let key = indexed_semantic_key(3, "libfoo.so");
    assert_eq!(key, "3__libfoo.so");
}

#[test]
fn keys_of_paths_are_stable_and_unique() {
    let mut keys = PathKeys::new();
    let first = keys.get_or_insert_key("/usr/lib/libc.so.6");
    let second = keys.get_or_insert_key("/opt/lib/libc.so.6");
    assert_eq!(first, "0__libc.so.6");
    assert_eq!(second, "1__libc.so.6");
    assert_eq!(keys.get_or_insert_key("/usr/lib/libc.so.6"), first);
    assert_eq!(keys.get("/opt/lib/libc.so.6"), Some(second));
    assert_eq!(keys.get("/opt/lib/other.so"), None);
    assert_eq!(keys.entries().len(), 2);
}

#[test]
fn spellings_of_a_path_share_its_key() {
    let mut keys = PathKeys::new();
    let first = keys.get_or_insert_key("/a/b");
    for spelling in ["/a//b", "/a/./b", "/a/b/", "//a/b/."] {
        assert_eq!(std::path::Path::new(spelling), std::path::Path::new("/a/b"));
        assert_eq!(keys.get_or_insert_key(spelling), first);
    }
    let mut expected = 1;
    for other in ["a/b", "./a/b", "../a/b", "/a/../b", "/b", "jit_py::f:/x//y.py"] {
        assert_ne!(std::path::Path::new(other), std::path::Path::new("/a/b"));
        assert!(keys.get_or_insert_key(other).starts_with(&format!("{expected}__")), "{other}");
        expected += 1;
    }
    assert_eq!(keys.get("jit_py::f:/x/y.py").as_deref(), Some("6__y.py"));
    assert_eq!(keys.entries()[0].1, "/a/b");
}
