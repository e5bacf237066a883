use banditrs::engine::utils::{
    climb_directories, escaped_bytes_representation, get_module_qualname_from_path, namespace_path_join,
    namespace_path_split,
};

#[test]
fn namespace_helpers() {
    assert_eq!(namespace_path_join("base1.base2", "name"), "base1.base2.name");
    assert_eq!(
        namespace_path_split("base1.base2.name"),
        ("base1.base2".into(), Some("name".into()))
    );
    assert_eq!(namespace_path_split("name"), ("name".into(), None));
}

#[test]
fn escaped_representation() {
    assert_eq!(escaped_bytes_representation(b"ascii").unwrap(), b"ascii");
    assert_eq!(escaped_bytes_representation(b"\\u0000").unwrap(), b"\\x00");
    assert_eq!(escaped_bytes_representation(b"\\uffff").unwrap(), b"\\uffff");
    assert_eq!(
        escaped_bytes_representation(b"ascii\\u0000\\uffff").unwrap(),
        b"ascii\\x00\\uffff"
    );
}

#[test]
fn escapes_round_the_codec() {
    assert_eq!(escaped_bytes_representation(b"a\\tb\\n").unwrap(), b"a\\tb\\n");
    assert_eq!(escaped_bytes_representation(b"\\101\\x41").unwrap(), b"AA");
    assert_eq!(escaped_bytes_representation(b"\\U0001f600").unwrap(), b"\\U0001f600");
    assert_eq!(escaped_bytes_representation(b"\\q").unwrap(), b"\\\\q");
    assert_eq!(escaped_bytes_representation(b"\xe9").unwrap(), b"\\xe9");
    assert!(escaped_bytes_representation(b"\\x4").is_err());
    assert!(escaped_bytes_representation(b"abc\\").is_err());
    assert!(escaped_bytes_representation(b"\\U00110000").is_err());
}

#[test]
fn split_of_join() {
    let joined = namespace_path_join("a.b", "c");
    assert_eq!(namespace_path_split(&joined), ("a.b".to_string(), Some("c".to_string())));
}

fn dirs(items: &[&str]) -> Vec<String> {
    items.iter().map(|s| s.to_string()).collect()
}

/// The directories of `root` that hold an `__init__.py` in the tree the
/// qualified-name cases are built on.
fn packages(root: &str) -> Vec<String> {
    let rel = [
        "good",
        "good/a",
        "good/a/b",
        "good/a/b/c",
        "missingmid",
        "missingmid/a/b",
        "missingmid/a/b/c",
        "missingend",
        "missingend/a",
        "missingend/a/b",
        "syms",
        "syms/a",
        "syms/a/bsym",
        "syms/a/bsym/c",
    ];
    rel.iter().map(|d| if root.is_empty() { d.to_string() } else { format!("{root}/{d}") }).collect()
}

fn qualname(p: &str, root: &str) -> Result<String, String> {
    let known = packages(root);
    let found: Vec<String> = climb_directories(p).into_iter().filter(|d| known.contains(d)).collect();
    get_module_qualname_from_path(p, &found).map_err(|e| e.0)
}

#[test]
fn module_qualname() {
    let root = "/tmp/root";
    assert_eq!(qualname(&format!("{root}/good/a/b/c/test_typical.py"), root).unwrap(), "good.a.b.c.test_typical");
    assert_eq!(qualname("./__init__.py", "").unwrap(), "__init__");
    assert_eq!(
        qualname(&format!("{root}/missingmid/a/b/c/test_missingmid.py"), root).unwrap(),
        "b.c.test_missingmid"
    );
    assert_eq!(
        qualname(&format!("{root}/missingend/a/b/c/test_missingend.py"), root).unwrap(),
        "test_missingend"
    );
    assert_eq!(
        qualname(&format!("{root}/syms/a/bsym/c/test_typical.py"), root).unwrap(),
        "syms.a.bsym.c.test_typical"
    );
    assert_eq!(qualname("good/a/b/c/test_typical.py", "").unwrap(), "good.a.b.c.test_typical");
    assert_eq!(qualname("missingmid/a/b/c/test_missingmid.py", "").unwrap(), "b.c.test_missingmid");
    assert_eq!(qualname("syms/a/bsym/c/test_typical.py", "").unwrap(), "syms.a.bsym.c.test_typical");
    assert_eq!(qualname("/a/b/c/d/e.py", "").unwrap(), "e");
    assert_eq!(qualname("/usr/lib/python3.11/os.py", "").unwrap(), "os");
    assert!(qualname("/tmp/", "").is_err());
}

#[test]
fn directories_climbed_for_a_module() {
    assert_eq!(
        climb_directories("/r/good/a/b/c/test_typical.py"),
        dirs(&["/r/good/a/b/c", "/r/good/a/b", "/r/good/a", "/r/good", "/r"])
    );
    assert_eq!(climb_directories("good/a/t.py"), dirs(&["good/a", "good"]));
    assert_eq!(
        get_module_qualname_from_path("test.py", &dirs(&[])).unwrap_err().0,
        "Invalid python file path: \"test.py\" Missing path or file name"
    );
}
