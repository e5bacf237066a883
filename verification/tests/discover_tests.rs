use banditrs::engine::discover::{
    classify_walked_files, discover_files, excluded_globs, is_file_included, matches_glob_list,
    split_commas, TargetKind,
};
use banditrs::pycompat::fnmatch::fnmatch;
use banditrs::pycompat::path::{join, split, splitext};

fn v(items: &[&str]) -> Vec<String> {
    items.iter().map(|s| s.to_string()).collect()
}

#[test]
fn glob_list_and_inclusion() {
    assert!(matches_glob_list("test", &v(&["*tes*"])));
    assert!(!matches_glob_list("test", &v(&["*fes*"])));
    assert!(is_file_included("a.py", &v(&["*.py"]), &[], true));
    assert!(is_file_included("a.dd", &v(&["*.py"]), &[], false));
    assert!(!is_file_included("a.py", &v(&["*.py"]), &v(&["a.py"]), true));
    assert!(!is_file_included("a.dd", &v(&["*.py"]), &[], true));
    assert!(!is_file_included("x_a.py", &v(&["*.py"]), &v(&["x_*.py"]), true));
    assert!(is_file_included("x.py", &v(&["*.py"]), &v(&["x_*.py"]), true));
    // substring exclusion
    assert!(!is_file_included("./x/y/z.py", &v(&["*.py"]), &v(&["y"]), false));
}

#[test]
fn fnmatch_patterns() {
    assert!(fnmatch("a.py", "?.py"));
    assert!(!fnmatch("ab.py", "?.py"));
    assert!(fnmatch("b.py", "[abc].py"));
    assert!(!fnmatch("d.py", "[abc].py"));
    assert!(fnmatch("d.py", "[!abc].py"));
    assert!(fnmatch("m.py", "[a-z].py"));
    assert!(fnmatch("[.py", "[.py"));
    assert!(fnmatch("]", "[]]"));
    assert!(fnmatch("dir/sub/x.py", "*.py"));
    assert!(fnmatch("", "*"));
    assert!(!fnmatch("A.PY", "*.py"));
}

#[test]
fn discovery_sorts_and_classifies() {
    let targets = v(&["b.py", "dir", "a.txt", "-", "b.py"]);
    let kinds = vec![
        TargetKind::File,
        TargetKind::Dir(v(&["dir/z.py", "dir/y.txt", "dir/skip/x.py"])),
        TargetKind::File,
        TargetKind::File,
        TargetKind::File,
    ];
    let (d, skipped) = discover_files(&targets, &kinds, true, &v(&["*.py"]), &v(&["skip"]));
    assert_eq!(d.files, v(&["-", "./a.txt", "./b.py", "dir/z.py"]));
    assert_eq!(d.excluded, v(&["dir/skip/x.py", "dir/y.txt"]));
    assert!(skipped.is_empty());
    let (d2, skipped2) = discover_files(&targets, &kinds, false, &v(&["*.py"]), &[]);
    assert_eq!(skipped2, v(&["dir"]));
    assert_eq!(d2.files, v(&["-", "./a.txt", "./b.py"]));
}

#[test]
fn walked_files_are_split() {
    let (inc, exc) = classify_walked_files(&v(&["a.py", "b.c", "t/a.py"]), &v(&["*.py"]), &v(&["t/"]));
    assert_eq!(inc, v(&["a.py"]));
    assert_eq!(exc, v(&["b.c", "t/a.py"]));
}

#[test]
fn exclude_option_parsing() {
    assert_eq!(split_commas("a,b,,c"), v(&["a", "b", "", "c"]));
    assert_eq!(split_commas(""), v(&[""]));
    let globs = excluded_globs(&v(&["tests"]), &v(&["docs", "x.py"]), &vec![true, false]);
    assert_eq!(globs, v(&["tests", "docs/*", "x.py"]));
}

#[test]
fn posix_paths() {
    assert_eq!(join(".", "a.py"), "./a.py");
    assert_eq!(join("a/", "b"), "a/b");
    assert_eq!(join("a", "/b"), "/b");
    assert_eq!(join("", "b"), "b");
    assert_eq!(split("a/b/c.py"), ("a/b".to_string(), "c.py".to_string()));
    assert_eq!(split("a//b"), ("a".to_string(), "b".to_string()));
    assert_eq!(split("//b"), ("//".to_string(), "b".to_string()));
    assert_eq!(split("c.py"), ("".to_string(), "c.py".to_string()));
    assert_eq!(splitext("a/b.tar.gz"), ("a/b.tar".to_string(), ".gz".to_string()));
    assert_eq!(splitext("a/.bashrc"), ("a/.bashrc".to_string(), "".to_string()));
    assert_eq!(splitext("a.b/c"), ("a.b/c".to_string(), "".to_string()));
}
