use banditrs::engine::nosec::parse_nosec_comment;

fn ids(comment: &str) -> Option<rustc_hash::FxHashSet<String>> {
    parse_nosec_comment(comment).0
}

#[test]
fn parses_comments() {
    assert!(ids("# noqa").is_none());
    assert_eq!(ids("# nosec").unwrap().len(), 0);
    assert_eq!(ids("#nosec  # noqa").unwrap().len(), 0);
    let v = ids("# nosec: B101").unwrap();
    assert!(v.contains(&"B101".to_string()) && v.len() == 1);
    let v = ids("# nosec B101, B102").unwrap();
    assert!(v.contains(&"B101".to_string()) && v.contains(&"B102".to_string()));
    let v = ids("# nosec B101,B102").unwrap();
    assert_eq!(v.len(), 2, "comma without space keeps both ids");
    let v = ids("# type: ... # nosec B607 # noqa: E501").unwrap();
    assert!(v.contains(&"B607".to_string()) && v.len() == 1);
    assert_eq!(ids("#nosec (on the line)").unwrap().len(), 0);
    let v = ids("# nosec import_subprocess").unwrap();
    assert!(v.contains(&"B404".to_string()));
}
