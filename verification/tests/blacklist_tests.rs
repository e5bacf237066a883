use banditrs::constants::Rank;
use banditrs::engine::blacklist::{
    all_entries, blacklist_calls, blacklist_imports, entry_by_id, entry_by_name, BlacklistEntry,
    BlacklistTable,
};
use banditrs::engine::docs_utils::{base_url, get_url};
use banditrs::engine::issue::Cwe;
use banditrs::engine::registry::{
    all_ids_and_names, check_id, get_test_id, plugin_by_id, plugin_by_name, plugins,
    resolve_test_token,
};

#[test]
fn report_issue_matches_python() {
    let e = BlacklistEntry {
        name: "x".into(),
        id: "B000".into(),
        cwe: Cwe::notset(),
        qualnames: vec![],
        message: "test {name}".into(),
        level: "HIGH".into(),
    };
    let d = e.report_issue("name");
    assert_eq!(d.severity, Rank::High);
    assert_eq!(d.confidence, Rank::High);
    assert_eq!(d.cwe, Cwe::notset());
    assert_eq!(d.text, "test name");
    assert_eq!(d.test_id.as_deref(), Some("B000"));
}

#[test]
fn report_issue_unknown_level_is_medium() {
    let e = BlacklistEntry {
        name: "x".into(),
        id: "B000".into(),
        cwe: Cwe(78),
        qualnames: vec![],
        message: "{name} and {name}".into(),
        level: "weird".into(),
    };
    let d = e.report_issue("n");
    assert_eq!(d.severity, Rank::Medium);
    assert_eq!(d.text, "n and n");
    assert_eq!(d.ident.as_deref(), Some("n"));
}

#[test]
fn tables() {
    assert_eq!(blacklist_calls().len(), 20);
    assert_eq!(blacklist_imports().len(), 13);
    let t = BlacklistTable::builtin();
    assert_eq!(t.find_call("pickle.loads").map(|e| e.id.as_str()), Some("B301"));
    assert_eq!(t.find_call("telnetlib").map(|e| e.id.as_str()), Some("B401"));
    assert!(t.find_call("hashlib.md5").is_none());
    assert_eq!(entry_by_id("B413").unwrap().name, "import_pycrypto");
    assert_eq!(entry_by_name("md5").unwrap().id, "B303");
}

#[test]
fn filtered_keeps_listed_ids_in_order() {
    let t = BlacklistTable::builtin().filtered(&vec!["B401".to_string(), "B301".to_string()]);
    let ids: Vec<&str> = t.call.iter().map(|e| e.id.as_str()).collect();
    assert_eq!(ids, vec!["B301", "B401"]);
    assert_eq!(t.import.len(), 1);
    assert!(!t.is_empty());
    assert!(BlacklistTable::builtin().filtered(&vec![]).is_empty());
    assert_eq!(all_entries().len(), 33);
}

#[test]
fn registry_is_consistent() {
    assert_eq!(plugins().len(), 42);
    assert_eq!(plugin_by_id("B324").unwrap().func_name, "hashlib");
    assert_eq!(plugin_by_name("subprocess_popen_with_shell_equals_true").unwrap().id, "B602");
    assert!(check_id("B001"));
    assert!(check_id("B101"));
    assert!(check_id("B401"));
    assert!(!check_id("B999"));
    assert_eq!(get_test_id("md5"), Some("B303"));
    assert_eq!(resolve_test_token("import_subprocess").as_deref(), Some("B404"));
    assert_eq!(resolve_test_token("B101").as_deref(), Some("B101"));
    assert_eq!(resolve_test_token("nothing"), None);
    assert_eq!(all_ids_and_names().len(), 42 + 33);
}

#[test]
fn urls() {
    let base = base_url();
    assert_eq!(get_url("B304"), get_url("B305"));
    assert_eq!(
        get_url("B304"),
        format!("{base}blacklists/blacklist_calls.html#b304-b305-ciphers-and-modes")
    );
    assert_eq!(get_url("B101"), format!("{base}plugins/b101_assert_used.html"));
    assert_eq!(
        get_url("B413"),
        format!("{base}blacklists/blacklist_imports.html#b413-import-pycrypto")
    );
    assert_eq!(get_url("B324"), format!("{base}plugins/b324_hashlib.html"));
    assert_eq!(
        get_url("B313"),
        format!("{base}blacklists/blacklist_calls.html#b313-b320-xml-bad-celementtree")
    );
    assert_eq!(get_url("B999"), base);
}

#[test]
fn base_url_value() {
    assert_eq!(base_url(), "https://bandit.readthedocs.io/en/latest/");
    assert_eq!(get_url("B320"), base_url());
    assert!(get_url("B319").starts_with(&format!("{}blacklists/blacklist_calls.html#b313-b320-", base_url())));
}
