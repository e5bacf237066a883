use banditrs::ast::vnode::NodeKind;
use banditrs::engine::blacklist::BlacklistEntry;
use banditrs::engine::config::BanditConfig;
use banditrs::engine::issue::Cwe;
use banditrs::engine::test_set::TestSet;
use banditrs::engine::tester::wants;
use indexmap::IndexMap;

fn entry(name: &str, id: &str, qualname: &str) -> BlacklistEntry {
    BlacklistEntry {
        name: name.to_string(),
        id: id.to_string(),
        cwe: Cwe::notset(),
        qualnames: vec![qualname.to_string()],
        message: "{name} used".to_string(),
        level: "LOW".to_string(),
    }
}

#[test]
fn legacy_blacklists_replace_the_builtin_ones() {
    let config = BanditConfig::default();
    let mut profile = config.default_profile();
    let mut legacy: IndexMap<String, Vec<BlacklistEntry>> = IndexMap::new();
    legacy.insert("Call".to_string(), vec![entry("danger", "B990", "mod.danger"), entry("other", "B991", "mod.other")]);
    legacy.insert("Unused".to_string(), vec![entry("x", "B992", "x")]);
    profile.blacklist = Some(legacy);
    let tests = TestSet::new(&config, &profile);
    let table = tests.blacklist.as_ref().unwrap();
    assert_eq!(table.call.len(), 2);
    assert!(table.import.is_empty() && table.import_from.is_empty());
    assert_eq!(table.find_call("mod.other").unwrap().id, "B991");
    assert!(table.find_call("pickle.loads").is_none());
    assert!(wants(&tests, NodeKind::Call));

    let mut empty = config.default_profile();
    empty.blacklist = Some(IndexMap::new());
    let tests = TestSet::new(&config, &empty);
    assert!(tests.blacklist.is_none());
}

#[test]
fn builtin_blacklists_follow_the_profile() {
    let config = BanditConfig::default();
    let profile = config.default_profile();
    let tests = TestSet::new(&config, &profile);
    let table = tests.blacklist.as_ref().unwrap();
    assert_eq!(table.find_call("pickle.loads").unwrap().id, "B301");
    assert!(wants(&tests, NodeKind::Import) && wants(&tests, NodeKind::ImportFrom));
    assert!(!tests.is_empty());
}
