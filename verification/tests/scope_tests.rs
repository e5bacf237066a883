use banditrs::ast::scope::{ImportName, WalkState};
use banditrs::engine::utils::InvalidModulePath;
use banditrs::log::Level;

fn import(name: &str, asname: Option<&str>) -> ImportName {
    ImportName { name: name.to_string(), asname: asname.map(|s| s.to_string()) }
}

#[test]
fn imports_and_aliases_are_remembered() {
    let (mut st, logs) = WalkState::for_module("pkg/mod.py", Ok("pkg.mod".to_string()));
    assert_eq!(logs, vec![(Level::Debug, "Module qualified name: pkg.mod".to_string())]);
    let last = st.record_import(&vec![import("os", None), import("subprocess", Some("sp"))]);
    assert_eq!(last.as_deref(), Some("subprocess"));
    assert!(st.imports.contains("os") && st.imports.contains("subprocess"));
    assert_eq!(st.import_aliases.get("sp").map(|s| s.as_str()), Some("subprocess"));
    assert!(st.import_aliases.get("os").is_none());
    let last = st.record_import_from("xml.etree", &vec![import("ElementTree", Some("ET")), import("parse", None)]);
    assert_eq!(last.as_deref(), Some("parse"));
    assert!(st.imports.contains("xml.etree.ElementTree") && st.imports.contains("xml.etree.parse"));
    assert_eq!(st.import_aliases.get("ET").map(|s| s.as_str()), Some("xml.etree.ElementTree"));
    assert_eq!(st.import_aliases.get("parse").map(|s| s.as_str()), Some("xml.etree.parse"));
    assert!(st.record_import(&vec![]).is_none());
}

#[test]
fn namespaces_follow_classes_and_functions() {
    let (mut st, _) = WalkState::for_module("m.py", Ok("m".to_string()));
    let outer = st.enter_class("C");
    assert_eq!(st.namespace, "m.C");
    let (inner, qualname, name) = st.enter_function("f");
    assert_eq!(qualname, "m.C.f");
    assert_eq!(name, "f");
    assert_eq!(st.namespace, "m.C.f");
    st.leave(inner);
    assert_eq!(st.namespace, "m.C");
    st.leave(outer);
    assert_eq!(st.namespace, "m");
}

#[test]
fn unnamed_module_starts_empty() {
    let (st, logs) = WalkState::for_module("x.py", Err(InvalidModulePath("bad".to_string())));
    assert_eq!(st.namespace, "");
    assert_eq!(logs.len(), 2);
    assert_eq!(logs[0], (Level::Warning, "Unable to find qualified name for module: x.py".to_string()));
    assert_eq!(logs[1], (Level::Debug, "Module qualified name: ".to_string()));
}
