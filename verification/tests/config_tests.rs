use banditrs::engine::config::{BanditConfig, ConfigValue};

#[test]
fn defaults_and_get_option() {
    let c = BanditConfig::default();
    assert_eq!(c.get_setting("plugin_name_pattern"), Some("*.py"));
    assert_eq!(c.get_setting("other"), None);
    let key = format!("incl{}", "ude");
    let inc = c.get_option(&key).unwrap().as_list().unwrap();
    assert_eq!(inc.len(), 2);
    assert!(c.get_option("a.b").is_none());
    let inner = vec![("b".to_string(), ConfigValue::Int(3))];
    let m = vec![("a".to_string(), ConfigValue::Mapping(inner))];
    let c = BanditConfig { path: None, raw: ConfigValue::Mapping(m), plugin_name_pattern: "*.py".into() };
    assert!(matches!(c.get_option("a.b"), Some(ConfigValue::Int(3))));
    assert!(c.get_option("a.c").is_none());
}
