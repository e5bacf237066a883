use banditrs::log::{placeholder, Level, Logger};

#[test]
fn buffer_collects_entries() {
    let mut logger = Logger::new();
    logger.set_level(Level::Info);
    let previous = logger.begin_buffer();
    let hello = format!("hello {}", 1);
    assert_eq!(logger.log("manager", Level::Info, &hello), None);
    assert_eq!(logger.log("manager", Level::Debug, "hidden"), None);
    let entries = logger.end_buffer(previous);
    assert_eq!(entries.len(), 1);
    assert_eq!(entries[0].message, "hello 1");
    assert_eq!(entries[0].module, "manager");
}

#[test]
fn default_format() {
    let logger = Logger::new();
    assert_eq!(logger.format_entry("manager", Level::Warning, "msg"), "[manager]\tWARNING\tmsg");
}

#[test]
fn unbuffered_records_are_returned_as_lines() {
    let mut logger = Logger::new();
    assert_eq!(logger.log("main", Level::Info, "dropped"), None);
    assert_eq!(logger.log("main", Level::Error, "kept").as_deref(), Some("[main]\tERROR\tkept"));
    assert!(logger.enabled(Level::Critical));
    assert!(!logger.enabled(Level::Debug));
    assert_eq!(Level::from_u8(9), Level::Critical);
    assert_eq!(Level::Error.name(), "ERROR");
}

#[test]
fn custom_format_substitutes_placeholders() {
    let mut logger = Logger::new();
    logger.set_format("%(name)s|%(levelname)8s|%(message)s|%(other)s");
    assert_eq!(logger.format_entry("main", Level::Info, "m"), "root|    INFO|m|");
    assert_eq!(placeholder("module", "", "mod", Level::Debug, "x"), "mod");
    assert_eq!(placeholder("levelname", "3", "mod", Level::Debug, "x"), "DEBUG");
}

#[test]
fn custom_format_leaves_non_placeholders_alone() {
    let mut logger = Logger::new();
    logger.set_format("%%(name)s %(name)xs %()s %(message)5s");
    assert_eq!(logger.format_entry("mod", Level::Info, "m"), "%mod %(name)xs %()s     m");
}

#[test]
fn flushing_keeps_enabled_records_in_order() {
    let mut logger = Logger::new();
    logger.set_level(Level::Debug);
    let prev = logger.begin_buffer();
    logger.log("a", Level::Debug, "one");
    logger.log("b", Level::Error, "two");
    let entries = logger.end_buffer(prev);
    logger.set_level(Level::Warning);
    assert_eq!(logger.flush_entries(&entries), vec!["[b]\tERROR\ttwo".to_string()]);
}
