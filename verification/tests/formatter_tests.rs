use banditrs::ast::PyCompat;
use banditrs::constants::Rank;
use banditrs::engine::config::BanditConfig;
use banditrs::engine::issue::{Cwe, Issue, LineRange};
use banditrs::engine::manager::{AggType, Manager};
use banditrs::engine::test_set::TestSet;
use banditrs::formatters::csv::python_list_repr;
use banditrs::formatters::{
    baseline_formatters, default_format, formatter_names, is_formatter, output_error, output_results,
};
use banditrs::pycompat::csv::{write_field, write_row};
use banditrs::pycompat::xml::{escape_attrib, escape_cdata};

fn manager() -> Manager {
    let config = BanditConfig::default();
    let profile = config.default_profile();
    let tests = TestSet::new(&config, &profile);
    Manager::new(config, AggType::File, tests, PyCompat::Py312)
}

fn issue(text: &str) -> Issue {
    Issue::new(Rank::Low, Rank::Low, Cwe::notset(), text, "a.py", "t", "B1", 1)
}

#[test]
fn csv_rows() {
    assert_eq!(write_row(&vec!["a".to_string(), "b,c".to_string(), "q\"x".to_string()]), "a,\"b,c\",\"q\"\"x\"\r\n");
    assert_eq!(write_row(&vec!["".to_string()]), "\"\"\r\n");
    assert_eq!(write_row(&vec!["".to_string(), "".to_string()]), ",\r\n");
    assert_eq!(write_field("line\nbreak", false), "\"line\nbreak\"");
    assert_eq!(python_list_repr(&vec![4]), "[4]");
    assert_eq!(python_list_repr(&vec![3, 4, 5, 6]), "[3, 4, 5, 6]");
    assert_eq!(python_list_repr(&vec![]), "[]");
}

#[test]
fn csv_report() {
    let mut m = manager();
    let mut i = issue("a");
    i.cwe = Cwe(78);
    i.linerange = LineRange::new(1, 2);
    m.results.push(i);
    let r = output_results(&m, -1, Rank::Undefined, Rank::Undefined, Some("out.csv"), "csv", "txt", "now", "2024-01-01T00:00:00Z");
    assert_eq!(r.format, "csv");
    assert!(!r.to_stdout);
    assert_eq!(
        r.text.unwrap(),
        "filename,test_name,test_id,issue_severity,issue_confidence,issue_cwe,issue_text,line_number,col_offset,end_col_offset,line_range,more_info\r\n\
         a.py,t,B1,LOW,LOW,https://cwe.mitre.org/data/definitions/78.html,a,1,0,0,\"[1, 2]\",https://bandit.readthedocs.io/en/latest/\r\n"
    );
    let (logger, msg) = r.notice.unwrap();
    assert_eq!(logger, "csv");
    assert_eq!(msg, "CSV output written to file: out.csv");
}

#[test]
fn xml_escaping_and_report() {
    assert_eq!(escape_attrib("a<b>&\"c\"\n\t\r"), "a&lt;b&gt;&amp;&quot;c&quot;&#10;&#09;&#13;");
    assert_eq!(escape_cdata("a<b>&\"c\"\n"), "a&lt;b&gt;&amp;\"c\"\n");
    let mut m = manager();
    let r = output_results(&m, -1, Rank::Undefined, Rank::Undefined, None, "xml", "txt", "now", "2024-01-01T00:00:00Z");
    assert_eq!(r.text.unwrap(), "<?xml version='1.0' encoding='utf-8'?>\n<testsuite name=\"bandit\" tests=\"0\" />");
    assert!(r.notice.is_none());
    m.results.push(issue("a"));
    let r = output_results(&m, -1, Rank::Undefined, Rank::Undefined, None, "xml", "txt", "now", "2024-01-01T00:00:00Z");
    assert_eq!(
        r.text.unwrap(),
        "<?xml version='1.0' encoding='utf-8'?>\n<testsuite name=\"bandit\" tests=\"1\"><testcase classname=\"a.py\" name=\"t\">\
         <error more_info=\"https://bandit.readthedocs.io/en/latest/\" type=\"LOW\" message=\"a\">Test ID: B1 Severity: LOW \
         Confidence: LOW\nCWE: \na\nLocation a.py:1</error></testcase></testsuite>"
    );
}

#[test]
fn formatter_choice() {
    assert_eq!(formatter_names(), vec!["csv", "json", "txt", "xml", "html", "sarif", "screen", "yaml", "custom"]);
    assert_eq!(baseline_formatters(), vec!["json", "txt", "html", "screen", "custom"]);
    assert!(is_formatter("yaml"));
    assert!(!is_formatter("pdf"));
    assert_eq!(default_format(true, false, None), "screen");
    assert_eq!(default_format(true, false, Some("xterm")), "screen");
    assert_eq!(default_format(true, false, Some("dumb")), "txt");
    assert_eq!(default_format(true, true, None), "txt");
    assert_eq!(default_format(false, false, None), "txt");
    let m = manager();
    let r = output_results(&m, -1, Rank::Undefined, Rank::Undefined, Some("o.txt"), "pdf", "txt", "now", "2024-01-01T00:00:00Z");
    assert_eq!(r.format, "txt");
    assert_eq!(r.notice.unwrap().1, "Text output written to file: o.txt");
    let r = output_results(&m, -1, Rank::Undefined, Rank::Undefined, Some("o.txt"), "screen", "txt", "now", "2024-01-01T00:00:00Z");
    assert!(r.to_stdout);
    assert_eq!(r.notice.unwrap().1, "Screen formatter output was not written to file: o.txt, consider '-f txt'");
    assert_eq!(output_error("csv", "disk full"), "Unable to output report using 'csv' formatter: disk full");
}

#[test]
fn quiet_text_report_is_empty_without_results() {
    let mut m = manager();
    m.quiet = true;
    let r = output_results(&m, -1, Rank::Undefined, Rank::Undefined, None, "txt", "txt", "now", "2024-01-01T00:00:00Z");
    assert!(r.text.is_none());
    m.results.push(issue("a"));
    let r = output_results(&m, -1, Rank::Undefined, Rank::Undefined, None, "txt", "txt", "now", "2024-01-01T00:00:00Z");
    let t = r.text.unwrap();
    assert!(t.starts_with("Run started:now\n\nTest results:\n"));
    assert!(t.ends_with("Files skipped (0):\n"));
}
