use banditrs::constants::Rank;
use banditrs::engine::issue::{Cwe, Issue, IssueDraft, LineRange};
use banditrs::source::SourceFile;

fn issue() -> Issue {
    let mut i = Issue::new(
        Rank::Medium,
        Rank::Medium,
        Cwe(605),
        "Test issue",
        "code.py",
        "bandit_plugin",
        "B999",
        1,
    );
    i.col_offset = 8;
    i.end_col_offset = 16;
    i
}

#[test]
fn issue_str() {
    let expected = "Issue: 'Test issue' from B999:bandit_plugin: CWE: CWE-605 \
                    (https://cwe.mitre.org/data/definitions/605.html), Severity: MEDIUM \
                    Confidence: MEDIUM at code.py:1:8";
    assert_eq!(issue().to_string(), expected);
}

#[test]
fn issue_filter() {
    let i = issue();
    assert!(i.filter(Rank::Undefined, Rank::Undefined));
    assert!(i.filter(Rank::Low, Rank::Low));
    assert!(i.filter(Rank::Medium, Rank::Medium));
    assert!(!i.filter(Rank::High, Rank::Medium));
    assert!(!i.filter(Rank::Medium, Rank::High));
}

#[test]
fn matches_issue() {
    let a = issue();
    let mut b = issue();
    b.lineno = 2;
    assert!(a.same_signature(&b));
    b.severity = Rank::High;
    assert!(!a.same_signature(&b));
    let mut c = issue();
    c.text = "other".into();
    assert!(!a.same_signature(&c));
    let mut d = issue();
    d.fname = "other.py".into();
    assert!(!a.same_signature(&d));
    let mut e = issue();
    e.test = "other".into();
    assert!(!a.same_signature(&e));
}

#[test]
fn get_code_with_control_chars() {
    let mut i = issue();
    i.source = Some(SourceFile::new("code.py", "\x08\x30\nsecond\nthird\n"));
    i.linerange = LineRange::single(1);
    assert_eq!(i.get_code(3, false), "1 \x08\x30\n2 second\n3 third\n");
    assert_eq!(i.get_code(-1, true), "1\t\x08\x30\n");
    i.lineno = 3;
    i.linerange = LineRange::single(3);
    assert_eq!(i.get_code(3, false), "2 second\n3 third\n");
}

#[test]
fn cwe_text_and_link() {
    assert_eq!(Cwe::notset().to_string(), "");
    assert_eq!(Cwe(78).link(), "https://cwe.mitre.org/data/definitions/78.html");
    assert_eq!(Cwe(0).link(), "");
    assert!(Cwe(22).is_set());
    assert_eq!(Cwe(22).id(), 22);
}

#[test]
fn line_ranges() {
    assert_eq!(LineRange::new(3, 5).to_vec(), vec![3, 4, 5]);
    assert_eq!(LineRange::new(3, 5).len(), 3);
    assert!(LineRange::empty().is_empty());
    assert_eq!(LineRange::empty().to_vec(), Vec::<u32>::new());
    assert_eq!(LineRange::single(u32::MAX).iter(), vec![u32::MAX]);
}

#[test]
fn get_code_without_source_is_empty() {
    assert_eq!(issue().get_code(3, false), "");
}

#[test]
fn ident_replaces_test_name() {
    let mut i = issue();
    i.ident = Some("os.system".to_string());
    assert!(i.to_string().contains("from B999:os.system: CWE"));
}

#[test]
fn draft_builders() {
    let d = IssueDraft::new(Rank::Low, Rank::High, Cwe(78), "text")
        .with_lineno(Some(4))
        .with_col_offset(2)
        .with_linerange(LineRange::new(4, 6))
        .with_ident("x")
        .with_test_id("B602");
    assert_eq!(d.lineno, Some(4));
    assert_eq!(d.col_offset, Some(2));
    assert_eq!(d.linerange, Some(LineRange::new(4, 6)));
    assert_eq!(d.ident.as_deref(), Some("x"));
    assert_eq!(d.test_id.as_deref(), Some("B602"));
    assert_eq!(d.text, "text");
}

#[test]
fn same_signature_law_on_values() {
    let a = issue();
    let mut b = issue();
    b.lineno = 40;
    b.col_offset = 1;
    b.linerange = LineRange::new(40, 41);
    assert!(a.same_signature(&b) && b.same_signature(&a));
}
