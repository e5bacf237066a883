use banditrs::cli::ini::{ini_section, lines_of, trim_text};

fn pairs(v: &[(&str, &str)]) -> Vec<(String, String)> {
    v.iter().map(|(a, b)| (a.to_string(), b.to_string())).collect()
}

#[test]
fn section_entries_in_order() {
    let text = "[other]\nx = 1\n[bandit]\n# comment\n; another\n\n  targets = src , lib \r\nskips: B101\nexclude=a=b\nnovalue\n[tail]\ny = 2\n";
    assert_eq!(
        ini_section(text, "bandit"),
        Some(pairs(&[("targets", "src , lib"), ("skips", "B101"), ("exclude", "a=b")]))
    );
}

#[test]
fn missing_section_is_none_and_empty_section_is_some() {
    assert_eq!(ini_section("[other]\nx=1", "bandit"), None);
    assert_eq!(ini_section("", "bandit"), None);
    assert_eq!(ini_section("[bandit]", "bandit"), Some(vec![]));
    assert_eq!(ini_section("[bandit]\na=1\n[x]\nb=2\n[bandit]\nc=3", "bandit"), Some(pairs(&[("a", "1"), ("c", "3")])));
}

#[test]
fn lines_and_trim_follow_std() {
    for t in ["a\nb", "a\r\nb\n", "\n\n", "x\r", "", "a\n\r\n"] {
        let want: Vec<String> = t.lines().map(|l| l.to_string()).collect();
        assert_eq!(lines_of(t), want);
    }
    for t in ["  a b  ", "\u{3000}x\t", "   ", ""] {
        assert_eq!(trim_text(t), t.trim());
    }
}
