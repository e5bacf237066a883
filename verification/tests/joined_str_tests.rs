use banditrs::ast::joined_str::{FElement, FStringPart, FormatSpec, JoinedPart, JoinedStrView, Span, TStringPart};
use banditrs::ast::PyCompat;

fn span(start: u32, end: u32) -> Span {
    Span { start, end }
}

fn lit(text: &str, start: u32, end: u32) -> FElement {
    FElement::Literal { text: text.to_string(), range: span(start, end) }
}

fn interp(start: u32, end: u32) -> FElement {
    FElement::Interpolation { range: span(start, end), debug: None, spec: None }
}

fn texts(v: &JoinedStrView) -> Vec<Option<String>> {
    v.values.iter().map(|p| p.constant_text().map(|t| t.to_string())).collect()
}

/// `x = f'a{b}c' 'd'`: the literal after the f-string joins its last
/// constant.
fn example() -> Vec<FStringPart> {
    vec![
        FStringPart::FString { elements: vec![lit("a", 6, 7), interp(7, 10), lit("c", 10, 11)], range: span(4, 12) },
        FStringPart::Literal { text: "d".to_string(), range: span(13, 16) },
    ]
}

#[test]
fn implicit_concatenation_merges_constants() {
    let v = JoinedStrView::build_fstring(&example(), span(4, 16), PyCompat::Py312);
    assert!(!v.is_template());
    assert_eq!(texts(&v), vec![Some("a".to_string()), None, Some("cd".to_string())]);
    assert_eq!(v.values[2].range(), span(10, 16));
    assert_eq!(v.values[1].range(), span(7, 10));
    assert_eq!(v.constants_joined(), "acd");
    assert_eq!(v.first_constant_index(), Some(0));
}

#[test]
fn python_311_positions_take_the_whole_string() {
    let v = JoinedStrView::build_fstring(&example(), span(4, 16), PyCompat::Py311);
    assert!(v.values.iter().all(|p| p.range() == span(4, 16)));
}

#[test]
fn debug_text_empty_segments_and_specs() {
    // f"{x=}{y:>{w}}" with an empty literal before the spec'd value
    let spec = FormatSpec { range: span(9, 13), elements: vec![lit(">", 9, 10), interp(10, 13)] };
    let elements = vec![
        FElement::Interpolation { range: span(2, 6), debug: Some(("x=".to_string(), span(3, 5))), spec: None },
        lit("", 6, 6),
        FElement::Interpolation { range: span(6, 14), debug: None, spec: Some(spec) },
    ];
    let parts = vec![FStringPart::FString { elements, range: span(0, 15) }];
    let v = JoinedStrView::build_fstring(&parts, span(0, 15), PyCompat::Py312);
    assert_eq!(texts(&v), vec![Some("x=".to_string()), None, None]);
    assert_eq!(v.first_constant_index(), Some(0));
    match &v.values[2] {
        JoinedPart::Formatted { spec: Some(s), .. } => {
            assert_eq!(s.range, span(9, 13));
            assert_eq!(texts(s), vec![Some(">".to_string()), None]);
        }
        _ => panic!("the second value has no format spec"),
    }
    let v = JoinedStrView::build_fstring(&parts_with_spec(), span(0, 15), PyCompat::Py311);
    match &v.values[0] {
        JoinedPart::Formatted { spec: Some(s), .. } => assert_eq!(s.range, span(0, 15)),
        _ => panic!("no format spec"),
    }
}

fn parts_with_spec() -> Vec<FStringPart> {
    let spec = FormatSpec { range: span(5, 7), elements: vec![lit(">5", 5, 7)] };
    vec![FStringPart::FString {
        elements: vec![FElement::Interpolation { range: span(2, 8), debug: None, spec: Some(spec) }],
        range: span(0, 15),
    }]
}

#[test]
fn template_strings() {
    let parts = vec![
        TStringPart { elements: vec![lit("a", 2, 3)], range: span(0, 4) },
        TStringPart { elements: vec![lit("b", 7, 8), interp(8, 11)], range: span(5, 12) },
    ];
    let v = JoinedStrView::build_tstring(&parts, span(0, 12), PyCompat::Py312);
    assert!(v.is_template());
    assert_eq!(texts(&v), vec![Some("ab".to_string()), None]);
    assert_eq!(v.values[0].range(), span(2, 8));
    let empty = JoinedStrView::build_tstring(&vec![], span(0, 3), PyCompat::Py312);
    assert!(empty.values.is_empty());
    assert_eq!(empty.first_constant_index(), None);
}
