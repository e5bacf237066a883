use banditrs::ast::linerange::{linerange, LineTree};

fn leaf(line: Option<u32>) -> LineTree {
    LineTree { line, children: vec![] }
}

fn node(line: Option<u32>, children: Vec<LineTree>) -> LineTree {
    LineTree { line, children }
}

#[test]
fn subtree_line_bounds() {
    let t = node(Some(4), vec![leaf(Some(2)), node(None, vec![leaf(Some(9)), leaf(None)])]);
    assert_eq!(t.calc_linerange(), (2, 9));
    assert_eq!(leaf(None).calc_linerange(), (9_999_999_999, -1));
}

#[test]
fn ranges_of_nodes() {
    let r = linerange(Some((3, 5)), &vec![], Some(20));
    assert_eq!((r.start, r.end), (3, 5));
    let kids = vec![leaf(Some(7)), node(None, vec![leaf(Some(4))]), leaf(Some(12))];
    let r = linerange(None, &kids, None);
    assert_eq!((r.start, r.end), (4, 12));
    let r = linerange(None, &kids, Some(10));
    assert_eq!((r.start, r.end), (4, 9));
    let r = linerange(None, &kids, Some(5));
    assert_eq!((r.start, r.end), (4, 12));
    let r = linerange(None, &vec![leaf(None)], None);
    assert_eq!((r.start, r.end), (0, 1));
    let r = linerange(None, &vec![], Some(6));
    assert_eq!((r.start, r.end), (0, 5));
}
