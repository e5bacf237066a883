use banditrs::ast::expr::PyExpr;
use banditrs::ast::qualname::{attr_qual_name, call_name, called_name, qual_attr, Aliases};

fn name(id: &str) -> PyExpr {
    PyExpr::Name(id.to_string())
}

fn attr(value: PyExpr, a: &str) -> PyExpr {
    PyExpr::Attribute(Box::new(value), a.to_string())
}

/// `a.b.c.d` and the like: attributes over a name.
fn dotted(path: &str) -> PyExpr {
    let mut parts = path.split('.');
    let mut e = name(parts.next().unwrap());
    for p in parts {
        e = attr(e, p);
    }
    e
}

fn aliases(pairs: &[(&str, &str)]) -> Aliases {
    pairs.iter().map(|(k, v)| (k.to_string(), v.to_string())).collect()
}

#[test]
fn get_call_name() {
    // a.b.c.d(x,y)
    let c = dotted("a.b.c.d");
    assert_eq!(call_name(&c, &aliases(&[])), "a.b.c.d");
    assert_eq!(call_name(&c, &aliases(&[("a", "alias.x.y")])), "alias.x.y.b.c.d");
    assert_eq!(call_name(&c, &aliases(&[("a.b", "alias.x.y")])), "alias.x.y.c.d");
    assert_eq!(call_name(&c, &aliases(&[("a.b.c.d", "alias.x.y")])), "alias.x.y");
    // a.list[0](x,y): the callee is a subscript
    let c = PyExpr::Other;
    assert_eq!(attr_qual_name(&c, &aliases(&[])), "");
    assert_eq!(call_name(&c, &aliases(&[])), "");
    // x[0].bar(1)
    let c = attr(PyExpr::Other, "bar");
    assert_eq!(call_name(&c, &aliases(&[])), ".bar");
    assert_eq!(called_name(&c), "bar");
}

#[test]
fn get_qual_attr() {
    let e = dotted("ssl.PROTOCOL_SSLv2");
    assert_eq!(qual_attr(&e, &aliases(&[])), "ssl.PROTOCOL_SSLv2");
    assert_eq!(qual_attr(&e, &aliases(&[("ssl", "OpenSSL.SSL")])), "OpenSSL.SSL.PROTOCOL_SSLv2");
    let e = dotted("a.b.c");
    assert_eq!(qual_attr(&e, &aliases(&[])), ".c");
    let e = name("name");
    assert_eq!(qual_attr(&e, &aliases(&[])), "");
}

#[test]
fn plain_names_resolve_through_aliases() {
    let a = aliases(&[("sp", "subprocess"), ("run", "subprocess.run")]);
    assert_eq!(call_name(&name("run"), &a), "subprocess.run");
    assert_eq!(call_name(&dotted("sp.Popen"), &a), "subprocess.Popen");
    assert_eq!(called_name(&dotted("sp.Popen")), "Popen");
    assert_eq!(called_name(&name("eval")), "eval");
    assert_eq!(called_name(&PyExpr::Other), "");
    assert_eq!(attr_qual_name(&name("os"), &a), "os");
}
