use banditrs::ast::expr::PyExpr;
use banditrs::ast::positions::Pos;
use banditrs::ast::qualname::Aliases;
use banditrs::ast::scope::Imports;
use banditrs::ast::value::PyValue;
use banditrs::engine::context::{CallExpr, Context, FunctionDef, KeywordArg, Keywords};
use banditrs::engine::issue::LineRange;

fn name(id: &str) -> PyExpr {
    PyExpr::Name(id.to_string())
}

fn attr(value: PyExpr, a: &str) -> PyExpr {
    PyExpr::Attribute(Box::new(value), a.to_string())
}

fn kw(arg: Option<&str>, value: PyExpr, line: u32) -> KeywordArg {
    KeywordArg { arg: arg.map(|s| s.to_string()), value, value_line: line }
}

fn context<'w>(imports: &'w Imports, aliases: &'w Aliases, call: Option<CallExpr>) -> Context<'w> {
    Context {
        filename: "f.py".to_string(),
        pos: Some(Pos { lineno: 3, col_offset: 4, end_lineno: 3, end_col_offset: 20 }),
        linerange: LineRange::single(3),
        call,
        function: None,
        qualname: Some("subprocess.Popen".to_string()),
        name: Some("Popen".to_string()),
        module: None,
        str_val: None,
        bytes_val: None,
        imports,
        import_aliases: aliases,
    }
}

fn popen() -> CallExpr {
    CallExpr {
        func: attr(name("subprocess"), "Popen"),
        args: vec![PyExpr::Str("ls".to_string()), attr(name("os"), "sep")],
        keywords: vec![
            kw(Some("shell"), PyExpr::Bool(false), 3),
            kw(None, name("extra"), 4),
            kw(Some("shell"), PyExpr::Bool(true), 5),
            kw(Some("cwd"), PyExpr::NoneLit, 6),
            kw(Some("env"), PyExpr::Other, 7),
        ],
    }
}

#[test]
fn call_arguments_and_keywords() {
    let imports: Imports = ["os", "subprocess"].iter().map(|s| s.to_string()).collect();
    let aliases: Aliases = Aliases::default();
    let ctx = context(&imports, &aliases, Some(popen()));
    assert_eq!(ctx.lineno(), Some(3));
    assert_eq!(ctx.col_offset(), Some(4));
    assert_eq!(ctx.end_col_offset(), 20);
    assert_eq!(ctx.filename(), "f.py");
    let args = ctx.call_args().unwrap();
    assert_eq!(args.len(), 2);
    assert_eq!(args[0].py_repr(), "'ls'");
    assert_eq!(args[1].py_repr(), "'sep'");
    assert_eq!(ctx.call_args_count(), Some(2));
    assert_eq!(ctx.call_function_name(), Some("Popen"));
    assert_eq!(ctx.call_function_name_qual(), Some("subprocess.Popen"));
    let kws: Keywords = ctx.call_keywords().unwrap().unwrap();
    assert_eq!(kws.0.len(), 5);
    assert_eq!(kws.get("shell").unwrap().py_repr(), "'True'");
    assert!(kws.contains("cwd") && !kws.contains("extra"));
    let fallback = PyValue::Int(0);
    assert_eq!(kws.get_or("missing", &fallback).py_repr(), "0");
    assert_eq!(ctx.get_call_arg_value("shell").unwrap().unwrap().py_repr(), "'True'");
    assert!(ctx.get_call_arg_value("missing").unwrap().is_none());
    assert_eq!(ctx.check_call_arg_value("shell", &vec![PyValue::str("True")]).unwrap(), Some(true));
    assert_eq!(ctx.check_call_arg_is("shell", PyValue::str("False")).unwrap(), Some(false));
    assert_eq!(ctx.check_call_arg_is("env", PyValue::str("x")).unwrap(), None);
    assert_eq!(ctx.check_call_arg_is("cwd", PyValue::str("None")).unwrap(), Some(true));
    assert_eq!(ctx.get_lineno_for_call_arg("shell"), Some(3));
    assert_eq!(ctx.get_lineno_for_call_arg("missing"), None);
    assert_eq!(ctx.get_call_arg_at_position(1).unwrap().unwrap().py_repr(), "'sep'");
    assert!(ctx.get_call_arg_at_position(2).unwrap().is_none());
    assert!(matches!(ctx.call_arg_node(0), Some(PyExpr::Str(s)) if s == "ls"));
    assert!(ctx.is_module_imported_exact("os"));
    assert!(!ctx.is_module_imported_exact("sub"));
    assert!(ctx.is_module_imported_like("sub"));
    assert!(!ctx.is_module_imported_like("pickle"));
    assert!(!ctx.is_module_being_imported("os"));
}

#[test]
fn failing_keyword_values_raise() {
    let imports = Imports::default();
    let aliases = Aliases::default();
    let mut call = popen();
    call.keywords.push(kw(Some("bad"), PyExpr::SetLit(vec![PyExpr::List(vec![])]), 9));
    let ctx = context(&imports, &aliases, Some(call));
    assert_eq!(ctx.call_keywords().unwrap_err().0, "TypeError: unhashable type");
    assert!(ctx.get_call_arg_value("shell").is_err());
    assert!(ctx.call_args().is_ok());
    let none = context(&imports, &aliases, None);
    assert!(none.call_keywords().unwrap().is_none());
    assert!(none.get_call_arg_value("shell").unwrap().is_none());
    assert_eq!(none.call_args_count(), None);
    assert!(none.call_args().unwrap().is_empty());
}

#[test]
fn strings_defaults_and_modules() {
    let imports = Imports::default();
    let aliases: Aliases = [("np".to_string(), "numpy".to_string())].into_iter().collect();
    let mut ctx = context(&imports, &aliases, None);
    ctx.str_val = Some("a\u{202e}\n".to_string());
    assert_eq!(ctx.string_val(), Some("a\u{202e}\n"));
    assert_eq!(ctx.string_val_as_escaped_bytes().unwrap(), b"a\\u202e\\n".to_vec());
    ctx.str_val = None;
    ctx.bytes_val = Some(b"\\x41".to_vec());
    assert_eq!(ctx.string_val_as_escaped_bytes().unwrap(), b"A".to_vec());
    ctx.bytes_val = Some(b"\\x4".to_vec());
    assert!(ctx.string_val_as_escaped_bytes().is_none());
    ctx.function = Some(FunctionDef { defaults: vec![attr(name("np"), "float64"), PyExpr::Int("3".to_string())] });
    assert_eq!(ctx.function_def_defaults_qual(), vec!["numpy.float64".to_string(), String::new()]);
    ctx.module = Some("telnetlib".to_string());
    assert!(ctx.is_module_being_imported("telnetlib"));
    assert_eq!(ctx.literal_value(&PyExpr::Bool(true)).unwrap().py_repr(), "'True'");
}
