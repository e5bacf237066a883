use banditrs::ast::positions::Pos;
use banditrs::ast::qualname::Aliases;
use banditrs::ast::scope::Imports;
use banditrs::ast::trace::{trace_node_line, trace_test_line};
use banditrs::ast::vnode::NodeKind;
use banditrs::engine::context::Context;
use banditrs::engine::issue::LineRange;

fn pos(lineno: u32, col_offset: u32, end_lineno: u32, end_col_offset: u32) -> Option<Pos> {
    Some(Pos { lineno, col_offset, end_lineno, end_col_offset })
}

#[test]
fn node_lines() {
    assert_eq!(
        trace_node_line("FunctionDef", pos(3, 0, 4, 8), LineRange::new(3, 4), Some("Module"), Some(5)),
        "FunctionDef\t3\t0\t4\t8\t3-4\tModule\t5"
    );
    assert_eq!(
        trace_node_line("If", pos(7, 0, 10, 8), LineRange::new(7, 10), Some("If"), None),
        "If\t7\t0\t10\t8\t7-10\tIf\t-"
    );
    assert_eq!(
        trace_node_line("arguments", None, LineRange::new(5, 5), Some("FunctionDef"), None),
        "arguments\t-\t-\t-\t-\t5-5\tFunctionDef\t-"
    );
    assert_eq!(trace_node_line("Module", None, LineRange::empty(), None, None), "Module\t-\t-\t-\t-\t-\t-\t-");
}

#[test]
fn test_lines() {
    let imports = Imports::default();
    let aliases = Aliases::default();
    let mut ctx = Context {
        filename: "./x/mod.py".to_string(),
        pos: pos(3, 0, 3, 3),
        linerange: LineRange::new(3, 3),
        call: None,
        function: None,
        qualname: Some("os.system".to_string()),
        name: Some("system".to_string()),
        module: None,
        str_val: Some("x".to_string()),
        bytes_val: Some(b"y".to_vec()),
        imports: &imports,
        import_aliases: &aliases,
    };
    assert_eq!(trace_test_line(&ctx, NodeKind::Call).unwrap(), "CALL\tos.system\tsystem");
    assert_eq!(trace_test_line(&ctx, NodeKind::Str).unwrap(), "STR\t'x'\t3-3");
    assert_eq!(trace_test_line(&ctx, NodeKind::Bytes).unwrap(), "BYTES\tb'y'\t3-3");
    assert_eq!(trace_test_line(&ctx, NodeKind::Import).unwrap(), "IMPORT\t-");
    assert!(trace_test_line(&ctx, NodeKind::Assert).is_none());
    ctx.qualname = Some("mod.f".to_string());
    ctx.name = Some("f".to_string());
    assert_eq!(trace_test_line(&ctx, NodeKind::FunctionDef).unwrap(), "FUNC\tmod.f\tf");
    ctx.module = Some("a".to_string());
    ctx.name = Some("b".to_string());
    assert_eq!(trace_test_line(&ctx, NodeKind::ImportFrom).unwrap(), "IMPORTFROM\ta\tb");
    ctx.module = Some("os".to_string());
    assert_eq!(trace_test_line(&ctx, NodeKind::Import).unwrap(), "IMPORT\tos");
}
