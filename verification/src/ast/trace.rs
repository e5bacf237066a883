//! The lines of a walk trace (`--dump-walk`): one per visited node, and one
//! per node whose calls, functions, imports or strings tests would see.

use vstd::prelude::*;
use crate::ast::literal::{repr_bytes, repr_bytes_spec, repr_str, repr_str_spec};
use crate::ast::positions::Pos;
use crate::ast::vnode::NodeKind;
use crate::engine::context::{opt_view, Context};
use crate::engine::issue::{range_len, LineRange};
use crate::text::{decimal, push_char, push_decimal, push_str};

verus! {

/// A text, or `-` when absent.
pub open spec fn or_dash(o: Option<Seq<char>>) -> Seq<char> {
    match o {
        Some(t) => t,
        None => "-"@,
    }
}

/// A number, or `-` when absent.
pub open spec fn num_or_dash(o: Option<u32>) -> Seq<char> {
    match o {
        Some(n) => decimal(n as nat),
        None => "-"@,
    }
}

/// The bytes of optional bytes.
pub open spec fn opt_bytes(o: Option<Vec<u8>>) -> Option<Seq<u8>> {
    match o {
        Some(b) => Some(b@),
        None => None,
    }
}

/// A line range as `start-end`.
pub open spec fn range_text(r: LineRange) -> Seq<char> {
    decimal(r.start as nat) + "-"@ + decimal(r.end as nat)
}

/// The fields of a line, separated by tabs.
pub open spec fn tabbed(fields: Seq<Seq<char>>) -> Seq<char>
    decreases fields.len(),
{
    if fields.len() == 0 {
        Seq::empty()
    } else if fields.len() == 1 {
        fields[0]
    } else {
        tabbed(fields.drop_last()) + seq!['\t'] + fields.last()
    }
}

/// The line of a visited node: its class, position (`-` for each part
/// when it has none), line range (`-` when empty), parent's class and next
/// sibling's line.
pub open spec fn node_line(
    class: Seq<char>,
    pos: Option<Pos>,
    linerange: LineRange,
    parent: Option<Seq<char>>,
    sibling_line: Option<u32>,
) -> Seq<char> {
    tabbed(
        seq![
            class,
            num_or_dash(match pos { Some(p) => Some(p.lineno), None => None }),
            num_or_dash(match pos { Some(p) => Some(p.col_offset), None => None }),
            num_or_dash(match pos { Some(p) => Some(p.end_lineno), None => None }),
            num_or_dash(match pos { Some(p) => Some(p.end_col_offset), None => None }),
            if range_len(linerange) == 0 { "-"@ } else { range_text(linerange) },
            or_dash(parent),
            num_or_dash(sibling_line),
        ],
    )
}

/// The line for the tests of `kind` on a context with these fields.
pub open spec fn test_line(
    kind: NodeKind,
    qualname: Option<Seq<char>>,
    name: Option<Seq<char>>,
    module: Option<Seq<char>>,
    str_val: Option<Seq<char>>,
    bytes_val: Option<Seq<u8>>,
    linerange: LineRange,
) -> Option<Seq<char>> {
    match kind {
        NodeKind::Call => Some(tabbed(seq!["CALL"@, or_dash(qualname), or_dash(name)])),
        NodeKind::FunctionDef => Some(tabbed(seq!["FUNC"@, or_dash(qualname), or_dash(name)])),
        NodeKind::Import => Some(tabbed(seq!["IMPORT"@, or_dash(module)])),
        NodeKind::ImportFrom => Some(tabbed(seq!["IMPORTFROM"@, or_dash(module), or_dash(name)])),
        NodeKind::Str => Some(
            tabbed(
                seq![
                    "STR"@,
                    repr_str_spec(match str_val { Some(s) => s, None => Seq::empty() }),
                    range_text(linerange),
                ],
            ),
        ),
        NodeKind::Bytes => Some(
            tabbed(
                seq![
                    "BYTES"@,
                    repr_bytes_spec(match bytes_val { Some(b) => b, None => Seq::empty() }),
                    range_text(linerange),
                ],
            ),
        ),
        _ => None,
    }
}

fn push_tab(s: &mut String)
    ensures
        final(s)@ == old(s)@ + seq!['\t'],
{
    push_char(s, '\t');
}

fn push_num_or_dash(s: &mut String, o: Option<u32>)
    ensures
        final(s)@ == old(s)@ + num_or_dash(o),
{
    match o {
        Some(n) => push_decimal(s, n as u64),
        None => push_str(s, "-"),
    }
}

fn push_or_dash(s: &mut String, o: Option<&str>)
    ensures
        final(s)@ == old(s)@ + or_dash(
            match o {
                Some(t) => Some(t@),
                None => None,
            },
        ),
{
    match o {
        Some(t) => push_str(s, t),
        None => push_str(s, "-"),
    }
}

fn push_range(s: &mut String, r: LineRange)
    ensures
        final(s)@ == old(s)@ + range_text(r),
{
    push_decimal(s, r.start as u64);
    push_str(s, "-");
    push_decimal(s, r.end as u64);
}

/// `pre_visit`'s line for a node.
pub fn trace_node_line(
    class: &str,
    pos: Option<Pos>,
    linerange: LineRange,
    parent: Option<&str>,
    sibling_line: Option<u32>,
) -> (r: String)
    ensures
        r@ == node_line(
            class@,
            pos,
            linerange,
            match parent {
                Some(p) => Some(p@),
                None => None,
            },
            sibling_line,
        ),
{
    let mut s = String::new();
    push_str(&mut s, class);
    push_tab(&mut s);
    push_num_or_dash(&mut s, match pos { Some(p) => Some(p.lineno), None => None });
    push_tab(&mut s);
    push_num_or_dash(&mut s, match pos { Some(p) => Some(p.col_offset), None => None });
    push_tab(&mut s);
    push_num_or_dash(&mut s, match pos { Some(p) => Some(p.end_lineno), None => None });
    push_tab(&mut s);
    push_num_or_dash(&mut s, match pos { Some(p) => Some(p.end_col_offset), None => None });
    push_tab(&mut s);
    if linerange.is_empty() {
        push_str(&mut s, "-");
    } else {
        push_range(&mut s, linerange);
    }
    push_tab(&mut s);
    push_or_dash(&mut s, parent);
    push_tab(&mut s);
    push_num_or_dash(&mut s, sibling_line);
    proof {
        let f = seq![
            class@,
            num_or_dash(match pos { Some(p) => Some(p.lineno), None => None }),
            num_or_dash(match pos { Some(p) => Some(p.col_offset), None => None }),
            num_or_dash(match pos { Some(p) => Some(p.end_lineno), None => None }),
            num_or_dash(match pos { Some(p) => Some(p.end_col_offset), None => None }),
            if range_len(linerange) == 0 { "-"@ } else { range_text(linerange) },
            or_dash(match parent { Some(p) => Some(p@), None => None }),
            num_or_dash(sibling_line),
        ];
        reveal_with_fuel(tabbed, 8);
        assert(f.drop_last().drop_last().drop_last().drop_last().drop_last().drop_last().drop_last() =~= seq![f[0]]);
        assert(f.drop_last().drop_last().drop_last().drop_last().drop_last().drop_last() =~= seq![f[0], f[1]]);
        assert(f.drop_last().drop_last().drop_last().drop_last().drop_last() =~= seq![f[0], f[1], f[2]]);
        assert(f.drop_last().drop_last().drop_last().drop_last() =~= seq![f[0], f[1], f[2], f[3]]);
        assert(f.drop_last().drop_last().drop_last() =~= seq![f[0], f[1], f[2], f[3], f[4]]);
        assert(f.drop_last().drop_last() =~= seq![f[0], f[1], f[2], f[3], f[4], f[5]]);
        assert(f.drop_last() =~= seq![f[0], f[1], f[2], f[3], f[4], f[5], f[6]]);
        assert(s@ =~= tabbed(f));
    }
    s
}

/// The line for the tests of `kind` on the context `ctx`, if the trace
/// shows that kind.
pub fn trace_test_line(ctx: &Context, kind: NodeKind) -> (r: Option<String>)
    ensures
        match test_line(
            kind,
            opt_view(ctx.qualname),
            opt_view(ctx.name),
            opt_view(ctx.module),
            opt_view(ctx.str_val),
            opt_bytes(ctx.bytes_val),
            ctx.linerange,
        ) {
            Some(t) => r matches Some(x) && x@ == t,
            None => r is None,
        },
{
    let qualname = match &ctx.qualname { Some(q) => Some(q.as_str()), None => None };
    let name = match &ctx.name { Some(q) => Some(q.as_str()), None => None };
    let module = match &ctx.module { Some(q) => Some(q.as_str()), None => None };
    let mut s = String::new();
    proof {
        reveal_with_fuel(tabbed, 3);
    }
    match kind {
        NodeKind::Call | NodeKind::FunctionDef => {
            let head = if kind == NodeKind::Call { "CALL" } else { "FUNC" };
            push_str(&mut s, head);
            push_tab(&mut s);
            push_or_dash(&mut s, qualname);
            push_tab(&mut s);
            push_or_dash(&mut s, name);
            proof {
                let f = seq![head@, or_dash(opt_view(ctx.qualname)), or_dash(opt_view(ctx.name))];
                assert(f.drop_last().drop_last() =~= seq![f[0]]);
                assert(f.drop_last() =~= seq![f[0], f[1]]);
                assert(s@ =~= tabbed(f));
            }
            Some(s)
        },
        NodeKind::Import => {
            push_str(&mut s, "IMPORT");
            push_tab(&mut s);
            push_or_dash(&mut s, module);
            proof {
                let f = seq!["IMPORT"@, or_dash(opt_view(ctx.module))];
                assert(f.drop_last() =~= seq![f[0]]);
                assert(s@ =~= tabbed(f));
            }
            Some(s)
        },
        NodeKind::ImportFrom => {
            push_str(&mut s, "IMPORTFROM");
            push_tab(&mut s);
            push_or_dash(&mut s, module);
            push_tab(&mut s);
            push_or_dash(&mut s, name);
            proof {
                let f = seq!["IMPORTFROM"@, or_dash(opt_view(ctx.module)), or_dash(opt_view(ctx.name))];
                assert(f.drop_last().drop_last() =~= seq![f[0]]);
                assert(f.drop_last() =~= seq![f[0], f[1]]);
                assert(s@ =~= tabbed(f));
            }
            Some(s)
        },
        NodeKind::Str => {
            push_str(&mut s, "STR");
            push_tab(&mut s);
            let v = match &ctx.str_val {
                Some(t) => repr_str(t.as_str()),
                None => repr_str(""),
            };
            proof {
                reveal_strlit("");
            }
            push_str(&mut s, v.as_str());
            push_tab(&mut s);
            push_range(&mut s, ctx.linerange);
            proof {
                let f = seq![
                    "STR"@,
                    repr_str_spec(match opt_view(ctx.str_val) { Some(t) => t, None => Seq::empty() }),
                    range_text(ctx.linerange),
                ];
                assert(f.drop_last().drop_last() =~= seq![f[0]]);
                assert(f.drop_last() =~= seq![f[0], f[1]]);
                assert(s@ =~= tabbed(f));
            }
            Some(s)
        },
        NodeKind::Bytes => {
            push_str(&mut s, "BYTES");
            push_tab(&mut s);
            let empty: Vec<u8> = Vec::new();
            let v = match &ctx.bytes_val {
                Some(b) => repr_bytes(b.as_slice()),
                None => repr_bytes(empty.as_slice()),
            };
            push_str(&mut s, v.as_str());
            push_tab(&mut s);
            push_range(&mut s, ctx.linerange);
            proof {
                assert(empty@ =~= Seq::<u8>::empty());
                let f = seq![
                    "BYTES"@,
                    repr_bytes_spec(match opt_bytes(ctx.bytes_val) { Some(b) => b, None => Seq::empty() }),
                    range_text(ctx.linerange),
                ];
                assert(f.drop_last().drop_last() =~= seq![f[0]]);
                assert(f.drop_last() =~= seq![f[0], f[1]]);
                assert(s@ =~= tabbed(f));
            }
            Some(s)
        },
        _ => None,
    }
}

} // verus!
