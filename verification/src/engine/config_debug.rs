//! The debugging text of a configuration value, as `{:?}` writes it:
//! variant names, lists in brackets, mappings in braces with quoted keys,
//! strings quoted and escaped, floats without the exponent's sign and
//! leading zeros.

use vstd::prelude::*;
use crate::engine::config::{ConfigValue, int_text};
use crate::text::{escape_debug, escape_debug_of, push_char, push_str, str_eq};

verus! {

/// The exponent of a float's text from position `j` on, leading zeros
/// dropped (one digit stays).
pub open spec fn exponent_digits(r: Seq<char>, j: int) -> Seq<char>
    decreases r.len() - j,
{
    if 0 <= j && j + 1 < r.len() && r[j] == '0' {
        exponent_digits(r, j + 1)
    } else {
        r.subrange(j, r.len() as int)
    }
}

/// The exponent of a float's text from position `j` on (just after the
/// `e`): a `+` is dropped, a `-` kept, then the digits.
pub open spec fn exponent_text(r: Seq<char>, j: int) -> Seq<char> {
    if j < r.len() && r[j] == '+' {
        exponent_digits(r, j + 1)
    } else if j < r.len() && r[j] == '-' {
        seq!['-'] + exponent_digits(r, j + 1)
    } else {
        exponent_digits(r, j)
    }
}

/// A float's Python text from position `i` on, rewritten as `{:?}`
/// writes the float: the mantissa as it is, the exponent by
/// [`exponent_text`].
pub open spec fn float_text_from(r: Seq<char>, i: int) -> Seq<char>
    decreases r.len() - i,
{
    if i < 0 || i >= r.len() {
        Seq::empty()
    } else if r[i] == 'e' {
        seq!['e'] + exponent_text(r, i + 1)
    } else {
        seq![r[i]] + float_text_from(r, i + 1)
    }
}

/// `{:?}` of a float whose Python `repr` is `r` (`1e+16` is `1e16`,
/// `1e-05` is `1e-5`, `nan` is `NaN`).
pub open spec fn float_debug(r: Seq<char>) -> Seq<char> {
    if r == "nan"@ {
        "NaN"@
    } else {
        float_text_from(r, 0)
    }
}

/// One character of a string's debugging text: a single quote stays as
/// it is, any other character is escaped as `char::escape_debug` does.
pub open spec fn char_debug(c: char) -> Seq<char> {
    if c == '\'' {
        seq![c]
    } else {
        escape_debug_of(c)
    }
}

/// The escaped characters of `s`.
pub open spec fn escaped(s: Seq<char>) -> Seq<char>
    decreases s.len(),
{
    if s.len() == 0 {
        Seq::empty()
    } else {
        escaped(s.drop_last()) + char_debug(s.last())
    }
}

/// `{:?}` of a string: quoted, each character escaped.
pub open spec fn str_debug(s: Seq<char>) -> Seq<char> {
    seq!['"'] + escaped(s) + seq!['"']
}

/// `{:?}` of a configuration value.
pub open spec fn debug_text(v: ConfigValue) -> Seq<char>
    decreases v, 0nat,
{
    match v {
        ConfigValue::Null => "Null"@,
        ConfigValue::Bool(b) => "Bool("@ + (if b { "true"@ } else { "false"@ }) + ")"@,
        ConfigValue::Int(i) => "Int("@ + int_text(i) + ")"@,
        ConfigValue::Float(f) => "Float("@ + float_debug(f.repr@) + ")"@,
        ConfigValue::Str(s) => "Str("@ + str_debug(s@) + ")"@,
        ConfigValue::List(l) => "List(["@ + items_debug(l@) + "])"@,
        ConfigValue::Mapping(m) => "Map({"@ + entries_debug(m@) + "})"@,
    }
}

/// The items of a list, each by [`debug_text`], separated by `", "`.
pub open spec fn items_debug(s: Seq<ConfigValue>) -> Seq<char>
    decreases s, 1nat,
{
    if s.len() == 0 {
        Seq::empty()
    } else if s.len() == 1 {
        debug_text(s[0])
    } else {
        items_debug(s.drop_last()) + ", "@ + debug_text(s.last())
    }
}

/// The entries of a mapping, each as `"key": value`, separated by `", "`.
pub open spec fn entries_debug(s: Seq<(String, ConfigValue)>) -> Seq<char>
    decreases s, 1nat,
{
    if s.len() == 0 {
        Seq::empty()
    } else if s.len() == 1 {
        str_debug(s[0].0@) + ": "@ + debug_text(s[0].1)
    } else {
        entries_debug(s.drop_last()) + ", "@ + str_debug(s.last().0@) + ": "@ + debug_text(s.last().1)
    }
}

/// Appends `{:?}` of the string `t`.
pub fn push_str_debug(s: &mut String, t: &str)
    ensures
        final(s)@ == old(s)@ + str_debug(t@),
{
    let ghost start = s@;
    push_char(s, '"');
    let n = t.unicode_len();
    let mut i: usize = 0;
    while i < n
        invariant
            n == t@.len(),
            i <= n,
            s@ == start + seq!['"'] + escaped(t@.subrange(0, i as int)),
        decreases n - i,
    {
        let c = t.get_char(i);
        let ghost before = s@;
        if c == '\'' {
            push_char(s, c);
        } else {
            let e = escape_debug(c);
            push_str(s, e.as_str());
        }
        assert(t@.subrange(0, i + 1).drop_last() =~= t@.subrange(0, i as int));
        assert(s@ =~= before + char_debug(c));
        i = i + 1;
    }
    assert(t@.subrange(0, n as int) =~= t@);
    push_char(s, '"');
    assert(s@ =~= start + str_debug(t@));
}

/// Appends the exponent's digits of `r` from `j` on.
fn push_exponent_digits(s: &mut String, r: &str, j: usize)
    requires
        j <= r@.len(),
    ensures
        final(s)@ == old(s)@ + exponent_digits(r@, j as int),
{
    let n = r.unicode_len();
    let mut k: usize = j;
    while k < n && k + 1 < n && r.get_char(k) == '0'
        invariant
            n == r@.len(),
            j <= k <= n,
            exponent_digits(r@, j as int) == exponent_digits(r@, k as int),
            s@ == old(s)@,
        decreases n - k,
    {
        k = k + 1;
    }
    let ghost before = s@;
    let mut m: usize = k;
    while m < n
        invariant
            n == r@.len(),
            k <= m <= n,
            s@ == before + r@.subrange(k as int, m as int),
        decreases n - m,
    {
        push_char(s, r.get_char(m));
        assert(r@.subrange(k as int, m + 1) =~= r@.subrange(k as int, m as int).push(r@[m as int]));
        m = m + 1;
    }
}

/// Appends `{:?}` of the float whose Python `repr` is `r`.
pub fn push_float_debug(s: &mut String, r: &str)
    ensures
        final(s)@ == old(s)@ + float_debug(r@),
{
    if str_eq(r, "nan") {
        proof {
            reveal_strlit("nan");
        }
        push_str(s, "NaN");
        proof {
            reveal_strlit("NaN");
        }
        return;
    }
    let ghost start = s@;
    let n = r.unicode_len();
    let mut i: usize = 0;
    while i < n && r.get_char(i) != 'e'
        invariant
            n == r@.len(),
            i <= n,
            s@ + float_text_from(r@, i as int) == start + float_text_from(r@, 0),
        decreases n - i,
    {
        let ghost before = s@;
        push_char(s, r.get_char(i));
        assert(s@ + float_text_from(r@, i + 1) =~= before + float_text_from(r@, i as int));
        i = i + 1;
    }
    if i < n {
        let ghost before = s@;
        push_char(s, 'e');
        let j: usize = i + 1;
        if j < n && r.get_char(j) == '+' {
            push_exponent_digits(s, r, j + 1);
        } else if j < n && r.get_char(j) == '-' {
            push_char(s, '-');
            push_exponent_digits(s, r, j + 1);
        } else {
            push_exponent_digits(s, r, j);
        }
        assert(s@ =~= before + float_text_from(r@, i as int));
    } else {
        assert(s@ =~= start + float_text_from(r@, 0));
    }
}

/// Appends `{:?}` of the value `v`.
pub fn push_debug(s: &mut String, v: &ConfigValue)
    ensures
        final(s)@ == old(s)@ + debug_text(*v),
    decreases *v,
{
    let ghost start = s@;
    match v {
        ConfigValue::Null => {
            push_str(s, "Null");
            proof {
                reveal_strlit("Null");
            }
        },
        ConfigValue::Bool(b) => {
            push_str(s, "Bool(");
            if *b {
                push_str(s, "true");
            } else {
                push_str(s, "false");
            }
            push_str(s, ")");
            proof {
                reveal_strlit("Bool(");
                reveal_strlit("true");
                reveal_strlit("false");
                reveal_strlit(")");
            }
            assert(s@ =~= start + debug_text(*v));
        },
        ConfigValue::Int(i) => {
            push_str(s, "Int(");
            crate::engine::config::push_int(s, *i);
            push_str(s, ")");
            proof {
                reveal_strlit("Int(");
                reveal_strlit(")");
            }
            assert(s@ =~= start + debug_text(*v));
        },
        ConfigValue::Float(f) => {
            push_str(s, "Float(");
            push_float_debug(s, f.repr.as_str());
            push_str(s, ")");
            proof {
                reveal_strlit("Float(");
                reveal_strlit(")");
            }
            assert(s@ =~= start + debug_text(*v));
        },
        ConfigValue::Str(t) => {
            push_str(s, "Str(");
            push_str_debug(s, t.as_str());
            push_str(s, ")");
            proof {
                reveal_strlit("Str(");
                reveal_strlit(")");
            }
            assert(s@ =~= start + debug_text(*v));
        },
        ConfigValue::List(l) => {
            push_str(s, "List([");
            proof {
                reveal_strlit("List([");
                reveal_strlit(", ");
            }
            let ghost head = s@;
            let mut i: usize = 0;
            while i < l.len()
                invariant
                    i <= l@.len(),
                    *v == ConfigValue::List(*l),
                    s@ == head + items_debug(l@.subrange(0, i as int)),
                decreases l@.len() - i,
            {
                let ghost before = s@;
                if i > 0 {
                    push_str(s, ", ");
                }
                proof {
                    assert(decreases_to!(*v => (*v)->List_0));
                    assert(decreases_to!(*l => l@));
                    assert(decreases_to!(l@ => l@[i as int]));
                }
                push_debug(s, &l[i]);
                assert(l@.subrange(0, i + 1).drop_last() =~= l@.subrange(0, i as int));
                assert(s@ =~= head + items_debug(l@.subrange(0, i + 1)));
                i = i + 1;
            }
            assert(l@.subrange(0, l@.len() as int) =~= l@);
            push_str(s, "])");
            proof {
                reveal_strlit("])");
            }
            assert(s@ =~= start + debug_text(*v));
        },
        ConfigValue::Mapping(m) => {
            push_str(s, "Map({");
            proof {
                reveal_strlit("Map({");
                reveal_strlit(", ");
                reveal_strlit(": ");
            }
            let ghost head = s@;
            let mut i: usize = 0;
            while i < m.len()
                invariant
                    i <= m@.len(),
                    *v == ConfigValue::Mapping(*m),
                    s@ == head + entries_debug(m@.subrange(0, i as int)),
                decreases m@.len() - i,
            {
                if i > 0 {
                    push_str(s, ", ");
                }
                push_str_debug(s, m[i].0.as_str());
                push_str(s, ": ");
                proof {
                    assert(decreases_to!(*v => (*v)->Mapping_0));
                    assert(decreases_to!(*m => m@));
                    assert(decreases_to!(m@ => m@[i as int]));
                    assert(decreases_to!(m@[i as int] => m@[i as int].1));
                }
                push_debug(s, &m[i].1);
                assert(m@.subrange(0, i + 1).drop_last() =~= m@.subrange(0, i as int));
                assert(s@ =~= head + entries_debug(m@.subrange(0, i + 1)));
                i = i + 1;
            }
            assert(m@.subrange(0, m@.len() as int) =~= m@);
            push_str(s, "})");
            proof {
                reveal_strlit("})");
            }
            assert(s@ =~= start + debug_text(*v));
        },
    }
}

} // verus!
