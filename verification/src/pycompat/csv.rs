//! Rows in the `excel` dialect of Python's `csv` module: `,` between
//! fields, `"` around a field only where it is needed, `""` for a quote
//! inside a quoted field, `\r\n` after each row.

use vstd::prelude::*;
use crate::text::{push_char, push_str, seq_join, views_of};

verus! {

/// Whether `c` forces its field into quotes.
pub open spec fn is_special(c: char) -> bool {
    c == ',' || c == '"' || c == '\r' || c == '\n'
}

/// Whether a field must be quoted: it holds a special character, or it is
/// the empty field of a row of one field.
pub open spec fn needs_quotes(f: Seq<char>, alone: bool) -> bool {
    (exists|i: int| 0 <= i < f.len() && is_special(#[trigger] f[i])) || (alone && f.len() == 0)
}

/// A field with each `"` doubled.
pub open spec fn doubled_quotes(f: Seq<char>) -> Seq<char>
    decreases f.len(),
{
    if f.len() == 0 {
        Seq::empty()
    } else {
        doubled_quotes(f.drop_last()) + (if f.last() == '"' { seq!['"', '"'] } else { seq![f.last()] })
    }
}

/// A field as written in a row.
pub open spec fn csv_field(f: Seq<char>, alone: bool) -> Seq<char> {
    if needs_quotes(f, alone) {
        seq!['"'] + doubled_quotes(f) + seq!['"']
    } else {
        f
    }
}

/// A row as written: its fields, separated by `,`, then `\r\n`.
pub open spec fn csv_row(fields: Seq<Seq<char>>) -> Seq<char> {
    seq_join(Seq::new(fields.len(), |k: int| csv_field(fields[k], fields.len() == 1)), seq![',']) + seq!['\r', '\n']
}

fn has_special(f: &str) -> (r: bool)
    ensures
        r == exists|i: int| 0 <= i < f@.len() && is_special(#[trigger] f@[i]),
{
    let n = f.unicode_len();
    let mut i: usize = 0;
    while i < n
        invariant
            n == f@.len(),
            i <= n,
            forall|j: int| 0 <= j < i ==> !is_special(#[trigger] f@[j]),
        decreases n - i,
    {
        let c = f.get_char(i);
        if c == ',' || c == '"' || c == '\r' || c == '\n' {
            return true;
        }
        i = i + 1;
    }
    false
}

fn push_doubled(s: &mut String, f: &str)
    ensures
        final(s)@ == old(s)@ + doubled_quotes(f@),
{
    let n = f.unicode_len();
    let mut i: usize = 0;
    while i < n
        invariant
            n == f@.len(),
            i <= n,
            s@ == old(s)@ + doubled_quotes(f@.subrange(0, i as int)),
        decreases n - i,
    {
        let ghost t = f@.subrange(0, i + 1);
        assert(t.drop_last() =~= f@.subrange(0, i as int));
        let c = f.get_char(i);
        if c == '"' {
            push_char(s, '"');
            push_char(s, '"');
        } else {
            push_char(s, c);
        }
        i = i + 1;
    }
    assert(f@.subrange(0, n as int) =~= f@);
}

/// One field as written in a row; `alone` when the row has no other field.
pub fn write_field(f: &str, alone: bool) -> (r: String)
    ensures
        r@ == csv_field(f@, alone),
{
    let mut s = String::new();
    if has_special(f) || (alone && f.unicode_len() == 0) {
        push_char(&mut s, '"');
        push_doubled(&mut s, f);
        push_char(&mut s, '"');
        assert(s@ =~= seq!['"'] + doubled_quotes(f@) + seq!['"']);
    } else {
        push_str(&mut s, f);
    }
    s
}

/// `csv.writer(f).writerow(fields)`: the text of one row.
pub fn write_row(fields: &Vec<String>) -> (r: String)
    ensures
        r@ == csv_row(views_of(fields@)),
{
    let n = fields.len();
    let alone = n == 1;
    let ghost target = Seq::new(n as nat, |k: int| csv_field(fields@[k]@, n == 1));
    let mut s = String::new();
    let mut i: usize = 0;
    while i < n
        invariant
            n == fields@.len(),
            alone == (n == 1),
            i <= n,
            target == Seq::new(n as nat, |k: int| csv_field(fields@[k]@, n == 1)),
            s@ == seq_join(target.subrange(0, i as int), seq![',']),
        decreases n - i,
    {
        let ghost t = target.subrange(0, i + 1);
        assert(t.drop_last() =~= target.subrange(0, i as int));
        if i > 0 {
            push_char(&mut s, ',');
        }
        let f = write_field(fields[i].as_str(), alone);
        push_str(&mut s, f.as_str());
        proof {
            if i == 0 {
                assert(s@ =~= t[0]);
            }
        }
        i = i + 1;
    }
    assert(target.subrange(0, n as int) =~= target);
    push_char(&mut s, '\r');
    push_char(&mut s, '\n');
    assert(target =~= Seq::new(views_of(fields@).len(), |k: int| csv_field(views_of(fields@)[k], views_of(fields@).len() == 1)));
    s
}

} // verus!
