//! Helpers on module paths and escaped byte strings.

use vstd::prelude::*;
use crate::pycompat::unicode_escape::{decode, decode_spec, encode, encode_spec};
use crate::pycompat::path::{split, split_spec, splitext, splitext_spec};
use crate::text::{contains_string, last_index_of, lemma_last_index_of, push_char, push_str, rfind_char, seq_join, str_eq, to_owned_string, views_of};

verus! {

/// Raised for a path from which no module name can be derived.
#[derive(Debug, Clone, PartialEq, Eq)]
pub struct InvalidModulePath(pub String);

/// `namespace_path_join(base, name)`: `base.name`.
pub open spec fn namespace_join(base: Seq<char>, name: Seq<char>) -> Seq<char> {
    base + seq!['.'] + name
}

/// `namespace_path_split(path)`: the parts before and after the last dot,
/// or the whole path alone when it has no dot.
pub open spec fn namespace_split(p: Seq<char>) -> (Seq<char>, Option<Seq<char>>) {
    match last_index_of(p, '.') {
        Some(k) => (p.subrange(0, k), Some(p.skip(k + 1))),
        None => (p, None),
    }
}

/// `namespace_path_join(base, name)`.
pub fn namespace_path_join(base: &str, name: &str) -> (r: String)
    ensures
        r@ == namespace_join(base@, name@),
{
    let mut s = to_owned_string(base);
    push_char(&mut s, '.');
    push_str(&mut s, name);
    s
}

/// `namespace_path_split(path)`.
pub fn namespace_path_split(p: &str) -> (r: (String, Option<String>))
    ensures
        r.0@ == namespace_split(p@).0,
        match r.1 {
            Some(b) => namespace_split(p@).1 == Some(b@),
            None => namespace_split(p@).1 is None,
        },
{
    match rfind_char(p, '.') {
        Some(k) => {
            proof {
                lemma_last_index_of(p@, '.');
            }
            let n = p.unicode_len();
            let a = p.substring_char(0, k);
            let b = p.substring_char(k + 1, n);
            assert(b@ =~= p@.skip(k + 1));
            (to_owned_string(a), Some(to_owned_string(b)))
        },
        None => (to_owned_string(p), None),
    }
}

/// Splitting a joined namespace path gives back its parts when the last
/// part has no dot.
pub proof fn lemma_namespace_split_join(base: Seq<char>, name: Seq<char>)
    requires
        !name.contains('.'),
    ensures
        namespace_split(namespace_join(base, name)) == (base, Some(name)),
    decreases name.len(),
{
    let j = namespace_join(base, name);
    lemma_last_index_of(j, '.');
    assert(j[base.len() as int] == '.');
    let k = base.len() as int;
    match last_index_of(j, '.') {
        Some(m) => {
            if m > k {
                assert(j[m] == name[m - k - 1]);
            }
            assert(m >= k);
            assert(m == k);
            assert(j.subrange(0, k) =~= base);
            assert(j.skip(k + 1) =~= name);
        },
        None => {
            assert(j.contains('.'));
        },
    }
}

/// `escaped_bytes_representation(b)`: the bytes decoded with the
/// `unicode_escape` codec and encoded again.
pub open spec fn escaped_representation(b: Seq<u8>) -> Option<Seq<u8>> {
    match decode_spec(b) {
        Some(cps) => Some(encode_spec(cps)),
        None => None,
    }
}

/// `escaped_bytes_representation(b)`.
pub fn escaped_bytes_representation(b: &[u8]) -> (r: Result<Vec<u8>, String>)
    ensures
        match escaped_representation(b@) {
            Some(e) => r is Ok && r.unwrap()@ == e,
            None => r is Err,
        },
{
    match decode(b) {
        Ok(cps) => Ok(encode(cps.as_slice())),
        Err(e) => Err(e),
    }
}

/// Whether the climb towards the root stops at directory `head`.
pub open spec fn climb_stops(head: Seq<char>) -> bool {
    head == "/"@ || head == "."@ || head.len() == 0
}

/// The package names above a module in directory `head`: while the
/// directory is a package (its path is in `package_dirs`), its name is
/// taken and the climb goes on from its parent. The flag says that the
/// climb never ends (a package directory that is its own parent).
pub open spec fn package_parts(head: Seq<char>, package_dirs: Seq<Seq<char>>) -> (Seq<Seq<char>>, bool)
    decreases head.len(),
{
    if climb_stops(head) || !package_dirs.contains(head) {
        (Seq::empty(), false)
    } else {
        let (h, t) = split_spec(head);
        if h.len() >= head.len() {
            (Seq::empty(), true)
        } else {
            let (rest, hangs) = package_parts(h, package_dirs);
            (rest.push(t), hangs)
        }
    }
}

/// The directories a climb from `head` may visit, nearest first (those
/// that would be checked for an `__init__.py` if all were packages).
pub open spec fn climb_dirs(head: Seq<char>) -> Seq<Seq<char>>
    decreases head.len(),
{
    if climb_stops(head) {
        Seq::empty()
    } else {
        let h = split_spec(head).0;
        if h.len() >= head.len() {
            seq![head]
        } else {
            seq![head] + climb_dirs(h)
        }
    }
}

/// `get_module_qualname_from_path(p)`: the dotted module name of the file
/// `p`, given which of its directories are packages.
pub open spec fn module_qualname(p: Seq<char>, package_dirs: Seq<Seq<char>>) -> Result<Seq<char>, Seq<char>> {
    let (head, tail) = split_spec(p);
    if head.len() == 0 || tail.len() == 0 {
        Err("Invalid python file path: \""@ + p + "\" Missing path or file name"@)
    } else {
        Ok(seq_join(package_parts(head, package_dirs).0 + seq![splitext_spec(tail).0], "."@))
    }
}

fn stops(head: &str) -> (r: bool)
    ensures
        r == climb_stops(head@),
{
    str_eq(head, "/") || str_eq(head, ".") || head.unicode_len() == 0
}

/// The directories above the file `p` that the module name depends on,
/// nearest first: the caller reports those that hold an `__init__.py`.
pub fn climb_directories(p: &str) -> (r: Vec<String>)
    ensures
        views_of(r@) == climb_dirs(split_spec(p@).0),
{
    let (mut head, _tail) = split(p);
    let mut out: Vec<String> = Vec::new();
    let ghost start = head@;
    assert(views_of(out@) + climb_dirs(head@) =~= climb_dirs(start));
    while !stops(head.as_str())
        invariant
            start == split_spec(p@).0,
            views_of(out@) + climb_dirs(head@) == climb_dirs(start),
        decreases head@.len(),
    {
        let (h, _t) = split(head.as_str());
        let ghost before = views_of(out@);
        let ghost hv = head@;
        if h.unicode_len() >= head.unicode_len() {
            out.push(head);
            assert(views_of(out@) =~= before.push(hv));
            assert(climb_dirs(hv) =~= seq![hv]);
            assert(views_of(out@) =~= climb_dirs(start));
            return out;
        }
        out.push(head);
        assert(views_of(out@) =~= before.push(hv));
        assert(climb_dirs(hv) =~= seq![hv] + climb_dirs(h@));
        assert(views_of(out@) + climb_dirs(h@) =~= before + climb_dirs(hv));
        head = h;
    }
    assert(climb_dirs(head@) =~= Seq::<Seq<char>>::empty());
    assert(views_of(out@) =~= views_of(out@) + climb_dirs(head@));
    out
}

/// `get_module_qualname_from_path(p)`; `package_dirs` are the directories
/// of [`climb_directories`] that hold an `__init__.py`.
pub fn get_module_qualname_from_path(p: &str, package_dirs: &Vec<String>) -> (r: Result<String, InvalidModulePath>)
    requires
        !package_parts(split_spec(p@).0, views_of(package_dirs@)).1,
    ensures
        match module_qualname(p@, views_of(package_dirs@)) {
            Ok(q) => r matches Ok(s) && s@ == q,
            Err(e) => r matches Err(x) && x.0@ == e,
        },
{
    let (mut head, tail) = split(p);
    if head.unicode_len() == 0 || tail.unicode_len() == 0 {
        let mut m = to_owned_string("Invalid python file path: \"");
        push_str(&mut m, p);
        push_str(&mut m, "\" Missing path or file name");
        return Err(InvalidModulePath(m));
    }
    let ghost dirs = views_of(package_dirs@);
    let ghost start = head@;
    let mut parts: Vec<String> = Vec::new();
    proof {
        assert(views_of(parts@) =~= Seq::<Seq<char>>::empty());
    }
    while !stops(head.as_str()) && contains_string(package_dirs, head.as_str())
        invariant
            dirs == views_of(package_dirs@),
            start == split_spec(p@).0,
            !package_parts(head@, dirs).1,
            package_parts(start, dirs).0 == package_parts(head@, dirs).0 + views_of(parts@),
        decreases head@.len(),
    {
        let (h, t) = split(head.as_str());
        proof {
            assert(h@.len() < head@.len());
        }
        let ghost before = views_of(parts@);
        parts.insert(0, t);
        proof {
            assert(views_of(parts@) =~= seq![t@] + before);
            assert(package_parts(head@, dirs).0 =~= package_parts(h@, dirs).0.push(t@));
            assert(package_parts(h@, dirs).0.push(t@) + before =~= package_parts(h@, dirs).0 + (seq![t@] + before));
        }
        head = h;
    }
    proof {
        assert(package_parts(head@, dirs).0 =~= Seq::<Seq<char>>::empty());
        assert(package_parts(start, dirs).0 =~= views_of(parts@));
    }
    let (stem, _ext) = splitext(tail.as_str());
    let ghost before = views_of(parts@);
    parts.push(stem);
    assert(views_of(parts@) =~= before.push(stem@));
    let joined = crate::formatters::text::join(&parts, ".");
    assert(tail@ == split_spec(p@).1);
    assert(views_of(parts@) =~= package_parts(split_spec(p@).0, dirs).0 + seq![splitext_spec(split_spec(p@).1).0]);
    Ok(joined)
}

} // verus!
