//! File discovery: which of the files named or found under the targets are
//! scanned and which are excluded.
//!
//! Walking directories and asking whether a path is a directory is the
//! caller's part; it hands the results in as [`TargetKind`]s.

use vstd::prelude::*;
use crate::pycompat::fnmatch::{fnmatch, glob_match};
use crate::pycompat::path::{join, join_spec};
use crate::text::{
    contains_seq, copy_string, sort_dedup, str_contains, str_eq, strictly_sorted, to_owned_string,
    views_of,
};

verus! {

/// Whether `name` matches one of `globs`.
pub open spec fn matches_any(name: Seq<char>, globs: Seq<String>) -> bool {
    exists|k: int| 0 <= k < globs.len() && glob_match(globs[k]@, name)
}

/// Whether `p` holds one of `parts` as a substring.
pub open spec fn contains_any(p: Seq<char>, parts: Seq<String>) -> bool {
    exists|k: int| 0 <= k < parts.len() && contains_seq(p, parts[k]@)
}

/// `_is_file_included`: included iff it matches an include glob (or the
/// globs are not enforced), matches no exclude glob and contains no
/// exclude string.
pub open spec fn included_spec(p: Seq<char>, included: Seq<String>, excluded: Seq<String>, enforce_glob: bool) -> bool {
    (matches_any(p, included) || !enforce_glob) && !matches_any(p, excluded) && !contains_any(p, excluded)
}

/// `_matches_glob_list(filename, glob_list)`.
pub fn matches_glob_list(filename: &str, globs: &[String]) -> (r: bool)
    ensures
        r == matches_any(filename@, globs@),
{
    let mut i: usize = 0;
    while i < globs.len()
        invariant
            i <= globs@.len(),
            forall|k: int| 0 <= k < i ==> !glob_match(globs@[k]@, filename@),
        decreases globs@.len() - i,
    {
        if fnmatch(filename, globs[i].as_str()) {
            return true;
        }
        i = i + 1;
    }
    false
}

fn contains_any_of(p: &str, parts: &[String]) -> (r: bool)
    ensures
        r == contains_any(p@, parts@),
{
    let mut i: usize = 0;
    while i < parts.len()
        invariant
            i <= parts@.len(),
            forall|k: int| 0 <= k < i ==> !contains_seq(p@, parts@[k]@),
        decreases parts@.len() - i,
    {
        if str_contains(p, parts[i].as_str()) {
            return true;
        }
        i = i + 1;
    }
    false
}

/// `_is_file_included(path, included_globs, excluded_path_strings, enforce_glob)`.
pub fn is_file_included(p: &str, included: &[String], excluded: &[String], enforce_glob: bool) -> (r: bool)
    ensures
        r == included_spec(p@, included@, excluded@, enforce_glob),
{
    (matches_glob_list(p, included) || !enforce_glob) && !matches_glob_list(p, excluded)
        && !contains_any_of(p, excluded)
}

/// What the file system says of a target.
#[derive(Debug, Clone)]
pub enum TargetKind {
    /// A directory, with the files found by walking it recursively.
    Dir(Vec<String>),
    /// Anything else.
    File,
}

/// Result of a discovery.
#[derive(Debug, Clone, PartialEq, Eq)]
pub struct Discovered {
    /// Sorted, de-duplicated files to scan (`./`-prefixed explicit files,
    /// `-` kept as is).
    pub files: Vec<String>,
    /// Sorted, de-duplicated excluded files.
    pub excluded: Vec<String>,
}

/// The files of a walked directory that are included (with enforced
/// globs), in walk order.
pub open spec fn walk_included(files: Seq<String>, included: Seq<String>, excluded: Seq<String>) -> Seq<Seq<char>>
    decreases files.len(),
{
    if files.len() == 0 {
        Seq::empty()
    } else {
        walk_included(files.drop_last(), included, excluded) + (if included_spec(
            files.last()@,
            included,
            excluded,
            true,
        ) {
            seq![files.last()@]
        } else {
            Seq::empty()
        })
    }
}

/// The files of a walked directory that are excluded, in walk order.
pub open spec fn walk_excluded(files: Seq<String>, included: Seq<String>, excluded: Seq<String>) -> Seq<Seq<char>>
    decreases files.len(),
{
    if files.len() == 0 {
        Seq::empty()
    } else {
        walk_excluded(files.drop_last(), included, excluded) + (if included_spec(
            files.last()@,
            included,
            excluded,
            true,
        ) {
            Seq::empty()
        } else {
            seq![files.last()@]
        })
    }
}

/// `_get_files_from_dir` once the directory is walked: the walked files
/// split into included and excluded ones, in walk order.
pub fn classify_walked_files(files: &Vec<String>, included: &[String], excluded: &[String]) -> (r: (
    Vec<String>,
    Vec<String>,
))
    ensures
        views_of(r.0@) == walk_included(files@, included@, excluded@),
        views_of(r.1@) == walk_excluded(files@, included@, excluded@),
{
    let mut inc: Vec<String> = Vec::new();
    let mut exc: Vec<String> = Vec::new();
    let mut i: usize = 0;
    while i < files.len()
        invariant
            i <= files@.len(),
            views_of(inc@) =~= walk_included(files@.subrange(0, i as int), included@, excluded@),
            views_of(exc@) =~= walk_excluded(files@.subrange(0, i as int), included@, excluded@),
        decreases files@.len() - i,
    {
        let ghost t = files@.subrange(0, i + 1);
        assert(t.drop_last() =~= files@.subrange(0, i as int));
        let f = copy_string(&files[i]);
        let ghost bi = inc@;
        let ghost be = exc@;
        if is_file_included(files[i].as_str(), included, excluded, true) {
            inc.push(f);
            assert(views_of(inc@) =~= views_of(bi).push(f@));
        } else {
            exc.push(f);
            assert(views_of(exc@) =~= views_of(be).push(f@));
        }
        i = i + 1;
    }
    assert(files@.subrange(0, files@.len() as int) =~= files@);
    (inc, exc)
}

/// The name under which an explicitly named file is scanned.
pub open spec fn scan_name(t: Seq<char>) -> Seq<char> {
    if t == "-"@ {
        t
    } else {
        join_spec("."@, t)
    }
}

/// Files to scan, before sorting: per target, the included files of a
/// walked directory (when recursive) or the target itself when included.
pub open spec fn discovered_files(
    targets: Seq<String>,
    kinds: Seq<TargetKind>,
    recursive: bool,
    included: Seq<String>,
    excluded: Seq<String>,
) -> Seq<Seq<char>>
    decreases targets.len(),
{
    if targets.len() == 0 || kinds.len() != targets.len() {
        Seq::empty()
    } else {
        let t = targets.last();
        discovered_files(targets.drop_last(), kinds.drop_last(), recursive, included, excluded) + match kinds.last() {
            TargetKind::Dir(files) => if recursive {
                walk_included(files@, included, excluded)
            } else {
                Seq::empty()
            },
            TargetKind::File => if included_spec(t@, included, excluded, false) {
                seq![scan_name(t@)]
            } else {
                Seq::empty()
            },
        }
    }
}

/// Excluded files, before sorting.
pub open spec fn discovered_excluded(
    targets: Seq<String>,
    kinds: Seq<TargetKind>,
    recursive: bool,
    included: Seq<String>,
    excluded: Seq<String>,
) -> Seq<Seq<char>>
    decreases targets.len(),
{
    if targets.len() == 0 || kinds.len() != targets.len() {
        Seq::empty()
    } else {
        let t = targets.last();
        discovered_excluded(targets.drop_last(), kinds.drop_last(), recursive, included, excluded) + match kinds.last() {
            TargetKind::Dir(files) => if recursive {
                walk_excluded(files@, included, excluded)
            } else {
                Seq::empty()
            },
            TargetKind::File => if included_spec(t@, included, excluded, false) {
                Seq::empty()
            } else {
                seq![t@]
            },
        }
    }
}

/// Directories skipped because the scan is not recursive, in order.
pub open spec fn skipped_dirs(targets: Seq<String>, kinds: Seq<TargetKind>, recursive: bool) -> Seq<Seq<char>>
    decreases targets.len(),
{
    if targets.len() == 0 || kinds.len() != targets.len() {
        Seq::empty()
    } else {
        skipped_dirs(targets.drop_last(), kinds.drop_last(), recursive) + match kinds.last() {
            TargetKind::Dir(_) => if recursive { Seq::empty() } else { seq![targets.last()@] },
            TargetKind::File => Seq::empty(),
        }
    }
}

fn append_views(out: &mut Vec<String>, add: Vec<String>)
    ensures
        views_of(final(out)@) == views_of(old(out)@) + views_of(add@),
{
    let ghost a = old(out)@;
    let mut add = add;
    let ghost b = add@;
    out.append(&mut add);
    assert(out@ =~= a + b);
    assert(views_of(out@) =~= views_of(a) + views_of(b));
}

/// `discover_files(targets, recursive, excluded_paths)` once the file
/// system has been asked about each target: the files to scan and the
/// excluded files (each sorted, without duplicates), and the directories
/// skipped because the scan is not recursive.
pub fn discover_files(
    targets: &[String],
    kinds: &[TargetKind],
    recursive: bool,
    included: &[String],
    excluded_globs: &[String],
) -> (r: (Discovered, Vec<String>))
    requires
        kinds@.len() == targets@.len(),
    ensures
        strictly_sorted(views_of(r.0.files@)),
        strictly_sorted(views_of(r.0.excluded@)),
        forall|x: Seq<char>| views_of(r.0.files@).contains(x) <==> discovered_files(
            targets@,
            kinds@,
            recursive,
            included@,
            excluded_globs@,
        ).contains(x),
        forall|x: Seq<char>| views_of(r.0.excluded@).contains(x) <==> discovered_excluded(
            targets@,
            kinds@,
            recursive,
            included@,
            excluded_globs@,
        ).contains(x),
        views_of(r.1@) == skipped_dirs(targets@, kinds@, recursive),
{
    let mut files: Vec<String> = Vec::new();
    let mut excluded: Vec<String> = Vec::new();
    let mut skipped: Vec<String> = Vec::new();
    let mut i: usize = 0;
    while i < targets.len()
        invariant
            kinds@.len() == targets@.len(),
            i <= targets@.len(),
            views_of(files@) == discovered_files(
                targets@.subrange(0, i as int),
                kinds@.subrange(0, i as int),
                recursive,
                included@,
                excluded_globs@,
            ),
            views_of(excluded@) == discovered_excluded(
                targets@.subrange(0, i as int),
                kinds@.subrange(0, i as int),
                recursive,
                included@,
                excluded_globs@,
            ),
            views_of(skipped@) == skipped_dirs(targets@.subrange(0, i as int), kinds@.subrange(0, i as int), recursive),
        decreases targets@.len() - i,
    {
        let ghost tt = targets@.subrange(0, i + 1);
        let ghost kk = kinds@.subrange(0, i + 1);
        assert(tt.drop_last() =~= targets@.subrange(0, i as int));
        assert(kk.drop_last() =~= kinds@.subrange(0, i as int));
        assert(tt.last() == targets@[i as int]);
        assert(kk.last() == kinds@[i as int]);
        let t = &targets[i];
        match &kinds[i] {
            TargetKind::Dir(walked) => {
                if recursive {
                    let (inc, exc) = classify_walked_files(walked, included, excluded_globs);
                    append_views(&mut files, inc);
                    append_views(&mut excluded, exc);
                } else {
                    let ghost b = skipped@;
                    skipped.push(copy_string(t));
                    assert(views_of(skipped@) =~= views_of(b).push(t@));
                    assert(views_of(files@) =~= views_of(files@) + Seq::<Seq<char>>::empty());
                    assert(views_of(excluded@) =~= views_of(excluded@) + Seq::<Seq<char>>::empty());
                }
            },
            TargetKind::File => {
                if is_file_included(t.as_str(), included, excluded_globs, false) {
                    let name = if str_eq(t.as_str(), "-") {
                        copy_string(t)
                    } else {
                        join(".", t.as_str())
                    };
                    let ghost b = files@;
                    files.push(name);
                    assert(views_of(files@) =~= views_of(b).push(name@));
                    assert(views_of(excluded@) =~= views_of(excluded@) + Seq::<Seq<char>>::empty());
                } else {
                    let ghost b = excluded@;
                    excluded.push(copy_string(t));
                    assert(views_of(excluded@) =~= views_of(b).push(t@));
                    assert(views_of(files@) =~= views_of(files@) + Seq::<Seq<char>>::empty());
                }
                assert(views_of(skipped@) =~= views_of(skipped@) + Seq::<Seq<char>>::empty());
            },
        }
        i = i + 1;
    }
    assert(targets@.subrange(0, targets@.len() as int) =~= targets@);
    assert(kinds@.subrange(0, kinds@.len() as int) =~= kinds@);
    let files = sort_dedup(files);
    let excluded = sort_dedup(excluded);
    (Discovered { files, excluded }, skipped)
}

/// `-x` / `--exclude` entries and `exclude_dirs` as exclude globs: a
/// directory `d` stands for `d/*`.
pub open spec fn exclude_globs_spec(exclude_dirs: Seq<String>, entries: Seq<String>, entry_is_dir: Seq<bool>) -> Seq<Seq<char>> {
    views_of(exclude_dirs) + Seq::new(
        entries.len(),
        |i: int| if entry_is_dir[i] { join_spec(entries[i]@, "*"@) } else { entries[i]@ },
    )
}

/// The exclude globs of a run: the configured `exclude_dirs`, then the
/// `--exclude` entries (`entry_is_dir` says which of them are
/// directories).
pub fn excluded_globs(exclude_dirs: &Vec<String>, entries: &Vec<String>, entry_is_dir: &Vec<bool>) -> (r: Vec<String>)
    requires
        entry_is_dir@.len() == entries@.len(),
    ensures
        views_of(r@) == exclude_globs_spec(exclude_dirs@, entries@, entry_is_dir@),
{
    let mut out: Vec<String> = Vec::new();
    let mut i: usize = 0;
    while i < exclude_dirs.len()
        invariant
            i <= exclude_dirs@.len(),
            views_of(out@) =~= views_of(exclude_dirs@).subrange(0, i as int),
        decreases exclude_dirs@.len() - i,
    {
        let s = copy_string(&exclude_dirs[i]);
        let ghost b = out@;
        out.push(s);
        assert(views_of(out@) =~= views_of(b).push(s@));
        i = i + 1;
    }
    let ghost base = views_of(out@);
    assert(base =~= views_of(exclude_dirs@));
    let mut j: usize = 0;
    while j < entries.len()
        invariant
            entry_is_dir@.len() == entries@.len(),
            j <= entries@.len(),
            base == views_of(exclude_dirs@),
            views_of(out@) =~= exclude_globs_spec(exclude_dirs@, entries@, entry_is_dir@).subrange(
                0,
                base.len() + j,
            ),
        decreases entries@.len() - j,
    {
        let s = if entry_is_dir[j] {
            join(entries[j].as_str(), "*")
        } else {
            copy_string(&entries[j])
        };
        let ghost b = out@;
        out.push(s);
        assert(views_of(out@) =~= views_of(b).push(s@));
        j = j + 1;
    }
    out
}

/// `text.split(",")`.
pub open spec fn split_commas_spec(s: Seq<char>) -> Seq<Seq<char>>
    decreases s.len(),
{
    if s.len() == 0 {
        seq![Seq::empty()]
    } else {
        let rest = split_commas_spec(s.drop_last());
        if s.last() == ',' {
            rest.push(Seq::empty())
        } else {
            rest.update(rest.len() - 1, rest.last().push(s.last()))
        }
    }
}

proof fn lemma_split_commas_nonempty(s: Seq<char>)
    ensures
        split_commas_spec(s).len() >= 1,
    decreases s.len(),
{
    if s.len() > 0 {
        lemma_split_commas_nonempty(s.drop_last());
    }
}

/// `text.split(",")`.
pub fn split_commas(text: &str) -> (r: Vec<String>)
    ensures
        views_of(r@) == split_commas_spec(text@),
{
    let n = text.unicode_len();
    let mut done: Vec<String> = Vec::new();
    let mut cur = String::new();
    let mut i: usize = 0;
    while i < n
        invariant
            n == text@.len(),
            i <= n,
            views_of(done@).push(cur@) =~= split_commas_spec(text@.subrange(0, i as int)),
        decreases n - i,
    {
        let ghost t = text@.subrange(0, i + 1);
        assert(t.drop_last() =~= text@.subrange(0, i as int));
        proof {
            lemma_split_commas_nonempty(text@.subrange(0, i as int));
        }
        let c = text.get_char(i);
        if c == ',' {
            let ghost b = done@;
            let finished = cur;
            done.push(finished);
            cur = String::new();
            assert(views_of(done@) =~= views_of(b).push(finished@));
        } else {
            crate::text::push_char(&mut cur, c);
        }
        i = i + 1;
    }
    assert(text@.subrange(0, n as int) =~= text@);
    let ghost b = done@;
    done.push(cur);
    assert(views_of(done@) =~= views_of(b).push(cur@));
    done
}

/// The `str()` of the items of a list value; `None` for another value or
/// none.
pub open spec fn list_texts(v: Option<crate::engine::config::ConfigValue>) -> Option<Seq<Seq<char>>> {
    match v {
        Some(crate::engine::config::ConfigValue::List(items)) => Some(
            items@.map_values(|x: crate::engine::config::ConfigValue| crate::engine::config::py_str_spec(x)),
        ),
        _ => None,
    }
}

/// `[str(x) for x in value]` for a list value.
pub fn as_str_list(v: Option<&crate::engine::config::ConfigValue>) -> (r: Option<Vec<String>>)
    ensures
        match list_texts(match v { Some(x) => Some(*x), None => None }) {
            Some(t) => r is Some && views_of(r.unwrap()@) == t,
            None => r is None,
        },
{
    match v {
        Some(crate::engine::config::ConfigValue::List(items)) => {
            let mut out: Vec<String> = Vec::new();
            let mut i: usize = 0;
            while i < items.len()
                invariant
                    i <= items@.len(),
                    views_of(out@) =~= items@.map_values(|x: crate::engine::config::ConfigValue| crate::engine::config::py_str_spec(x)).subrange(0, i as int),
                decreases items@.len() - i,
            {
                let t = items[i].py_str();
                let ghost before = views_of(out@);
                out.push(t);
                assert(views_of(out@) =~= before.push(t@));
                i = i + 1;
            }
            Some(out)
        },
        _ => None,
    }
}

/// The globs of the files to scan: the `include` option, else `*.py`.
pub fn included_globs(config: &crate::engine::config::BanditConfig) -> (r: Vec<String>)
    ensures
        match list_texts(crate::engine::config::option_value(*config, crate::engine::config::included_key())) {
            Some(t) => views_of(r@) == t,
            None => views_of(r@) == seq!["*.py"@],
        },
{
    let key = crate::engine::config::included_key_string();
    match as_str_list(config.get_option(key.as_str())) {
        Some(v) => v,
        None => {
            let v = vec![to_owned_string("*.py")];
            assert(views_of(v@) =~= seq!["*.py"@]);
            v
        },
    }
}

/// The `exclude_dirs` option, empty when absent.
pub fn exclude_dirs(config: &crate::engine::config::BanditConfig) -> (r: Vec<String>)
    ensures
        match list_texts(crate::engine::config::option_value(*config, "exclude_dirs"@)) {
            Some(t) => views_of(r@) == t,
            None => r@.len() == 0,
        },
{
    match as_str_list(config.get_option("exclude_dirs")) {
        Some(v) => v,
        None => Vec::new(),
    }
}

} // verus!
