//! The decisions of `bandit-config-generator`: its arguments, the check
//! of the test ids it is given, and the profile it writes.

use vstd::prelude::*;
use crate::engine::discover::{split_commas, split_commas_spec};
use crate::engine::registry::{all_ids_and_names, ids_and_names, is_known_id, check_id, pair_views};
use crate::formatters::text::join;
use crate::text::{
    copy_string, push_char, push_str, replace_all, replace_str, seq_join, sort_strings, sorted, str_eq, to_owned_string,
    views_of,
};

verus! {

/// The profile template; `{cli}`, `{test_list}`, `{test}`, `{skip}` and
/// `{settings}` are filled in.
pub const TEMPLATE: &'static str = "\n### Bandit config file generated from:\n# '{cli}'\n\n### This config may optionally select a subset of tests to run or skip by\n### filling out the 'tests' and 'skips' lists given below. If no tests are\n### specified for inclusion then it is assumed all tests are desired. The skips\n### set will remove specific tests from the include set. This can be controlled\n### using the -t/-s CLI options. Note that the same test ID should not appear\n### in both 'tests' and 'skips', this would be nonsensical and is detected by\n### Bandit at runtime.\n\n# Available tests:\n{test_list}\n\n# (optional) list included test IDs here, eg '[B101, B406]':\n{test}\n\n# (optional) list skipped test IDs here, eg '[B101, B406]':\n{skip}\n\n### (optional) plugin settings - some test plugins require configuration data\n### that may be given here, per-plugin. All bandit test plugins have a built in\n### set of sensible defaults and these will be used if no configuration is\n### provided. It is not necessary to provide settings for every (or any) plugin\n### if the defaults are acceptable.\n\n{settings}\n";

/// The options of a run, as values.
pub struct GenView {
    pub show_defaults: bool,
    pub output_file: Option<Seq<char>>,
    pub tests: Option<Seq<char>>,
    pub skips: Option<Seq<char>>,
}

/// The arguments after the value of an option.
pub open spec fn after_value(args: Seq<Seq<char>>) -> Seq<Seq<char>> {
    if args.len() >= 2 { args.skip(2) } else { Seq::empty() }
}

/// The value of an option: the next argument, if any.
pub open spec fn value_of(args: Seq<Seq<char>>) -> Option<Seq<char>> {
    if args.len() >= 2 { Some(args[1]) } else { None }
}

/// How the arguments read, from the options read so far (`acc`): the
/// options, or `Err(None)` for help, or `Err(Some(a))` for the first
/// argument `a` that is not understood.
pub open spec fn gen_parse(args: Seq<Seq<char>>, acc: GenView) -> Result<GenView, Option<Seq<char>>>
    decreases args.len(),
{
    if args.len() == 0 {
        Ok(acc)
    } else if args[0] == "-h"@ || args[0] == "--help"@ {
        Err(None)
    } else if args[0] == "--show-defaults"@ {
        gen_parse(args.skip(1), GenView { show_defaults: true, ..acc })
    } else if args[0] == "-o"@ || args[0] == "--out"@ {
        gen_parse(after_value(args), GenView { output_file: value_of(args), ..acc })
    } else if args[0] == "-t"@ || args[0] == "--tests"@ {
        gen_parse(after_value(args), GenView { tests: value_of(args), ..acc })
    } else if args[0] == "-s"@ || args[0] == "--skip"@ {
        gen_parse(after_value(args), GenView { skips: value_of(args), ..acc })
    } else {
        Err(Some(args[0]))
    }
}

/// What the command line asks for.
pub enum GenCommand {
    /// Print the help and exit 0.
    Help,
    /// An argument that is not understood; the error to print (exit 2).
    Unrecognized(String),
    /// A run with these options.
    Run {
        show_defaults: bool,
        output_file: Option<String>,
        tests: Option<String>,
        skips: Option<String>,
    },
}

/// The view of an optional string.
pub open spec fn opt_view(o: Option<String>) -> Option<Seq<char>> {
    match o {
        Some(s) => Some(s@),
        None => None,
    }
}

fn next_value(args: &Vec<String>, i: usize) -> (r: Option<String>)
    requires
        i < args@.len(),
    ensures
        opt_view(r) == value_of(views_of(args@).skip(i as int)),
{
    if i < args.len() - 1 {
        Some(copy_string(&args[i + 1]))
    } else {
        None
    }
}

/// Reads the command line (without the program name).
pub fn parse_args(args: &Vec<String>) -> (r: GenCommand)
    ensures
        match gen_parse(views_of(args@), GenView { show_defaults: false, output_file: None, tests: None, skips: None }) {
            Ok(v) => r matches GenCommand::Run { show_defaults, output_file, tests, skips }
                && show_defaults == v.show_defaults && opt_view(output_file) == v.output_file
                && opt_view(tests) == v.tests && opt_view(skips) == v.skips,
            Err(None) => r is Help,
            Err(Some(a)) => r matches GenCommand::Unrecognized(e)
                && e@ == "bandit-config-generator: error: unrecognized arguments: "@ + a,
        },
{
    let mut show_defaults = false;
    let mut output_file: Option<String> = None;
    let mut tests: Option<String> = None;
    let mut skips: Option<String> = None;
    let ghost start = GenView { show_defaults: false, output_file: None, tests: None, skips: None };
    let mut i: usize = 0;
    assert(views_of(args@).skip(0) =~= views_of(args@));
    while i < args.len()
        invariant
            i <= args@.len(),
            start == (GenView { show_defaults: false, output_file: None, tests: None, skips: None }),
            gen_parse(views_of(args@), start) == gen_parse(
                views_of(args@).skip(i as int),
                GenView { show_defaults, output_file: opt_view(output_file), tests: opt_view(tests), skips: opt_view(skips) },
            ),
        decreases args@.len() - i,
    {
        let ghost rest = views_of(args@).skip(i as int);
        let a = args[i].as_str();
        assert(rest[0] == a@);
        if str_eq(a, "-h") || str_eq(a, "--help") {
            assert(rest.len() > 0);
            assert(gen_parse(rest, GenView { show_defaults, output_file: opt_view(output_file), tests: opt_view(tests), skips: opt_view(skips) }) == Err::<GenView, Option<Seq<char>>>(None));
            return GenCommand::Help;
        } else if str_eq(a, "--show-defaults") {
            show_defaults = true;
            assert(rest.skip(1) =~= views_of(args@).skip(i + 1));
            i = i + 1;
        } else if str_eq(a, "-o") || str_eq(a, "--out") || str_eq(a, "-t") || str_eq(a, "--tests") || str_eq(a, "-s")
            || str_eq(a, "--skip") {
            let v = next_value(args, i);
            if str_eq(a, "-o") || str_eq(a, "--out") {
                output_file = v;
            } else if str_eq(a, "-t") || str_eq(a, "--tests") {
                tests = v;
            } else {
                skips = v;
            }
            if i < args.len() - 1 {
                assert(rest.skip(2) =~= views_of(args@).skip(i + 2));
                i = i + 2;
            } else {
                assert(after_value(rest) =~= views_of(args@).skip(args@.len() as int));
                i = args.len();
            }
        } else {
            let mut e = to_owned_string("bandit-config-generator: error: unrecognized arguments: ");
            push_str(&mut e, a);
            return GenCommand::Unrecognized(e);
        }
    }
    assert(views_of(args@).skip(args@.len() as int) =~= Seq::<Seq<char>>::empty());
    GenCommand::Run { show_defaults, output_file, tests, skips }
}

/// The ids of an optional comma-separated option (none when absent).
pub open spec fn listed(o: Option<Seq<char>>) -> Seq<Seq<char>> {
    match o {
        Some(t) => split_commas_spec(t),
        None => Seq::empty(),
    }
}

/// `sep.join(...)`-free list: the ids of an optional option.
pub fn list_of(o: Option<&str>) -> (r: Vec<String>)
    ensures
        views_of(r@) == listed(match o { Some(s) => Some(s@), None => None }),
{
    match o {
        Some(t) => split_commas(t),
        None => {
            let v: Vec<String> = Vec::new();
            assert(views_of(v@) =~= Seq::<Seq<char>>::empty());
            v
        },
    }
}

/// The first unknown id of `s`, if any.
pub open spec fn first_unknown(s: Seq<Seq<char>>) -> Option<Seq<char>>
    decreases s.len(),
{
    if s.len() == 0 {
        None
    } else if !is_known_id(s[0]) {
        Some(s[0])
    } else {
        first_unknown(s.skip(1))
    }
}

fn find_unknown(v: &Vec<String>) -> (r: Option<String>)
    ensures
        opt_view(r) == first_unknown(views_of(v@)),
{
    let mut i: usize = 0;
    assert(views_of(v@).skip(0) =~= views_of(v@));
    while i < v.len()
        invariant
            i <= v@.len(),
            first_unknown(views_of(v@)) == first_unknown(views_of(v@).skip(i as int)),
        decreases v@.len() - i,
    {
        assert(views_of(v@).skip(i as int)[0] == v@[i as int]@);
        assert(views_of(v@).skip(i as int).skip(1) =~= views_of(v@).skip(i + 1));
        if !check_id(v[i].as_str()) {
            return Some(copy_string(&v[i]));
        }
        i = i + 1;
    }
    None
}

/// The error about the first unknown id: skips first, then tests.
pub fn id_error(tests: &Vec<String>, skips: &Vec<String>) -> (r: Option<String>)
    ensures
        match first_unknown(views_of(skips@)) {
            Some(x) => r is Some && r.unwrap()@ == "unknown ID in skips: "@ + x,
            None => match first_unknown(views_of(tests@)) {
                Some(x) => r is Some && r.unwrap()@ == "unknown ID in tests: "@ + x,
                None => r is None,
            },
        },
{
    match find_unknown(skips) {
        Some(x) => {
            let mut e = to_owned_string("unknown ID in skips: ");
            push_str(&mut e, x.as_str());
            Some(e)
        },
        None => match find_unknown(tests) {
            Some(x) => {
                let mut e = to_owned_string("unknown ID in tests: ");
                push_str(&mut e, x.as_str());
                Some(e)
            },
            None => None,
        },
    }
}

/// `str(list_of_strings)`: `['a', 'b']`.
pub open spec fn list_repr(items: Seq<Seq<char>>) -> Seq<char> {
    "["@ + seq_join(Seq::new(items.len(), |k: int| "'"@ + items[k] + "'"@), ", "@) + "]"@
}

/// `str(list_of_strings)`.
pub fn py_list_repr(items: &Vec<String>) -> (r: String)
    ensures
        r@ == list_repr(views_of(items@)),
{
    let mut parts: Vec<String> = Vec::new();
    let mut i: usize = 0;
    while i < items.len()
        invariant
            i <= items@.len(),
            views_of(parts@) =~= Seq::new(i as nat, |k: int| "'"@ + items@[k]@ + "'"@),
        decreases items@.len() - i,
    {
        let mut q = to_owned_string("'");
        push_str(&mut q, items[i].as_str());
        push_str(&mut q, "'");
        let ghost before = views_of(parts@);
        parts.push(q);
        assert(views_of(parts@) =~= before.push(q@));
        i = i + 1;
    }
    assert(views_of(parts@) =~= Seq::new(views_of(items@).len(), |k: int| "'"@ + views_of(items@)[k] + "'"@));
    let mut r = to_owned_string("[");
    push_str(&mut r, join(&parts, ", ").as_str());
    push_str(&mut r, "]");
    r
}

/// The `# id : name` lines of the known tests.
pub open spec fn test_entries() -> Seq<Seq<char>> {
    ids_and_names().map_values(|p: (Seq<char>, Seq<char>)| "# "@ + p.0 + " : "@ + p.1)
}

/// The value of `{test}` or `{skip}`: the key, then the list when there is one.
pub open spec fn list_line(key: Seq<char>, items: Seq<Seq<char>>) -> Seq<char> {
    if items.len() == 0 { key } else { key + " "@ + list_repr(items) }
}

fn list_line_text(key: &str, items: &Vec<String>) -> (r: String)
    ensures
        r@ == list_line(key@, views_of(items@)),
{
    let mut s = to_owned_string(key);
    if items.len() > 0 {
        push_str(&mut s, " ");
        push_str(&mut s, py_list_repr(items).as_str());
    }
    s
}

/// The command line as written in the profile: the program name and its
/// arguments, separated by spaces.
pub open spec fn cli_line(args: Seq<Seq<char>>) -> Seq<char> {
    seq_join(seq!["bandit-config-generator"@] + args, " "@)
}

/// The profile written for a run.
pub open spec fn profile_text(cli: Seq<char>, settings: Seq<char>, test_list: Seq<char>, tests: Seq<Seq<char>>, skips: Seq<Seq<char>>) -> Seq<char> {
    replace_all(
        replace_all(
            replace_all(
                replace_all(replace_all(TEMPLATE@, "{cli}"@, cli), "{settings}"@, settings),
                "{test_list}"@,
                test_list,
            ),
            "{skip}"@,
            list_line("skips:"@, skips),
        ),
        "{test}"@,
        list_line("tests:"@, tests),
    )
}

/// The profile for the command line `args`, the plugin settings
/// `settings` (YAML) and the `-t` and `-s` ids; the list of tests is every
/// known test, sorted.
pub fn render_profile(args: &Vec<String>, settings: &str, tests: &Vec<String>, skips: &Vec<String>) -> (r: String)
    ensures
        exists|l: Seq<Seq<char>>| sorted(l) && l.to_multiset() == test_entries().to_multiset()
            && r@ == profile_text(cli_line(views_of(args@)), settings@, seq_join(l, "\n"@), views_of(tests@), views_of(skips@)),
{
    let pairs = all_ids_and_names();
    let mut lines: Vec<String> = Vec::new();
    let mut i: usize = 0;
    while i < pairs.len()
        invariant
            i <= pairs@.len(),
            pair_views(pairs@) == ids_and_names(),
            views_of(lines@) =~= test_entries().subrange(0, i as int),
        decreases pairs@.len() - i,
    {
        let mut t = to_owned_string("# ");
        push_str(&mut t, pairs[i].0);
        push_str(&mut t, " : ");
        push_str(&mut t, pairs[i].1);
        assert(pair_views(pairs@)[i as int] == (pairs@[i as int].0@, pairs@[i as int].1@));
        assert(t@ =~= test_entries()[i as int]);
        let ghost before = views_of(lines@);
        lines.push(t);
        assert(views_of(lines@) =~= before.push(test_entries()[i as int]));
        assert(test_entries().subrange(0, i + 1) =~= test_entries().subrange(0, i as int).push(test_entries()[i as int]));
        i = i + 1;
    }
    assert(views_of(lines@) =~= test_entries());
    let sorted_lines = sort_strings(lines);
    let test_list = join(&sorted_lines, "\n");
    let mut cli_parts: Vec<String> = Vec::new();
    cli_parts.push(to_owned_string("bandit-config-generator"));
    let mut k: usize = 0;
    while k < args.len()
        invariant
            k <= args@.len(),
            views_of(cli_parts@) =~= seq!["bandit-config-generator"@] + views_of(args@).subrange(0, k as int),
        decreases args@.len() - k,
    {
        let ghost before = views_of(cli_parts@);
        cli_parts.push(copy_string(&args[k]));
        assert(views_of(cli_parts@) =~= before.push(args@[k as int]@));
        k = k + 1;
    }
    assert(views_of(args@).subrange(0, args@.len() as int) =~= views_of(args@));
    let cli = join(&cli_parts, " ");
    proof {
        reveal_strlit("{cli}");
        reveal_strlit("{settings}");
        reveal_strlit("{test_list}");
        reveal_strlit("{skip}");
        reveal_strlit("{test}");
    }
    let a = replace_str(TEMPLATE, "{cli}", cli.as_str());
    let b = replace_str(a.as_str(), "{settings}", settings);
    let c = replace_str(b.as_str(), "{test_list}", test_list.as_str());
    let d = replace_str(c.as_str(), "{skip}", list_line_text("skips:", skips).as_str());
    let e = replace_str(d.as_str(), "{test}", list_line_text("tests:", tests).as_str());
    e
}

/// The logger's set-up: info level, the tool's own line format, printed
/// on standard output.
pub fn init_logger(logger: &mut crate::log::Logger)
    ensures
        final(logger).threshold == crate::log::Level::Info,
        final(logger).format is Some && final(logger).format.unwrap()@ == "[%(levelname)5s]: %(message)s"@,
        final(logger).use_stdout,
        final(logger).buffer == old(logger).buffer,
{
    logger.set_level(crate::log::Level::Info);
    logger.set_format("[%(levelname)5s]: %(message)s");
    logger.set_stdout(true);
}

} // verus!
