//! The decisions of `bandit-baseline`: which arguments it accepts, whether
//! the repository is fit for a run, and the two `bandit` command lines it
//! runs (on the parent commit, then on the current one against the first
//! run's results).
//!
//! Git and the `bandit` runs are the caller's part: it gathers the facts
//! about the repository and runs the command lines.

use vstd::prelude::*;
use crate::log::{Level, Logger};
use crate::text::{contains_string, push_str, str_eq, str_starts_with, to_owned_string, views_of, has_prefix, copy_strings};

verus! {

/// The file the first run writes its results to.
pub const BASELINE_TMP_FILE: &'static str = "_bandit_baseline_run.json_";

/// The base name of the report file.
pub const REPORT_BASENAME: &'static str = "bandit_baseline_result";

/// The output format when none is given.
pub const DEFAULT_OUTPUT_FORMAT: &'static str = "terminal";

/// What the caller found out about the working directory.
pub struct RepoFacts {
    /// Whether the `git` command can be run.
    pub git_available: bool,
    /// Whether the directory is inside a git work tree.
    pub inside_work_tree: bool,
    /// Whether tracked files have uncommitted changes (also when that
    /// could not be found out).
    pub dirty: bool,
    /// Which of [`checked_files`] exist in the directory.
    pub existing: Vec<String>,
}

/// A run that may go ahead: its output format and report file.
pub struct Initialized {
    pub output_format: String,
    pub report_fname: String,
}

/// What `initialize` decided: the run, or why there is none, and what to
/// log on the way.
pub struct InitOutcome {
    pub result: Option<Initialized>,
    /// An error of the argument parser (printed with the usage line; exit
    /// code 2).
    pub usage_error: Option<String>,
    /// Info lines to log, in order.
    pub infos: Vec<String>,
    /// Error lines to log after them, in order.
    pub errors: Vec<String>,
}

/// The value of the first `-f`, when it has one.
pub open spec fn format_arg(args: Seq<Seq<char>>) -> Option<Seq<char>>
    decreases args.len(),
{
    if args.len() == 0 {
        None
    } else if args[0] == "-f"@ {
        if args.len() >= 2 { Some(args[1]) } else { None }
    } else {
        format_arg(args.skip(1))
    }
}

/// The positional arguments: not options, not the value of a `-f`.
pub open spec fn target_args(args: Seq<Seq<char>>) -> Seq<Seq<char>>
    decreases args.len(),
{
    if args.len() == 0 {
        Seq::empty()
    } else if args[0] == "-f"@ {
        if args.len() >= 2 { target_args(args.skip(2)) } else { Seq::empty() }
    } else if has_prefix(args[0], "-"@) {
        target_args(args.skip(1))
    } else {
        seq![args[0]] + target_args(args.skip(1))
    }
}

/// Extracts `-f <fmt>` from the arguments (the only option read here; the
/// others go to `bandit` as they are).
pub fn extract_output_format(argv: &Vec<String>) -> (r: Option<String>)
    ensures
        match format_arg(views_of(argv@)) {
            Some(f) => r is Some && r.unwrap()@ == f,
            None => r is None,
        },
{
    let mut i: usize = 0;
    assert(views_of(argv@).skip(0) =~= views_of(argv@));
    while i < argv.len()
        invariant
            i <= argv@.len(),
            format_arg(views_of(argv@)) == format_arg(views_of(argv@).skip(i as int)),
        decreases argv@.len() - i,
    {
        assert(views_of(argv@).skip(i as int).skip(1) =~= views_of(argv@).skip(i + 1));
        if str_eq(argv[i].as_str(), "-f") {
            if i + 1 < argv.len() {
                return Some(argv[i + 1].clone());
            }
            return None;
        }
        i = i + 1;
    }
    None
}

/// The targets among the arguments.
pub fn targets_of(argv: &Vec<String>) -> (r: Vec<String>)
    ensures
        views_of(r@) == target_args(views_of(argv@)),
{
    let mut out: Vec<String> = Vec::new();
    let mut i: usize = 0;
    assert(views_of(argv@).skip(0) =~= views_of(argv@));
    while i < argv.len()
        invariant
            i <= argv@.len(),
            target_args(views_of(argv@)) == views_of(out@) + target_args(views_of(argv@).skip(i as int)),
        decreases argv@.len() - i,
    {
        let ghost rest = views_of(argv@).skip(i as int);
        if str_eq(argv[i].as_str(), "-f") {
            if i + 1 < argv.len() {
                assert(rest.skip(2) =~= views_of(argv@).skip(i + 2));
                i = i + 2;
            } else {
                assert(target_args(rest) == Seq::<Seq<char>>::empty());
                assert(views_of(out@) + Seq::<Seq<char>>::empty() =~= views_of(out@));
                return out;
            }
        } else if str_starts_with(argv[i].as_str(), "-") {
            assert(rest.skip(1) =~= views_of(argv@).skip(i + 1));
            i = i + 1;
        } else {
            let ghost before = views_of(out@);
            out.push(argv[i].clone());
            assert(rest.skip(1) =~= views_of(argv@).skip(i + 1));
            assert(views_of(out@) =~= before + seq![rest[0]]);
            i = i + 1;
        }
    }
    assert(views_of(argv@).skip(argv@.len() as int) =~= Seq::<Seq<char>>::empty());
    assert(views_of(out@) + Seq::<Seq<char>>::empty() =~= views_of(out@));
    out
}

/// The files of the working directory whose existence matters.
pub fn checked_files() -> (r: Vec<String>)
    ensures
        views_of(r@) == seq![
            REPORT_BASENAME@ + "."@ + "txt"@, REPORT_BASENAME@ + "."@ + "html"@, REPORT_BASENAME@ + "."@ + "json"@, BASELINE_TMP_FILE@,
        ],
{
    let r = vec![report_name("txt"), report_name("html"), report_name("json"), to_owned_string(BASELINE_TMP_FILE)];
    assert(views_of(r@) =~= seq![
        REPORT_BASENAME@ + "."@ + "txt"@, REPORT_BASENAME@ + "."@ + "html"@, REPORT_BASENAME@ + "."@ + "json"@, BASELINE_TMP_FILE@,
    ]);
    r
}

fn report_name(format: &str) -> (r: String)
    ensures
        r@ == REPORT_BASENAME@ + "."@ + format@,
{
    let mut s = to_owned_string(REPORT_BASENAME);
    push_str(&mut s, ".");
    push_str(&mut s, format);
    s
}

/// Whether `f` is a format the tool accepts.
pub open spec fn valid_format(f: Seq<char>) -> bool {
    f == "txt"@ || f == "html"@ || f == "json"@
}

/// The error lines of `initialize` once the arguments parsed and git is
/// available, in order.
pub open spec fn refusals(args: Seq<Seq<char>>, facts: RepoFacts, format: Seq<char>) -> Seq<Seq<char>> {
    let report = REPORT_BASENAME@ + "."@ + format;
    let existing = views_of(facts.existing@);
    (if !facts.inside_work_tree {
        seq!["Bandit baseline must be called from a git project root"@]
    } else if facts.dirty {
        seq!["Current working directory is dirty and must be resolved"@]
    } else {
        Seq::empty()
    }) + (if format != DEFAULT_OUTPUT_FORMAT@ && existing.contains(report) {
        seq!["File "@ + report + " already exists, aborting"@]
    } else {
        Seq::empty()
    }) + (if existing.contains(BASELINE_TMP_FILE@) {
        seq!["Temporary file "@ + BASELINE_TMP_FILE@ + " needs to be removed prior to running"@]
    } else {
        Seq::empty()
    }) + (if args.contains("-o"@) {
        seq!["Bandit baseline must not be called with the -o option"@]
    } else {
        Seq::empty()
    })
}

fn push_line(v: &mut Vec<String>, s: &str)
    ensures
        views_of(final(v)@) == views_of(old(v)@).push(s@),
{
    v.push(to_owned_string(s));
    assert(views_of(v@) =~= views_of(old(v)@).push(s@));
}

/// `initialize()`: checks the arguments and the working directory. The
/// run goes ahead only when the arguments parse (a valid `-f`, at least one
/// target), git is available and nothing is refused.
pub fn initialize(bandit_args: &Vec<String>, facts: &RepoFacts) -> (r: InitOutcome)
    ensures
        ({
            let args = views_of(bandit_args@);
            let f = format_arg(args);
            let format = match f { Some(v) => v, None => DEFAULT_OUTPUT_FORMAT@ };
            &&& f is Some && !valid_format(f.unwrap()) ==> r.result is None && r.usage_error is Some
                && r.usage_error.unwrap()@ == "argument -f: invalid choice: '"@ + f.unwrap() + "' (choose from 'txt', 'html', 'json')"@
                && r.infos@.len() == 0 && r.errors@.len() == 0
            &&& !(f is Some && !valid_format(f.unwrap())) && target_args(args).len() == 0 ==> r.result is None
                && r.usage_error is Some && r.usage_error.unwrap()@ == "the following arguments are required: targets"@
                && r.infos@.len() == 0 && r.errors@.len() == 0
            &&& !(f is Some && !valid_format(f.unwrap())) && target_args(args).len() > 0 ==> r.usage_error is None
                && views_of(r.infos@) == (if f is None { seq!["No output format specified, using terminal"@] } else { Seq::empty() })
                && views_of(r.errors@) == (if facts.git_available { refusals(args, *facts, format) } else {
                    seq!["Git not available, reinstall with baseline extra"@]
                })
                && (r.result is Some <==> r.errors@.len() == 0)
                && (r.result is Some ==> r.result.unwrap().output_format@ == format
                    && r.result.unwrap().report_fname@ == REPORT_BASENAME@ + "."@ + format)
        }),
{
    let mut infos: Vec<String> = Vec::new();
    let mut errors: Vec<String> = Vec::new();
    let given = extract_output_format(bandit_args);
    let output_format = match given {
        Some(v) => {
            if !(str_eq(v.as_str(), "txt") || str_eq(v.as_str(), "html") || str_eq(v.as_str(), "json")) {
                let mut e = to_owned_string("argument -f: invalid choice: '");
                push_str(&mut e, v.as_str());
                push_str(&mut e, "' (choose from 'txt', 'html', 'json')");
                return InitOutcome { result: None, usage_error: Some(e), infos, errors };
            }
            v
        },
        None => to_owned_string(DEFAULT_OUTPUT_FORMAT),
    };
    let targets = targets_of(bandit_args);
    if targets.len() == 0 {
        let e = to_owned_string("the following arguments are required: targets");
        return InitOutcome { result: None, usage_error: Some(e), infos, errors };
    }
    let is_default = str_eq(output_format.as_str(), DEFAULT_OUTPUT_FORMAT);
    proof {
        reveal_strlit("terminal");
        reveal_strlit("txt");
        assert("txt"@[1] != "terminal"@[1]);
        reveal_strlit("html");
        assert("html"@[0] != "terminal"@[0]);
        reveal_strlit("json");
        assert("json"@[0] != "terminal"@[0]);
    }
    if is_default {
        push_line(&mut infos, "No output format specified, using terminal");
    }
    let report_fname = report_name(output_format.as_str());
    if !facts.git_available {
        push_line(&mut errors, "Git not available, reinstall with baseline extra");
        return InitOutcome { result: None, usage_error: None, infos, errors };
    }
    if !facts.inside_work_tree {
        push_line(&mut errors, "Bandit baseline must be called from a git project root");
    } else if facts.dirty {
        push_line(&mut errors, "Current working directory is dirty and must be resolved");
    }
    if !is_default && contains_string(&facts.existing, report_fname.as_str()) {
        let mut e = to_owned_string("File ");
        push_str(&mut e, report_fname.as_str());
        push_str(&mut e, " already exists, aborting");
        let ghost before = views_of(errors@);
        errors.push(e);
        assert(views_of(errors@) =~= before.push(e@));
    }
    if contains_string(&facts.existing, BASELINE_TMP_FILE) {
        let mut e = to_owned_string("Temporary file ");
        push_str(&mut e, BASELINE_TMP_FILE);
        push_str(&mut e, " needs to be removed prior to running");
        let ghost before = views_of(errors@);
        errors.push(e);
        assert(views_of(errors@) =~= before.push(e@));
    }
    if contains_string(bandit_args, "-o") {
        push_line(&mut errors, "Bandit baseline must not be called with the -o option");
    }
    let ghost args = views_of(bandit_args@);
    assert(views_of(errors@) =~= refusals(args, *facts, output_format@));
    if errors.len() == 0 {
        InitOutcome { result: Some(Initialized { output_format, report_fname }), usage_error: None, infos, errors }
    } else {
        InitOutcome { result: None, usage_error: None, infos, errors }
    }
}

/// `init_logger()`: info level, the tool's own line format, printed on
/// standard output.
pub fn init_logger(logger: &mut Logger)
    ensures
        final(logger).threshold == Level::Info,
        final(logger).format is Some && final(logger).format.unwrap()@ == "[%(levelname)7s ] %(message)s"@,
        final(logger).use_stdout,
        final(logger).buffer == old(logger).buffer,
{
    logger.set_level(Level::Info);
    logger.set_format("[%(levelname)7s ] %(message)s");
    logger.set_stdout(true);
}

/// The two `bandit` command lines of a run, given the results file of the
/// first (`tmp_file`): on the parent commit, JSON results into `tmp_file`;
/// on the current commit, against them, as text on standard output or
/// into the report file.
pub fn run_commands(bandit_args: &Vec<String>, init: &Initialized, tmp_file: &str) -> (r: (Vec<String>, Vec<String>))
    ensures
        views_of(r.0@) == views_of(bandit_args@) + seq!["-f"@, "json"@, "-o"@, tmp_file@],
        views_of(r.1@) == views_of(bandit_args@) + seq!["-b"@, tmp_file@] + if init.output_format@ == DEFAULT_OUTPUT_FORMAT@ {
            seq!["-f"@, "txt"@]
        } else {
            seq!["-o"@, init.report_fname@]
        },
{
    let mut first = copy_strings(bandit_args);
    push_line(&mut first, "-f");
    push_line(&mut first, "json");
    push_line(&mut first, "-o");
    push_line(&mut first, tmp_file);
    let mut second = copy_strings(bandit_args);
    push_line(&mut second, "-b");
    push_line(&mut second, tmp_file);
    if str_eq(init.output_format.as_str(), DEFAULT_OUTPUT_FORMAT) {
        push_line(&mut second, "-f");
        push_line(&mut second, "txt");
    } else {
        push_line(&mut second, "-o");
        push_line(&mut second, init.report_fname.as_str());
    }
    assert(views_of(first@) =~= views_of(bandit_args@) + seq!["-f"@, "json"@, "-o"@, tmp_file@]);
    (first, second)
}

/// Whether an exit code of `bandit` is an error (neither 0 nor 1).
pub fn failed_run(code: i32) -> (r: bool)
    ensures
        r == !(0 <= code <= 1),
{
    !(0 <= code && code <= 1)
}

} // verus!
