//! The decisions of the `bandit` command: options taken from a `.bandit`
//! ini file, the logger's set-up, the profile's test selection, the
//! severity and confidence thresholds and the exit code.

use vstd::prelude::*;
use crate::constants::{Rank, exclude, exclude_names, LOG_FORMAT_STRING};
use indexmap::IndexSet;
use crate::engine::config::{Profile, set_contains, set_insert, set_item, set_items, set_len};
use crate::engine::registry::{check_id, is_known_id};
use crate::engine::discover::{split_commas, split_commas_spec};
use crate::log::{Level, Logger};
use crate::text::{
    lower_seq, parse_i64, parse_u32, int_text_value, push_str, seq_join, str_eq, to_lower, to_owned_string,
    views_of,
};

verus! {

/// Where the report goes (`-o`): standard output, `-o` given without a
/// file name, or a file.
pub enum OutputTarget {
    Stdout,
    Bare,
    File(String),
}

/// The parsed command line of `bandit`.
pub struct Args {
    pub targets: Vec<String>,
    pub recursive: bool,
    pub agg_type: String,
    pub context_lines: i64,
    pub config_file: Option<String>,
    pub profile: Option<String>,
    pub tests: Option<String>,
    pub skips: Option<String>,
    pub severity: u32,
    pub confidence: u32,
    pub output_format: Option<String>,
    pub msg_template: Option<String>,
    pub output_file: OutputTarget,
    pub verbose: bool,
    pub debug: bool,
    pub quiet: bool,
    pub ignore_nosec: bool,
    pub excluded_paths: String,
    pub baseline: Option<String>,
    pub ini_path: Option<String>,
    pub exit_zero: bool,
}

/// The default of `-x/--exclude`: the default excluded paths, comma
/// separated.
pub open spec fn default_excluded() -> Seq<char> {
    seq_join(exclude_names(), seq![','])
}

impl Default for Args {
    /// The values of a command line that gives no option.
    fn default() -> (r: Args)
        ensures
            r.targets@.len() == 0,
            !r.recursive,
            r.agg_type@ == "file"@,
            r.context_lines == -1,
            r.config_file is None,
            r.profile is None,
            r.tests is None,
            r.skips is None,
            r.severity == 1,
            r.confidence == 1,
            r.output_format is None,
            r.msg_template is None,
            r.output_file is Stdout,
            !r.verbose,
            !r.debug,
            !r.quiet,
            !r.ignore_nosec,
            r.excluded_paths@ == default_excluded(),
            r.baseline is None,
            r.ini_path is None,
            !r.exit_zero,
    {
        let names = exclude();
        let mut ex = String::new();
        let mut i: usize = 0;
        while i < names.len()
            invariant
                i <= names@.len(),
                names@.map_values(|s: &'static str| s@) == exclude_names(),
                ex@ == seq_join(exclude_names().subrange(0, i as int), seq![',']),
            decreases names@.len() - i,
        {
            let ghost t = exclude_names().subrange(0, i + 1);
            assert(t.drop_last() =~= exclude_names().subrange(0, i as int));
            assert(names@.map_values(|s: &'static str| s@)[i as int] == names@[i as int]@);
            if i > 0 {
                push_str(&mut ex, ",");
                proof { reveal_strlit(","); }
            }
            push_str(&mut ex, names[i]);
            proof {
                if i == 0 {
                    assert(ex@ =~= t[0]);
                }
            }
            i = i + 1;
        }
        assert(exclude_names().subrange(0, names@.len() as int) =~= exclude_names());
        Args {
            targets: Vec::new(),
            recursive: false,
            agg_type: to_owned_string("file"),
            context_lines: -1,
            config_file: None,
            profile: None,
            tests: None,
            skips: None,
            severity: 1,
            confidence: 1,
            output_format: None,
            msg_template: None,
            output_file: OutputTarget::Stdout,
            verbose: false,
            debug: false,
            quiet: false,
            ignore_nosec: false,
            excluded_paths: ex,
            baseline: None,
            ini_path: None,
            exit_zero: false,
        }
    }
}

/// The view of an optional string.
pub open spec fn opt_view(o: Option<String>) -> Option<Seq<char>> {
    match o {
        Some(s) => Some(s@),
        None => None,
    }
}

/// The view of an optional string slice.
pub open spec fn opt_str_view(o: Option<&str>) -> Option<Seq<char>> {
    match o {
        Some(s) => Some(s@),
        None => None,
    }
}

/// Python truthiness of an optional string: present and not empty.
pub open spec fn truthy(v: Option<Seq<char>>) -> bool {
    v is Some && v.unwrap().len() > 0
}

/// The value `_log_option_source` settles on.
pub open spec fn source_value(default_val: Option<Seq<char>>, arg_val: Option<Seq<char>>, ini_val: Option<Seq<char>>) -> Option<Seq<char>> {
    if default_val is None {
        if truthy(arg_val) {
            arg_val
        } else if truthy(ini_val) {
            ini_val
        } else {
            None
        }
    } else if default_val == arg_val {
        if truthy(ini_val) {
            ini_val
        } else {
            Some(arg_val.unwrap_or(Seq::empty()))
        }
    } else {
        arg_val
    }
}

/// The info line `_log_option_source` logs, if any.
pub open spec fn source_note(default_val: Option<Seq<char>>, arg_val: Option<Seq<char>>, ini_val: Option<Seq<char>>, name: Seq<char>) -> Option<Seq<char>> {
    if default_val is None && truthy(arg_val) {
        Some("Using command line arg for "@ + name)
    } else if default_val is None && truthy(ini_val) {
        Some("Using ini file for "@ + name)
    } else {
        None
    }
}

fn opt_copy(o: Option<&str>) -> (r: Option<String>)
    ensures
        opt_view(r) == opt_str_view(o),
{
    match o {
        Some(s) => Some(to_owned_string(s)),
        None => None,
    }
}

/// `_log_option_source(default_val, arg_val, ini_val, option_name)`: the
/// option's value, and the info line to log about where it came from.
pub fn log_option_source(default_val: Option<&str>, arg_val: Option<&str>, ini_val: Option<&str>, option_name: &str) -> (r: (
    Option<String>,
    Option<String>,
))
    ensures
        opt_view(r.0) == source_value(opt_str_view(default_val), opt_str_view(arg_val), opt_str_view(ini_val)),
        opt_view(r.1) == source_note(opt_str_view(default_val), opt_str_view(arg_val), opt_str_view(ini_val), option_name@),
{
    let arg_true = match arg_val { Some(a) => a.unicode_len() > 0, None => false };
    let ini_true = match ini_val { Some(v) => v.unicode_len() > 0, None => false };
    match default_val {
        None => {
            if arg_true {
                let mut note = to_owned_string("Using command line arg for ");
                push_str(&mut note, option_name);
                (opt_copy(arg_val), Some(note))
            } else if ini_true {
                let mut note = to_owned_string("Using ini file for ");
                push_str(&mut note, option_name);
                (opt_copy(ini_val), Some(note))
            } else {
                (None, None)
            }
        },
        Some(d) => {
            let same = match arg_val {
                Some(a) => str_eq(d, a),
                None => false,
            };
            if same {
                if ini_true {
                    (opt_copy(ini_val), None)
                } else {
                    (opt_copy(arg_val), None)
                }
            } else {
                (opt_copy(arg_val), None)
            }
        },
    }
}

/// The value of `key` in the options read from an ini file (the first
/// entry with that key).
pub open spec fn ini_get(ini: Seq<(String, String)>, key: Seq<char>) -> Option<Seq<char>>
    decreases ini.len(),
{
    if ini.len() == 0 {
        None
    } else if ini[0].0@ == key {
        Some(ini[0].1@)
    } else {
        ini_get(ini.skip(1), key)
    }
}

/// `ini.get(key)`.
pub fn ini_lookup<'a>(ini: &'a Vec<(String, String)>, key: &str) -> (r: Option<&'a str>)
    ensures
        opt_str_view(r) == ini_get(ini@, key@),
{
    let mut i: usize = 0;
    assert(ini@.skip(0) =~= ini@);
    while i < ini.len()
        invariant
            i <= ini@.len(),
            ini_get(ini@, key@) == ini_get(ini@.skip(i as int), key@),
        decreases ini@.len() - i,
    {
        assert(ini@.skip(i as int).skip(1) =~= ini@.skip(i + 1));
        if str_eq(ini[i].0.as_str(), key) {
            return Some(ini[i].1.as_str());
        }
        i = i + 1;
    }
    None
}

/// Whether an ini value switches a flag on: `1`, `true`, `yes` or `on`,
/// in any case.
pub open spec fn flag_word(v: Seq<char>) -> bool {
    let l = lower_seq(v);
    l == "1"@ || l == "true"@ || l == "yes"@ || l == "on"@
}

fn is_flag_word(v: &str) -> (r: bool)
    ensures
        r == flag_word(v@),
{
    let l = to_lower(v);
    str_eq(l.as_str(), "1") || str_eq(l.as_str(), "true") || str_eq(l.as_str(), "yes") || str_eq(l.as_str(), "on")
}

/// A flag after the ini file: set when it was, else read from `v`.
pub open spec fn flag_after(old: bool, v: Option<Seq<char>>) -> bool {
    match v {
        Some(w) => if old { true } else { flag_word(w) },
        None => old,
    }
}

fn apply_flag(flag: &mut bool, v: Option<&str>)
    ensures
        *final(flag) == flag_after(*old(flag), opt_str_view(v)),
{
    match v {
        Some(w) => {
            if !*flag {
                *flag = is_flag_word(w);
            }
        },
        None => {},
    }
}

/// An integer option read from the ini file, taken where the command line
/// left the default.
pub open spec fn number_after(old: i64, v: Option<Seq<char>>) -> i64 {
    match v {
        Some(w) => match int_text_value(w, true) {
            Some(n) => if i64::MIN <= n <= i64::MAX && n != 0 && old == -1 { n as i64 } else { old },
            None => old,
        },
        None => old,
    }
}

/// A threshold read from the ini file, taken where the command line left
/// the default.
pub open spec fn level_after(old: u32, v: Option<Seq<char>>) -> u32 {
    match v {
        Some(w) => match int_text_value(w, false) {
            Some(n) => if 0 <= n <= u32::MAX && old == 1 { n as u32 } else { old },
            None => old,
        },
        None => old,
    }
}

fn apply_level(level: &mut u32, v: Option<&str>)
    ensures
        *final(level) == level_after(*old(level), opt_str_view(v)),
{
    match v {
        Some(w) => match parse_u32(w) {
            Some(n) => {
                if *level == 1 {
                    *level = n;
                }
            },
            None => {},
        },
        None => {},
    }
}

/// The notes that are present, in order.
pub open spec fn present(s: Seq<Option<Seq<char>>>) -> Seq<Seq<char>>
    decreases s.len(),
{
    if s.len() == 0 {
        Seq::empty()
    } else {
        present(s.drop_last()) + match s.last() {
            Some(n) => seq![n],
            None => Seq::empty(),
        }
    }
}

/// The info line about the targets, if any.
pub open spec fn targets_note(old: Seq<Seq<char>>, v: Option<Seq<char>>) -> Option<Seq<char>> {
    if truthy(v) {
        if old.len() == 0 {
            Some("Using ini file for selected targets"@)
        } else {
            Some("Using command line arg for selected targets"@)
        }
    } else {
        None
    }
}

/// The targets after the ini file.
pub open spec fn targets_after(old: Seq<Seq<char>>, v: Option<Seq<char>>) -> Seq<Seq<char>> {
    if truthy(v) && old.len() == 0 {
        split_commas_spec(v.unwrap())
    } else {
        old
    }
}

/// `-o` after the ini file: a file where the command line gave none.
pub open spec fn output_after(old: OutputTarget, v: Option<Seq<char>>) -> Option<Seq<char>> {
    if truthy(v) && old is Stdout {
        v
    } else {
        match old {
            OutputTarget::File(f) => Some(f@),
            _ => None,
        }
    }
}

/// The format in effect before the ini file: the one given, else the
/// default.
pub open spec fn current_format(a: Args, default_format: Seq<char>) -> Seq<char> {
    match a.output_format {
        Some(f) => f@,
        None => default_format,
    }
}

/// The info lines `apply_ini_options` logs, in order.
pub open spec fn ini_notes(a: Args, ini: Seq<(String, String)>, default_format: Seq<char>) -> Seq<Seq<char>> {
    present(seq![
        source_note(None, opt_view(a.config_file), ini_get(ini, "configfile"@), "config file"@),
        source_note(None, opt_view(a.skips), ini_get(ini, "skips"@), "skipped tests"@),
        source_note(None, opt_view(a.tests), ini_get(ini, "tests"@), "selected tests"@),
        targets_note(views_of(a.targets@), ini_get(ini, "targets"@)),
        source_note(None, opt_view(a.profile), ini_get(ini, "profile"@), "profile"@),
        source_note(None, opt_view(a.msg_template), ini_get(ini, "msg-template"@), "output message template"@),
        source_note(None, opt_view(a.baseline), ini_get(ini, "baseline"@), "path of a baseline report"@),
    ])
}

/// What `apply_ini_options` makes of the arguments `a` and the ini options
/// `ini`: the arguments `b`.
pub open spec fn ini_applied(a: Args, ini: Seq<(String, String)>, default_format: Seq<char>, b: Args) -> bool {
    &&& opt_view(b.config_file) == source_value(None, opt_view(a.config_file), ini_get(ini, "configfile"@))
    &&& Some(b.excluded_paths@) == source_value(Some(default_excluded()), Some(a.excluded_paths@), ini_get(ini, "exclude"@))
    &&& opt_view(b.skips) == source_value(None, opt_view(a.skips), ini_get(ini, "skips"@))
    &&& opt_view(b.tests) == source_value(None, opt_view(a.tests), ini_get(ini, "tests"@))
    &&& views_of(b.targets@) == targets_after(views_of(a.targets@), ini_get(ini, "targets"@))
    &&& b.recursive == flag_after(a.recursive, ini_get(ini, "recursive"@))
    &&& Some(b.agg_type@) == source_value(Some("file"@), Some(a.agg_type@), ini_get(ini, "aggregate"@))
    &&& b.context_lines == number_after(a.context_lines, ini_get(ini, "number"@))
    &&& opt_view(b.profile) == source_value(None, opt_view(a.profile), ini_get(ini, "profile"@))
    &&& b.severity == level_after(a.severity, ini_get(ini, "level"@))
    &&& b.confidence == level_after(a.confidence, ini_get(ini, "confidence"@))
    &&& opt_view(b.output_format) == source_value(Some(default_format), Some(current_format(a, default_format)), ini_get(ini, "format"@))
    &&& opt_view(b.msg_template) == source_value(None, opt_view(a.msg_template), ini_get(ini, "msg-template"@))
    &&& (b.output_file is Stdout <==> output_after(a.output_file, ini_get(ini, "output"@)) is None && a.output_file is Stdout)
    &&& (b.output_file is Bare <==> a.output_file is Bare)
    &&& (match b.output_file {
        OutputTarget::File(f) => output_after(a.output_file, ini_get(ini, "output"@)) == Some(f@),
        _ => true,
    })
    &&& b.verbose == flag_after(a.verbose, ini_get(ini, "verbose"@))
    &&& b.debug == flag_after(a.debug, ini_get(ini, "debug"@))
    &&& b.quiet == flag_after(a.quiet, ini_get(ini, "quiet"@))
    &&& b.ignore_nosec == flag_after(a.ignore_nosec, ini_get(ini, "ignore-nosec"@))
    &&& opt_view(b.baseline) == source_value(None, opt_view(a.baseline), ini_get(ini, "baseline"@))
    &&& opt_view(b.ini_path) == opt_view(a.ini_path)
    &&& b.exit_zero == a.exit_zero
}

fn push_note(notes: &mut Vec<String>, n: Option<String>)
    ensures
        views_of(final(notes)@) == views_of(old(notes)@) + match opt_view(n) {
            Some(v) => seq![v],
            None => Seq::<Seq<char>>::empty(),
        },
{
    match n {
        Some(v) => {
            notes.push(v);
            assert(views_of(notes@) =~= views_of(old(notes)@).push(v@));
        },
        None => {},
    }
}

/// Fills `args` from the options of a `.bandit` ini file, where the command
/// line left them unset or at their defaults; `default_format` is the
/// default output format. Returns the info lines to log, in order.
#[verifier::rlimit(100)]
pub fn apply_ini_options(args: &mut Args, ini: &Vec<(String, String)>, default_format: &str) -> (notes: Vec<String>)
    ensures
        ini_applied(*old(args), ini@, default_format@, *final(args)),
        views_of(notes@) == ini_notes(*old(args), ini@, default_format@),
{
    let ghost a = *args;
    let mut notes: Vec<String> = Vec::new();

    let (v, n) = log_option_source(None, opt_as_str(&args.config_file), ini_lookup(ini, "configfile"), "config file");
    args.config_file = v;
    push_note(&mut notes, n);

    let dflt = Args::default();
    let (v, n) = log_option_source(Some(dflt.excluded_paths.as_str()), Some(args.excluded_paths.as_str()), ini_lookup(ini, "exclude"), "excluded paths");
    match v {
        Some(x) => {
            args.excluded_paths = x;
        },
        None => {},
    }

    let (v, n) = log_option_source(None, opt_as_str(&args.skips), ini_lookup(ini, "skips"), "skipped tests");
    args.skips = v;
    push_note(&mut notes, n);
    let (v, n) = log_option_source(None, opt_as_str(&args.tests), ini_lookup(ini, "tests"), "selected tests");
    args.tests = v;
    push_note(&mut notes, n);

    let tn = apply_targets(&mut args.targets, ini_lookup(ini, "targets"));
    push_note(&mut notes, tn);

    apply_flag(&mut args.recursive, ini_lookup(ini, "recursive"));
    let (v, n) = log_option_source(Some("file"), Some(args.agg_type.as_str()), ini_lookup(ini, "aggregate"), "aggregate output type");
    match v {
        Some(x) => {
            args.agg_type = x;
        },
        None => {},
    }
    match ini_lookup(ini, "number") {
        Some(w) => match parse_i64(w) {
            Some(k) => {
                if k != 0 && args.context_lines == -1 {
                    args.context_lines = k;
                }
            },
            None => {},
        },
        None => {},
    }
    let (v, n) = log_option_source(None, opt_as_str(&args.profile), ini_lookup(ini, "profile"), "profile");
    args.profile = v;
    push_note(&mut notes, n);
    apply_level(&mut args.severity, ini_lookup(ini, "level"));
    apply_level(&mut args.confidence, ini_lookup(ini, "confidence"));

    let current = match &args.output_format {
        Some(f) => f.clone(),
        None => to_owned_string(default_format),
    };
    let (v, n) = log_option_source(Some(default_format), Some(current.as_str()), ini_lookup(ini, "format"), "output format");
    args.output_format = v;

    let (v, n) = log_option_source(None, opt_as_str(&args.msg_template), ini_lookup(ini, "msg-template"), "output message template");
    args.msg_template = v;
    push_note(&mut notes, n);

    match ini_lookup(ini, "output") {
        Some(o) => {
            if o.unicode_len() > 0 && matches!(args.output_file, OutputTarget::Stdout) {
                args.output_file = OutputTarget::File(to_owned_string(o));
            }
        },
        None => {},
    }
    apply_flag(&mut args.verbose, ini_lookup(ini, "verbose"));
    apply_flag(&mut args.debug, ini_lookup(ini, "debug"));
    apply_flag(&mut args.quiet, ini_lookup(ini, "quiet"));
    apply_flag(&mut args.ignore_nosec, ini_lookup(ini, "ignore-nosec"));

    let (v, n) = log_option_source(None, opt_as_str(&args.baseline), ini_lookup(ini, "baseline"), "path of a baseline report");
    args.baseline = v;
    push_note(&mut notes, n);
    proof {
        reveal_with_fuel(present, 8);
    }
    notes
}

fn opt_as_str(o: &Option<String>) -> (r: Option<&str>)
    ensures
        opt_str_view(r) == opt_view(*o),
{
    match o {
        Some(s) => Some(s.as_str()),
        None => None,
    }
}

fn apply_targets(targets: &mut Vec<String>, v: Option<&str>) -> (note: Option<String>)
    ensures
        views_of(final(targets)@) == targets_after(views_of(old(targets)@), opt_str_view(v)),
        opt_view(note) == targets_note(views_of(old(targets)@), opt_str_view(v)),
{
    match v {
        Some(t) => {
            if t.unicode_len() > 0 {
                if targets.len() == 0 {
                    *targets = split_commas(t);
                    Some(to_owned_string("Using ini file for selected targets"))
                } else {
                    Some(to_owned_string("Using command line arg for selected targets"))
                }
            } else {
                None
            }
        },
        None => None,
    }
}

/// `_init_logger(log_level, log_format)`: sets the threshold and the
/// format (the default format when none is given), then logs the debug
/// line "logging initialized"; returns that line when it is printed.
pub fn init_logger(logger: &mut Logger, level: Level, log_format: Option<&str>) -> (r: Option<String>)
    ensures
        final(logger).threshold == level,
        final(logger).format is Some,
        final(logger).format.unwrap()@ == match log_format {
            Some(f) => f@,
            None => LOG_FORMAT_STRING@,
        },
        final(logger).use_stdout == old(logger).use_stdout,
        (level == Level::Debug && old(logger).buffer is None) ==> r is Some && r.unwrap()@
            == crate::log::line_of(final(logger).format, "main"@, Level::Debug, "logging initialized"@),
        level != Level::Debug ==> r is None && final(logger).buffer == old(logger).buffer,
{
    logger.set_level(level);
    match log_format {
        Some(f) => logger.set_format(f),
        None => logger.set_format(LOG_FORMAT_STRING),
    }
    logger.log("main", Level::Debug, "logging initialized")
}

/// More than one `.bandit` file was found under the targets, and none was
/// chosen with `--ini`; holds the paths found.
pub struct MultipleIniFiles(pub Vec<String>);

impl MultipleIniFiles {
    /// The error logged before exiting.
    pub fn to_string(&self) -> (r: String)
        ensures
            r@ == "Multiple .bandit files found - scan separately or choose one with --ini\n\t"@
                + seq_join(views_of(self.0@), ", "@),
    {
        let mut s = to_owned_string("Multiple .bandit files found - scan separately or choose one with --ini\n\t");
        let j = crate::formatters::text::join(&self.0, ", ");
        push_str(&mut s, j.as_str());
        s
    }
}

/// `_get_options_from_ini(ini_path, targets)`, once the `.bandit` files
/// under the targets are known (`found`, in walk order): the ini file to
/// read, if any, and the info line to log about it.
pub fn choose_ini_file(ini_path: Option<&str>, found: Vec<String>) -> (r: Result<(Option<String>, Option<String>), MultipleIniFiles>)
    ensures
        match ini_path {
            Some(p) => r is Ok && opt_view(r->Ok_0.0) == Some(p@) && r->Ok_0.1 is None,
            None => if found@.len() > 1 {
                r is Err && views_of(r->Err_0.0@) == views_of(found@)
            } else if found@.len() == 1 {
                r is Ok && opt_view(r->Ok_0.0) == Some(found@[0]@) && opt_view(r->Ok_0.1)
                    == Some("Found project level .bandit file: "@ + found@[0]@)
            } else {
                r is Ok && r->Ok_0.0 is None && r->Ok_0.1 is None
            },
        },
{
    match ini_path {
        Some(p) => Ok((Some(to_owned_string(p)), None)),
        None => {
            if found.len() > 1 {
                Err(MultipleIniFiles(found))
            } else if found.len() == 1 {
                let mut note = to_owned_string("Found project level .bandit file: ");
                push_str(&mut note, found[0].as_str());
                Ok((Some(found[0].clone()), Some(note)))
            } else {
                Ok((None, None))
            }
        },
    }
}

/// Whether `--msg-template` was given without `--format custom`.
pub fn template_misused(args: &Args) -> (r: bool)
    ensures
        r == (args.msg_template is Some && !(opt_view(args.output_format) == Some("custom"@))),
{
    let custom = match &args.output_format {
        Some(f) => str_eq(f.as_str(), "custom"),
        None => false,
    };
    !custom && args.msg_template.is_some()
}

/// The rank of a `-l`/`-i` count: `RANKING[n - 1]`, `n` taken into `1..=4`.
pub open spec fn level_rank(n: u32) -> Rank {
    if n <= 1 {
        Rank::Undefined
    } else if n == 2 {
        Rank::Low
    } else if n == 3 {
        Rank::Medium
    } else {
        Rank::High
    }
}

/// The severity and confidence thresholds of a run.
pub fn thresholds(severity: u32, confidence: u32) -> (r: (Rank, Rank))
    ensures
        r.0 == level_rank(severity),
        r.1 == level_rank(confidence),
{
    (rank_of_count(severity), rank_of_count(confidence))
}

fn rank_of_count(n: u32) -> (r: Rank)
    ensures
        r == level_rank(n),
{
    let k: u32 = if n < 1 { 1 } else if n > 4 { 4 } else { n };
    match Rank::from_index((k - 1) as usize) {
        Some(r) => r,
        None => Rank::Low,
    }
}

/// The exit code of a run: 1 when issues were reported and `--exit-zero`
/// was not given, else 0.
pub fn exit_code(results_count: usize, exit_zero: bool) -> (r: i32)
    ensures
        r == (if results_count > 0 && !exit_zero { 1i32 } else { 0i32 }),
{
    if results_count > 0 && !exit_zero { 1 } else { 0 }
}

/// The test ids of a comma-separated option.
pub open spec fn extended(items: Seq<Seq<char>>, add: Seq<Seq<char>>) -> Seq<Seq<char>>
    decreases add.len(),
{
    if add.len() == 0 {
        items
    } else {
        let e = extended(items, add.drop_last());
        if e.contains(add.last()) { e } else { e.push(add.last()) }
    }
}

/// What a comma-separated option adds to a set of test ids.
pub open spec fn option_ids(o: Option<Seq<char>>) -> Seq<Seq<char>> {
    match o {
        Some(t) => split_commas_spec(t),
        None => Seq::empty(),
    }
}

fn extend_set(set: &mut IndexSet<String>, o: Option<&str>)
    ensures
        set_items(*final(set)) == extended(set_items(*old(set)), option_ids(opt_str_view(o))),
{
    match o {
        Some(t) => {
            let parts = split_commas(t);
            let mut i: usize = 0;
            while i < parts.len()
                invariant
                    i <= parts@.len(),
                    views_of(parts@) == split_commas_spec(t@),
                    set_items(*set) == extended(set_items(*old(set)), views_of(parts@).subrange(0, i as int)),
                decreases parts@.len() - i,
            {
                let ghost u = views_of(parts@).subrange(0, i + 1);
                assert(u.drop_last() =~= views_of(parts@).subrange(0, i as int));
                set_insert(set, parts[i].clone());
                i = i + 1;
            }
            assert(views_of(parts@).subrange(0, parts@.len() as int) =~= views_of(parts@));
        },
        None => {},
    }
}

/// The warnings about unknown ids among `s`, in order.
pub open spec fn unknown_notes(s: Seq<Seq<char>>) -> Seq<Seq<char>>
    decreases s.len(),
{
    if s.len() == 0 {
        Seq::empty()
    } else {
        unknown_notes(s.drop_last()) + if is_known_id(s.last()) {
            Seq::empty()
        } else {
            seq!["Unknown test found in profile: "@ + s.last()]
        }
    }
}

/// The ids of `a` that `b` holds too, in the order of `a`.
pub open spec fn overlap(a: Seq<Seq<char>>, b: Seq<Seq<char>>) -> Seq<Seq<char>>
    decreases a.len(),
{
    if a.len() == 0 {
        Seq::empty()
    } else {
        overlap(a.drop_last(), b) + if b.contains(a.last()) { seq![a.last()] } else { Seq::empty() }
    }
}

/// The error about ids both included and excluded.
pub open spec fn overlap_error(o: Seq<Seq<char>>) -> Seq<char> {
    "Non-exclusive include/exclude test sets: {"@ + seq_join(Seq::new(o.len(), |k: int| "'"@ + o[k] + "'"@), ", "@) + "}"@
}

fn unknown_warnings(set: &IndexSet<String>, notes: &mut Vec<String>)
    ensures
        views_of(final(notes)@) == views_of(old(notes)@) + unknown_notes(set_items(*set)),
{
    let n = set_len(set);
    let ghost items = set_items(*set);
    let mut i: usize = 0;
    while i < n
        invariant
            n == items.len(),
            items == set_items(*set),
            i <= n,
            views_of(notes@) == views_of(old(notes)@) + unknown_notes(items.subrange(0, i as int)),
        decreases n - i,
    {
        let ghost u = items.subrange(0, i + 1);
        assert(u.drop_last() =~= items.subrange(0, i as int));
        let x = set_item(set, i);
        assert(u.last() == x@);
        let ghost before = views_of(notes@);
        if !check_id(x.as_str()) {
            let mut w = to_owned_string("Unknown test found in profile: ");
            push_str(&mut w, x.as_str());
            notes.push(w);
            assert(views_of(notes@) =~= before.push(w@));
            assert(unknown_notes(u) =~= unknown_notes(items.subrange(0, i as int)).push(w@));
        } else {
            assert(unknown_notes(u) =~= unknown_notes(items.subrange(0, i as int)));
        }
        assert(views_of(notes@) =~= views_of(old(notes)@) + unknown_notes(u));
        i = i + 1;
    }
    assert(items.subrange(0, n as int) =~= items);
}

/// Adds the `-t` and `-s` ids to a profile and checks it: the warnings
/// about unknown ids (included ones, then excluded ones), and the error
/// when an id is both included and excluded.
pub fn merge_cli_tests(profile: &mut Profile, tests: Option<&str>, skips: Option<&str>) -> (r: (Vec<String>, Option<String>))
    ensures
        set_items(final(profile).includes) == extended(
            set_items(old(profile).includes),
            option_ids(opt_str_view(tests)),
        ),
        set_items(final(profile).exclude) == extended(
            set_items(old(profile).exclude),
            option_ids(opt_str_view(skips)),
        ),
        final(profile).blacklist == old(profile).blacklist,
        views_of(r.0@) == unknown_notes(set_items(final(profile).includes)) + unknown_notes(
            set_items(final(profile).exclude),
        ),
        overlap(set_items(final(profile).includes), set_items(final(profile).exclude)).len() == 0
            <==> r.1 is None,
        r.1 is Some ==> r.1.unwrap()@ == overlap_error(
            overlap(set_items(final(profile).includes), set_items(final(profile).exclude)),
        ),
{
    extend_set(&mut profile.includes, tests);
    extend_set(&mut profile.exclude, skips);
    let mut notes: Vec<String> = Vec::new();
    unknown_warnings(&profile.includes, &mut notes);
    unknown_warnings(&profile.exclude, &mut notes);
    let inc = &profile.includes;
    let exc = &profile.exclude;
    let n = set_len(inc);
    let ghost a = set_items(*inc);
    let ghost b = set_items(*exc);
    let mut quoted: Vec<String> = Vec::new();
    let mut i: usize = 0;
    while i < n
        invariant
            n == a.len(),
            a == set_items(*inc),
            b == set_items(*exc),
            i <= n,
            views_of(quoted@) == Seq::new(overlap(a.subrange(0, i as int), b).len(), |k: int| "'"@ + overlap(a.subrange(0, i as int), b)[k] + "'"@),
        decreases n - i,
    {
        let ghost u = a.subrange(0, i + 1);
        assert(u.drop_last() =~= a.subrange(0, i as int));
        let x = set_item(inc, i);
        assert(u.last() == x@);
        let ghost before = views_of(quoted@);
        if set_contains(exc, x.as_str()) {
            let mut q = to_owned_string("'");
            push_str(&mut q, x.as_str());
            push_str(&mut q, "'");
            quoted.push(q);
            assert(views_of(quoted@) =~= before.push(q@));
            assert(overlap(u, b) =~= overlap(a.subrange(0, i as int), b).push(x@));
        } else {
            assert(overlap(u, b) =~= overlap(a.subrange(0, i as int), b));
        }
        assert(views_of(quoted@) =~= Seq::new(overlap(u, b).len(), |k: int| "'"@ + overlap(u, b)[k] + "'"@));
        i = i + 1;
    }
    assert(a.subrange(0, n as int) =~= a);
    if quoted.len() == 0 {
        (notes, None)
    } else {
        let mut e = to_owned_string("Non-exclusive include/exclude test sets: {");
        let j = crate::formatters::text::join(&quoted, ", ");
        push_str(&mut e, j.as_str());
        push_str(&mut e, "}");
        (notes, Some(e))
    }
}

/// The fixed part of the help's epilog, before the list of tests.
pub open spec fn epilog_head() -> Seq<char> {
    "\nCUSTOM FORMATTING\n-----------------\n\nAvailable tags:\n\n    {abspath}, {relpath}, {line}, {col}, {test_id},\n    {severity}, {msg}, {confidence}, {range}\n\nExample usage:\n\n    Default template:\n    bandit -r examples/ --format custom --msg-template \\\n    \"{abspath}:{line}: {test_id}[bandit]: {severity}: {msg}\"\n\n    Provides same output as:\n    bandit -r examples/ --format custom\n\n    Tags can also be formatted in python string.format() style:\n    bandit -r examples/ --format custom --msg-template \\\n    \"{relpath:20.20s}: {line:03}: {test_id:^8}: DEFECT: {msg:>20}\"\n\n    See python documentation for more information about formatting style:\n    https://docs.python.org/3/library/string.html\n\nThe following tests were discovered and loaded:\n-----------------------------------------------\n\t"@
}

/// The `id<TAB>name` lines of the known tests.
pub open spec fn test_lines() -> Seq<Seq<char>> {
    crate::engine::registry::ids_and_names().map_values(|p: (Seq<char>, Seq<char>)| p.0 + seq!['\t'] + p.1)
}

/// The epilog of `bandit --help`: formatting help, then the known tests,
/// sorted, one per line.
pub fn epilog() -> (r: String)
    ensures
        exists|l: Seq<Seq<char>>| crate::text::strictly_sorted(l)
            && (forall|x: Seq<char>| l.contains(x) <==> test_lines().contains(x))
            && r@ == epilog_head() + seq_join(l, "\n\t"@),
{
    let pairs = crate::engine::registry::all_ids_and_names();
    let mut lines: Vec<String> = Vec::new();
    let mut i: usize = 0;
    while i < pairs.len()
        invariant
            i <= pairs@.len(),
            crate::engine::registry::pair_views(pairs@) == crate::engine::registry::ids_and_names(),
            views_of(lines@) =~= test_lines().subrange(0, i as int),
        decreases pairs@.len() - i,
    {
        let mut t = to_owned_string(pairs[i].0);
        crate::text::push_char(&mut t, '\t');
        push_str(&mut t, pairs[i].1);
        assert(crate::engine::registry::pair_views(pairs@)[i as int] == (pairs@[i as int].0@, pairs@[i as int].1@));
        assert(t@ =~= test_lines()[i as int]);
        let ghost before = views_of(lines@);
        lines.push(t);
        assert(views_of(lines@) =~= before.push(test_lines()[i as int]));
        assert(test_lines().subrange(0, i + 1) =~= test_lines().subrange(0, i as int).push(test_lines()[i as int]));
        i = i + 1;
    }
    assert(views_of(lines@) =~= test_lines());
    let sorted = crate::text::sort_dedup(lines);
    let mut out = to_owned_string("\nCUSTOM FORMATTING\n-----------------\n\nAvailable tags:\n\n    {abspath}, {relpath}, {line}, {col}, {test_id},\n    {severity}, {msg}, {confidence}, {range}\n\nExample usage:\n\n    Default template:\n    bandit -r examples/ --format custom --msg-template \\\n    \"{abspath}:{line}: {test_id}[bandit]: {severity}: {msg}\"\n\n    Provides same output as:\n    bandit -r examples/ --format custom\n\n    Tags can also be formatted in python string.format() style:\n    bandit -r examples/ --format custom --msg-template \\\n    \"{relpath:20.20s}: {line:03}: {test_id:^8}: DEFECT: {msg:>20}\"\n\n    See python documentation for more information about formatting style:\n    https://docs.python.org/3/library/string.html\n\nThe following tests were discovered and loaded:\n-----------------------------------------------\n\t");
    let j = crate::formatters::text::join(&sorted, "\n\t");
    push_str(&mut out, j.as_str());
    out
}

/// The ids of a set as logged: comma separated, or `None` when empty.
pub open spec fn ids_text(s: Seq<Seq<char>>) -> Seq<char> {
    if s.len() == 0 { "None"@ } else { seq_join(s, ","@) }
}

fn set_text(set: &IndexSet<String>) -> (r: String)
    ensures
        r@ == ids_text(set_items(*set)),
{
    let n = set_len(set);
    if n == 0 {
        return to_owned_string("None");
    }
    let mut v: Vec<String> = Vec::new();
    let mut i: usize = 0;
    while i < n
        invariant
            n == set_items(*set).len(),
            i <= n,
            views_of(v@) =~= set_items(*set).subrange(0, i as int),
        decreases n - i,
    {
        let x = set_item(set, i);
        let ghost before = views_of(v@);
        v.push(crate::text::copy_string(x));
        assert(views_of(v@) =~= before.push(x@));
        i = i + 1;
    }
    assert(views_of(v@) =~= set_items(*set));
    crate::formatters::text::join(&v, ",")
}

/// The info lines about the tests selected by the profile and by the
/// command line, logged before they are merged.
pub fn selection_notes(profile: &Profile, tests: Option<&str>, skips: Option<&str>) -> (r: Vec<String>)
    ensures
        views_of(r@) == seq![
            "profile include tests: "@ + ids_text(set_items(profile.includes)),
            "profile exclude tests: "@ + ids_text(set_items(profile.exclude)),
            "cli include tests: "@ + opt_str_view(tests).unwrap_or("None"@),
            "cli exclude tests: "@ + opt_str_view(skips).unwrap_or("None"@),
        ],
{
    let mut a = to_owned_string("profile include tests: ");
    push_str(&mut a, set_text(&profile.includes).as_str());
    let mut b = to_owned_string("profile exclude tests: ");
    push_str(&mut b, set_text(&profile.exclude).as_str());
    let mut c = to_owned_string("cli include tests: ");
    match tests {
        Some(t) => push_str(&mut c, t),
        None => push_str(&mut c, "None"),
    }
    let mut d = to_owned_string("cli exclude tests: ");
    match skips {
        Some(t) => push_str(&mut d, t),
        None => push_str(&mut d, "None"),
    }
    let r = vec![a, b, c, d];
    assert(views_of(r@) =~= seq![
        "profile include tests: "@ + ids_text(set_items(profile.includes)),
        "profile exclude tests: "@ + ids_text(set_items(profile.exclude)),
        "cli include tests: "@ + opt_str_view(tests).unwrap_or("None"@),
        "cli exclude tests: "@ + opt_str_view(skips).unwrap_or("None"@),
    ]);
    r
}

/// With a baseline, the warning when the report's format takes none.
pub fn baseline_format_error(format: &str) -> (r: Option<String>)
    ensures
        crate::formatters::baseline_formatters_spec().contains(format@) <==> r is None,
        r is Some ==> r.unwrap()@ == "Baseline must be used with one of the following formats: [\"json\", \"txt\", \"html\", \"screen\", \"custom\"]"@,
{
    let names = crate::formatters::baseline_formatters();
    let mut i: usize = 0;
    while i < names.len()
        invariant
            i <= names@.len(),
            names@.map_values(|s: &'static str| s@) == crate::formatters::baseline_formatters_spec(),
            forall|j: int| 0 <= j < i ==> crate::formatters::baseline_formatters_spec()[j] != format@,
        decreases names@.len() - i,
    {
        assert(names@.map_values(|s: &'static str| s@)[i as int] == names@[i as int]@);
        if str_eq(names[i], format) {
            return None;
        }
        i = i + 1;
    }
    Some(to_owned_string("Baseline must be used with one of the following formats: [\"json\", \"txt\", \"html\", \"screen\", \"custom\"]"))
}

/// The threshold of a `-l`/`-i` count `n` is `RANKING[n - 1]` with `n`
/// taken into `1..=4`: no flag or one gives UNDEFINED, four or more give
/// HIGH, and more flags never lower the threshold.
pub proof fn lemma_level_rank_is_clamped_index(n: u32, m: u32)
    ensures
        crate::constants::rank_index(level_rank(n)) == (if n < 1 { 0 } else if n > 4 { 3 } else { n - 1 }),
        crate::constants::rank_at(crate::constants::rank_index(level_rank(n)) as int) == Some(level_rank(n)),
        n <= m ==> crate::constants::rank_index(level_rank(n)) <= crate::constants::rank_index(level_rank(m)),
{
}

} // verus!
