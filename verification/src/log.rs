//! The logger: levels, record formatting and an optional buffer that
//! collects records (so that parallel scans can emit them in file order).
//!
//! The state that a process-wide logger keeps (threshold, format, output
//! stream, buffer) is held in a [`Logger`] value; writing the lines it
//! produces is left to the caller.

use vstd::prelude::*;
use crate::constants::LOG_FORMAT_STRING;
use crate::text::{copy_string, push_char, push_str, str_eq, to_owned_string};

verus! {

/// Log levels (Python's numeric levels divided by ten).
#[derive(Debug, Clone, Copy, PartialEq, Eq, Structural, PartialOrd, Ord)]
pub enum Level {
    Debug,
    Info,
    Warning,
    Error,
    Critical,
}

/// Numeric value of a level.
pub open spec fn level_value(l: Level) -> nat {
    match l {
        Level::Debug => 1,
        Level::Info => 2,
        Level::Warning => 3,
        Level::Error => 4,
        Level::Critical => 5,
    }
}

/// Name of a level.
pub open spec fn level_name(l: Level) -> Seq<char> {
    match l {
        Level::Debug => "DEBUG"@,
        Level::Info => "INFO"@,
        Level::Warning => "WARNING"@,
        Level::Error => "ERROR"@,
        Level::Critical => "CRITICAL"@,
    }
}

/// The level of a numeric value (values above 4 are `CRITICAL`).
pub open spec fn level_of(v: u8) -> Level {
    if v == 1 {
        Level::Debug
    } else if v == 2 {
        Level::Info
    } else if v == 3 {
        Level::Warning
    } else if v == 4 {
        Level::Error
    } else {
        Level::Critical
    }
}

impl Level {
    /// Name of the level, e.g. `"WARNING"`.
    pub fn name(self) -> (r: &'static str)
        ensures
            r@ == level_name(self),
    {
        match self {
            Level::Debug => "DEBUG",
            Level::Info => "INFO",
            Level::Warning => "WARNING",
            Level::Error => "ERROR",
            Level::Critical => "CRITICAL",
        }
    }

    /// The level of a numeric value.
    pub fn from_u8(v: u8) -> (r: Level)
        ensures
            r == level_of(v),
    {
        match v {
            1 => Level::Debug,
            2 => Level::Info,
            3 => Level::Warning,
            4 => Level::Error,
            _ => Level::Critical,
        }
    }

    /// Numeric value of the level.
    pub fn value(self) -> (r: u8)
        ensures
            r == level_value(self),
    {
        match self {
            Level::Debug => 1,
            Level::Info => 2,
            Level::Warning => 3,
            Level::Error => 4,
            Level::Critical => 5,
        }
    }
}

/// A buffered log record.
#[derive(Debug, Clone, PartialEq, Eq)]
pub struct Entry {
    pub module: String,
    pub level: Level,
    pub message: String,
}

/// Logger state.
#[derive(Debug)]
pub struct Logger {
    /// Threshold: records below it are dropped.
    pub threshold: Level,
    /// Format override (`log_format`); `None` is the default format.
    pub format: Option<String>,
    /// Whether lines go to stdout rather than stderr.
    pub use_stdout: bool,
    /// The active buffer, if any.
    pub buffer: Option<Vec<Entry>>,
}

/// Whether a record at `level` passes the threshold.
pub open spec fn is_enabled(threshold: Level, level: Level) -> bool {
    level_value(level) >= level_value(threshold)
}

/// `"[<module>]\t<LEVEL>\t<message>"`.
pub open spec fn default_line(module: Seq<char>, level: Level, message: Seq<char>) -> Seq<char> {
    "["@ + module + "]\t"@ + level_name(level) + "\t"@ + message
}

/// The value a `%(<field>)<width>s` placeholder stands for.
pub open spec fn field_value(field: Seq<char>, module: Seq<char>, level: Level, message: Seq<char>) -> Seq<char> {
    if field == "module"@ {
        module
    } else if field == "name"@ {
        if module == "main"@ { "root"@ } else { module }
    } else if field == "levelname"@ {
        level_name(level)
    } else if field == "message"@ {
        message
    } else {
        Seq::empty()
    }
}

/// The decimal value of a digit string, `None` when it is empty or does
/// not fit in `usize`.
pub open spec fn digits_value(d: Seq<char>) -> Option<nat>
    decreases d.len(),
{
    if d.len() == 0 {
        None
    } else if d.len() == 1 {
        if '0' <= d[0] <= '9' { Some((d[0] as nat - 48) as nat) } else { None }
    } else {
        match digits_value(d.drop_last()) {
            Some(v) => if '0' <= d.last() <= '9' && v * 10 + (d.last() as nat - 48) <= usize::MAX {
                Some((v * 10 + (d.last() as nat - 48)) as nat)
            } else {
                None
            },
            None => None,
        }
    }
}

/// `value` right-justified to `width` characters.
pub open spec fn right_justify(value: Seq<char>, width: Option<nat>) -> Seq<char> {
    match width {
        Some(w) => if w > value.len() {
            Seq::new((w - value.len()) as nat, |i: int| ' ') + value
        } else {
            value
        },
        None => value,
    }
}

/// The text a placeholder with field `field` and width digits `width` is
/// replaced by.
pub open spec fn placeholder_text(
    field: Seq<char>,
    width: Seq<char>,
    module: Seq<char>,
    level: Level,
    message: Seq<char>,
) -> Seq<char> {
    right_justify(field_value(field, module, level, message), digits_value(width))
}

/// The result of replacing every `%(<word>)<digits>s` placeholder of `fmt`
/// by its text (a regular-expression substitution).
pub uninterp spec fn placeholders_replaced(fmt: Seq<char>, module: Seq<char>, level: Level, message: Seq<char>) -> Seq<char>;

/// Whether `c` is an ASCII word character (`\w` on ASCII).
pub open spec fn is_ascii_word(c: char) -> bool {
    ('0' <= c <= '9') || ('a' <= c <= 'z') || ('A' <= c <= 'Z') || c == '_'
}

/// Whether every character of `s` is ASCII.
pub open spec fn all_ascii(s: Seq<char>) -> bool
    decreases s.len(),
{
    s.len() == 0 || ((s.last() as u32) < 128 && all_ascii(s.drop_last()))
}

/// The first position at or after `j` that holds no ASCII word character.
pub open spec fn word_end(s: Seq<char>, j: int) -> int
    decreases s.len() - j,
{
    if 0 <= j < s.len() && is_ascii_word(s[j]) { word_end(s, j + 1) } else { j }
}

/// The first position at or after `j` that holds no ASCII digit.
pub open spec fn digits_end(s: Seq<char>, j: int) -> int
    decreases s.len() - j,
{
    if 0 <= j < s.len() && '0' <= s[j] <= '9' { digits_end(s, j + 1) } else { j }
}

/// Where a placeholder `%(<word>)<digits>s` starting at `i` has its `)`
/// and its `s`, if one starts there.
pub open spec fn placeholder_at(s: Seq<char>, i: int) -> Option<(int, int)> {
    let k = word_end(s, i + 2);
    let m = digits_end(s, k + 1);
    if 0 <= i && i + 1 < s.len() && s[i] == '%' && s[i + 1] == '(' && k > i + 2 && k < s.len() && s[k] == ')'
        && m < s.len() && s[m] == 's' {
        Some((k, m))
    } else {
        None
    }
}

/// `fmt` from position `i` on with each placeholder, left to right and
/// not overlapping, replaced by its text.
pub open spec fn replaced_from(fmt: Seq<char>, i: int, module: Seq<char>, level: Level, message: Seq<char>) -> Seq<char>
    decreases fmt.len() - i,
{
    if i < 0 || i >= fmt.len() {
        Seq::empty()
    } else {
        match placeholder_at(fmt, i) {
            Some((k, m)) => if m + 1 > i {
                placeholder_text(fmt.subrange(i + 2, k), fmt.subrange(k + 1, m), module, level, message)
                    + replaced_from(fmt, m + 1, module, level, message)
            } else {
                Seq::empty()
            },
            None => seq![fmt[i]] + replaced_from(fmt, i + 1, module, level, message),
        }
    }
}

/// `Regex::replace_all` with the placeholder pattern
/// `%\((\w+)\)(\d*)s`, each match replaced by [`placeholder`]. The result
/// is named by [`placeholders_replaced`]; for a format of ASCII text (where
/// `\w` and `\d` are the ASCII word characters and digits) it is
/// [`replaced_from`]. Of other formats, where those classes take in
/// Unicode letters and digits, nothing more is claimed.
#[verifier::external_body]
fn substitute_log_format(fmt: &str, module: &str, level: Level, message: &str) -> (r: String)
    ensures
        r@ == placeholders_replaced(fmt@, module@, level, message@),
        all_ascii(fmt@) ==> r@ == replaced_from(fmt@, 0, module@, level, message@),
{
    let re = regex::Regex::new(r"%\((\w+)\)(\d*)s").unwrap();
    re.replace_all(fmt, |caps: &regex::Captures| placeholder(&caps[1], &caps[2], module, level, message))
        .into_owned()
}

fn parse_width(d: &str) -> (r: Option<usize>)
    ensures
        match digits_value(d@) {
            Some(v) => r == Some(v as usize),
            None => r is None,
        },
{
    let n = d.unicode_len();
    if n == 0 {
        return None;
    }
    let mut v: usize = 0;
    let mut i: usize = 0;
    while i < n
        invariant
            n == d@.len(),
            0 < n,
            i <= n,
            i == 0 ==> v == 0,
            i > 0 ==> digits_value(d@.subrange(0, i as int)) == Some(v as nat),
        decreases n - i,
    {
        let c = d.get_char(i);
        let ghost t = d@.subrange(0, i + 1);
        assert(t.drop_last() =~= d@.subrange(0, i as int));
        if c < '0' || c > '9' {
            proof {
                lemma_digits_none_after(d@, (i + 1) as nat);
            }
            return None;
        }
        let dv = (c as u32 - 48) as usize;
        if v > (usize::MAX - dv) / 10 {
            proof {
                assert(v * 10 + dv > usize::MAX) by (nonlinear_arith)
                    requires
                        v > (usize::MAX - dv) / 10,
                        dv <= 9,
                ;
                lemma_digits_none_after(d@, (i + 1) as nat);
            }
            return None;
        }
        proof {
            assert(v * 10 + dv <= usize::MAX) by (nonlinear_arith)
                requires
                    v <= (usize::MAX - dv) / 10,
                    dv <= 9,
            ;
        }
        v = v * 10 + dv;
        i = i + 1;
    }
    assert(d@.subrange(0, n as int) =~= d@);
    Some(v)
}

proof fn lemma_digits_none_after(d: Seq<char>, k: nat)
    requires
        0 < k <= d.len(),
        digits_value(d.subrange(0, k as int)) is None,
    ensures
        digits_value(d) is None,
    decreases d.len() - k,
{
    if k < d.len() {
        let t = d.subrange(0, (k + 1) as int);
        assert(t.drop_last() =~= d.subrange(0, k as int));
        lemma_digits_none_after(d, k + 1);
    } else {
        assert(d.subrange(0, k as int) =~= d);
    }
}

/// The text a placeholder stands for: the field's value, right-justified
/// to the width when one is given.
pub fn placeholder(field: &str, width: &str, module: &str, level: Level, message: &str) -> (r: String)
    ensures
        r@ == placeholder_text(field@, width@, module@, level, message@),
{
    let value: String = if str_eq(field, "module") {
        to_owned_string(module)
    } else if str_eq(field, "name") {
        if str_eq(module, "main") {
            to_owned_string("root")
        } else {
            to_owned_string(module)
        }
    } else if str_eq(field, "levelname") {
        to_owned_string(level.name())
    } else if str_eq(field, "message") {
        to_owned_string(message)
    } else {
        String::new()
    };
    match parse_width(width) {
        Some(w) => {
            let len = value.unicode_len();
            if w > len {
                let mut out = String::new();
                let mut k: usize = 0;
                while k < w - len
                    invariant
                        w > len,
                        k <= w - len,
                        out@ =~= Seq::new(k as nat, |i: int| ' '),
                    decreases w - len - k,
                {
                    push_char(&mut out, ' ');
                    k = k + 1;
                }
                push_str(&mut out, value.as_str());
                out
            } else {
                value
            }
        },
        None => value,
    }
}

/// The line a record is written as, with the default format or a
/// substituted override.
pub open spec fn line_of(format: Option<String>, module: Seq<char>, level: Level, message: Seq<char>) -> Seq<char> {
    match format {
        Some(f) => if f@ == LOG_FORMAT_STRING@ {
            default_line(module, level, message)
        } else {
            placeholders_replaced(f@, module, level, message)
        },
        None => default_line(module, level, message),
    }
}

impl Logger {
    /// A logger at the `WARNING` threshold, default format, stderr, no
    /// buffer.
    pub fn new() -> (r: Logger)
        ensures
            r.threshold == Level::Warning,
            r.format is None,
            !r.use_stdout,
            r.buffer is None,
    {
        Logger { threshold: Level::Warning, format: None, use_stdout: false, buffer: None }
    }

    /// Directs lines to stdout instead of stderr.
    pub fn set_stdout(&mut self, use_stdout: bool)
        ensures
            *final(self) == (Logger { use_stdout, ..*old(self) }),
    {
        self.use_stdout = use_stdout;
    }

    /// Sets the threshold.
    pub fn set_level(&mut self, level: Level)
        ensures
            *final(self) == (Logger { threshold: level, ..*old(self) }),
    {
        self.threshold = level;
    }

    /// The threshold.
    pub fn level(&self) -> (r: Level)
        ensures
            r == self.threshold,
    {
        self.threshold
    }

    /// Whether a record at `level` would be emitted.
    pub fn enabled(&self, level: Level) -> (r: bool)
        ensures
            r == is_enabled(self.threshold, level),
    {
        level.value() >= self.threshold.value()
    }

    /// Overrides the format (`log_format`).
    pub fn set_format(&mut self, format: &str)
        ensures
            final(self).format is Some,
            final(self).format.unwrap()@ == format@,
            final(self).threshold == old(self).threshold,
            final(self).use_stdout == old(self).use_stdout,
            final(self).buffer == old(self).buffer,
    {
        self.format = Some(to_owned_string(format));
    }

    /// The line a record is written as.
    pub fn format_entry(&self, module: &str, level: Level, message: &str) -> (r: String)
        ensures
            r@ == line_of(self.format, module@, level, message@),
    {
        let custom = match &self.format {
            Some(f) => !str_eq(f.as_str(), LOG_FORMAT_STRING),
            None => false,
        };
        if custom {
            match &self.format {
                Some(f) => substitute_log_format(f.as_str(), module, level, message),
                None => String::new(),
            }
        } else {
            let mut s = String::new();
            push_str(&mut s, "[");
            push_str(&mut s, module);
            push_str(&mut s, "]\t");
            push_str(&mut s, level.name());
            push_str(&mut s, "\t");
            push_str(&mut s, message);
            assert(s@ =~= default_line(module@, level, message@));
            s
        }
    }

    /// Emits a record: dropped below the threshold, stored while a buffer
    /// is active, else handed back as the line to write.
    pub fn log(&mut self, module: &str, level: Level, message: &str) -> (r: Option<String>)
        ensures
            final(self).threshold == old(self).threshold,
            final(self).format == old(self).format,
            final(self).use_stdout == old(self).use_stdout,
            !is_enabled(old(self).threshold, level) ==> r is None && final(self).buffer == old(self).buffer,
            is_enabled(old(self).threshold, level) ==> match old(self).buffer {
                Some(b) => r is None && final(self).buffer is Some && final(self).buffer.unwrap()@.len() == b@.len() + 1
                    && final(self).buffer.unwrap()@.drop_last() == b@
                    && final(self).buffer.unwrap()@.last().module@ == module@
                    && final(self).buffer.unwrap()@.last().level == level
                    && final(self).buffer.unwrap()@.last().message@ == message@,
                None => final(self).buffer is None && r is Some
                    && r.unwrap()@ == line_of(old(self).format, module@, level, message@),
            },
    {
        if !self.enabled(level) {
            return None;
        }
        match &mut self.buffer {
            Some(b) => {
                let ghost before = b@;
                b.push(Entry { module: to_owned_string(module), level, message: to_owned_string(message) });
                assert(b@.drop_last() =~= before);
                None
            },
            None => Some(self.format_entry(module, level, message)),
        }
    }

    /// Starts collecting records; returns the buffer that was active.
    pub fn begin_buffer(&mut self) -> (r: Option<Vec<Entry>>)
        ensures
            r == old(self).buffer,
            final(self).buffer is Some && final(self).buffer.unwrap()@.len() == 0,
            final(self).threshold == old(self).threshold,
            final(self).format == old(self).format,
            final(self).use_stdout == old(self).use_stdout,
    {
        let previous = self.buffer.take();
        self.buffer = Some(Vec::new());
        previous
    }

    /// Stops collecting records, restores `previous`, and returns what was
    /// collected.
    pub fn end_buffer(&mut self, previous: Option<Vec<Entry>>) -> (r: Vec<Entry>)
        ensures
            r@ == match old(self).buffer {
                Some(b) => b@,
                None => Seq::<Entry>::empty(),
            },
            final(self).buffer == previous,
            final(self).threshold == old(self).threshold,
            final(self).format == old(self).format,
            final(self).use_stdout == old(self).use_stdout,
    {
        let collected = match self.buffer.take() {
            Some(b) => b,
            None => Vec::new(),
        };
        self.buffer = previous;
        collected
    }

    /// The lines of buffered records that pass the threshold, in order.
    pub fn flush_entries(&self, entries: &Vec<Entry>) -> (r: Vec<String>)
        ensures
            r@.map_values(|x: String| x@) == flushed_lines(self.threshold, self.format, entries@),
    {
        let mut out: Vec<String> = Vec::new();
        let mut i: usize = 0;
        while i < entries.len()
            invariant
                i <= entries@.len(),
                out@.map_values(|x: String| x@) =~= flushed_lines(self.threshold, self.format, entries@.subrange(0, i as int)),
            decreases entries@.len() - i,
        {
            let e = &entries[i];
            let ghost t = entries@.subrange(0, i + 1);
            assert(t.drop_last() =~= entries@.subrange(0, i as int));
            assert(t.last() == *e);
            if self.enabled(e.level) {
                let line = self.format_entry(e.module.as_str(), e.level, e.message.as_str());
                let ghost before = out@;
                out.push(line);
                assert(out@.map_values(|x: String| x@) =~= before.map_values(|x: String| x@).push(line@));
            }
            i = i + 1;
        }
        assert(entries@.subrange(0, entries@.len() as int) =~= entries@);
        out
    }
}

/// The lines of the records of `s` that pass the threshold, in order.
pub open spec fn flushed_lines(threshold: Level, format: Option<String>, s: Seq<Entry>) -> Seq<Seq<char>>
    decreases s.len(),
{
    if s.len() == 0 {
        Seq::empty()
    } else {
        let e = s.last();
        flushed_lines(threshold, format, s.drop_last()) + (if is_enabled(threshold, e.level) {
            seq![line_of(format, e.module@, e.level, e.message@)]
        } else {
            Seq::empty()
        })
    }
}

/// Number of records of `s` that pass the threshold.
pub open spec fn enabled_count(threshold: Level, s: Seq<Entry>) -> nat
    decreases s.len(),
{
    if s.len() == 0 {
        0
    } else {
        enabled_count(threshold, s.drop_last()) + (if is_enabled(threshold, s.last().level) { 1nat } else { 0 })
    }
}

} // verus!
