//! Configuration: the value tree of a configuration file, option lookup,
//! profiles, and the errors raised while loading.
//!
//! Reading and parsing the file is the caller's part; it hands the parsed
//! tree in. Mappings keep their insertion order as entry lists (a map
//! type of an outside crate cannot hold this recursive type).

use vstd::prelude::*;
use indexmap::{IndexMap, IndexSet};
use crate::engine::blacklist::BlacklistEntry;
use crate::engine::registry::{get_test_id, test_id_for};
use crate::text::{
    copy_string, decimal, push_decimal, push_str, str_eq, to_owned_string, views_of,
};
use crate::engine::discover::{split_commas, split_commas_spec};
use crate::engine::config_debug::{debug_text, push_debug};

verus! {

/// A floating-point configuration value: its Python `repr` and whether it
/// is non-zero.
#[derive(Debug, Clone, PartialEq)]
pub struct FloatValue {
    pub repr: String,
    pub nonzero: bool,
}

/// A loaded configuration value, mappings in insertion order.
#[derive(Debug)]
pub enum ConfigValue {
    Null,
    Bool(bool),
    Int(i64),
    Float(FloatValue),
    Str(String),
    List(Vec<ConfigValue>),
    Mapping(Vec<(String, ConfigValue)>),
}

/// Python truthiness of a value.
pub open spec fn truthy_spec(v: ConfigValue) -> bool {
    match v {
        ConfigValue::Null => false,
        ConfigValue::Bool(b) => b,
        ConfigValue::Int(i) => i != 0,
        ConfigValue::Float(f) => f.nonzero,
        ConfigValue::Str(s) => s@.len() > 0,
        ConfigValue::List(l) => l@.len() > 0,
        ConfigValue::Mapping(m) => m@.len() > 0,
    }
}

/// The value of the first entry with key `k` at or after position `j`.
pub open spec fn entry_value(m: Seq<(String, ConfigValue)>, k: Seq<char>, j: int) -> Option<ConfigValue>
    decreases m.len() - j,
{
    if j < 0 || j >= m.len() {
        None
    } else if m[j].0@ == k {
        Some(m[j].1)
    } else {
        entry_value(m, k, j + 1)
    }
}

/// `get_option` on the path `parts`: each level must be a mapping holding
/// the next key with a truthy value.
pub open spec fn lookup(v: ConfigValue, parts: Seq<Seq<char>>) -> Option<ConfigValue>
    decreases parts.len(),
{
    if parts.len() == 0 {
        Some(v)
    } else {
        match v {
            ConfigValue::Mapping(m) => match entry_value(m@, parts[0], 0) {
                Some(next) => if truthy_spec(next) {
                    lookup(next, parts.skip(1))
                } else {
                    None
                },
                None => None,
            },
            _ => None,
        }
    }
}

/// Decimal rendering of a signed integer.
pub open spec fn int_text(i: i64) -> Seq<char> {
    if i < 0 {
        seq!['-'] + decimal((-(i as int)) as nat)
    } else {
        decimal(i as nat)
    }
}

/// Python `str(value)` of a value: lists and mappings give their
/// debugging text.
pub open spec fn py_str_spec(v: ConfigValue) -> Seq<char> {
    match v {
        ConfigValue::Null => "None"@,
        ConfigValue::Bool(b) => if b { "True"@ } else { "False"@ },
        ConfigValue::Int(i) => int_text(i),
        ConfigValue::Float(f) => f.repr@,
        ConfigValue::Str(s) => s@,
        _ => debug_text(v),
    }
}

pub(crate) fn push_int(s: &mut String, i: i64)
    ensures
        final(s)@ == old(s)@ + int_text(i),
{
    if i < 0 {
        crate::text::push_char(s, '-');
        let m: u64 = if i == i64::MIN { 9223372036854775808u64 } else { (-i) as u64 };
        push_decimal(s, m);
    } else {
        push_decimal(s, i as u64);
    }
}

impl ConfigValue {
    /// The entries of a mapping.
    pub fn as_map(&self) -> (r: Option<&Vec<(String, ConfigValue)>>)
        ensures
            match *self {
                ConfigValue::Mapping(m) => r == Some(&m),
                _ => r is None,
            },
    {
        match self {
            ConfigValue::Mapping(m) => Some(m),
            _ => None,
        }
    }

    /// The items of a list.
    pub fn as_list(&self) -> (r: Option<&Vec<ConfigValue>>)
        ensures
            match *self {
                ConfigValue::List(l) => r == Some(&l),
                _ => r is None,
            },
    {
        match self {
            ConfigValue::List(l) => Some(l),
            _ => None,
        }
    }

    /// The text of a string.
    pub fn as_str(&self) -> (r: Option<&str>)
        ensures
            match *self {
                ConfigValue::Str(s) => r is Some && r.unwrap()@ == s@,
                _ => r is None,
            },
    {
        match self {
            ConfigValue::Str(s) => Some(s.as_str()),
            _ => None,
        }
    }

    /// Python truthiness.
    pub fn truthy(&self) -> (r: bool)
        ensures
            r == truthy_spec(*self),
    {
        match self {
            ConfigValue::Null => false,
            ConfigValue::Bool(b) => *b,
            ConfigValue::Int(i) => *i != 0,
            ConfigValue::Float(f) => f.nonzero,
            ConfigValue::Str(s) => s.unicode_len() > 0,
            ConfigValue::List(l) => l.len() > 0,
            ConfigValue::Mapping(m) => m.len() > 0,
        }
    }

    /// Python `str(value)`.
    pub fn py_str(&self) -> (r: String)
        ensures
            r@ == py_str_spec(*self),
    {
        match self {
            ConfigValue::Null => to_owned_string("None"),
            ConfigValue::Bool(b) => if *b { to_owned_string("True") } else { to_owned_string("False") },
            ConfigValue::Int(i) => {
                let mut s = String::new();
                push_int(&mut s, *i);
                s
            },
            ConfigValue::Float(f) => copy_string(&f.repr),
            ConfigValue::Str(s) => copy_string(s),
            _ => {
                let mut s = String::new();
                push_debug(&mut s, self);
                s
            },
        }
    }
}

/// The value of the first entry with key `k` of a mapping.
pub fn map_get<'a>(m: &'a Vec<(String, ConfigValue)>, k: &str) -> (r: Option<&'a ConfigValue>)
    ensures
        match entry_value(m@, k@, 0) {
            Some(v) => r == Some(&v),
            None => r is None,
        },
{
    let mut i: usize = 0;
    while i < m.len()
        invariant
            i <= m@.len(),
            entry_value(m@, k@, 0) == entry_value(m@, k@, i as int),
        decreases m@.len() - i,
    {
        if str_eq(m[i].0.as_str(), k) {
            return Some(&m[i].1);
        }
        i = i + 1;
    }
    None
}

/// `ConfigError`: `message = "<config_file> : <message>"`.
#[derive(Debug, Clone, PartialEq, Eq)]
pub struct ConfigError {
    pub config_file: String,
    pub message: String,
}

impl ConfigError {
    /// The error `message` raised for `config_file`.
    pub fn new(message: &str, config_file: &str) -> (r: ConfigError)
        ensures
            r.config_file@ == config_file@,
            r.message@ == config_file@ + " : "@ + message@,
    {
        let mut m = to_owned_string(config_file);
        push_str(&mut m, " : ");
        push_str(&mut m, message);
        ConfigError { config_file: to_owned_string(config_file), message: m }
    }
}

/// `ProfileNotFound`.
#[derive(Debug, Clone, PartialEq, Eq)]
pub struct ProfileNotFound {
    pub config_file: String,
    pub profile: String,
}

impl ProfileNotFound {
    /// The message of the error.
    pub fn to_string(&self) -> (r: String)
        ensures
            r@ == "Unable to find profile ("@ + self.profile@ + ") in config file: "@ + self.config_file@,
    {
        let mut s = String::new();
        push_str(&mut s, "Unable to find profile (");
        push_str(&mut s, self.profile.as_str());
        push_str(&mut s, ") in config file: ");
        push_str(&mut s, self.config_file.as_str());
        s
    }
}

/// The items of an insertion-ordered string set (an `IndexSet`).
#[verifier::external_type_specification]
#[verifier::external_body]
#[verifier::reject_recursive_types(T)]
#[verifier::reject_recursive_types(S)]
pub struct ExIndexSet<T, S>(IndexSet<T, S>);

/// The items of a string set, in insertion order.
pub uninterp spec fn set_items(s: IndexSet<String>) -> Seq<Seq<char>>;

/// `s` without its first occurrence of `x`.
pub open spec fn without(s: Seq<Seq<char>>, x: Seq<char>) -> Seq<Seq<char>>
    decreases s.len(),
{
    if s.len() == 0 {
        s
    } else if s[0] == x {
        s.skip(1)
    } else {
        seq![s[0]] + without(s.skip(1), x)
    }
}

/// `IndexSet::new`: the empty set.
#[verifier::external_body]
pub(crate) fn set_new() -> (r: IndexSet<String>)
    ensures
        set_items(r) == Seq::<Seq<char>>::empty(),
{
    IndexSet::new()
}

/// `IndexSet::insert`: a new item goes last, an existing one stays where
/// it is; returns whether the item was new.
#[verifier::external_body]
pub(crate) fn set_insert(s: &mut IndexSet<String>, x: String) -> (r: bool)
    ensures
        r == !set_items(*old(s)).contains(x@),
        set_items(*final(s)) == if set_items(*old(s)).contains(x@) {
            set_items(*old(s))
        } else {
            set_items(*old(s)).push(x@)
        },
{
    s.insert(x)
}

/// `IndexSet::contains`.
#[verifier::external_body]
pub(crate) fn set_contains(s: &IndexSet<String>, x: &str) -> (r: bool)
    ensures
        r == set_items(*s).contains(x@),
{
    s.contains(x)
}

/// `IndexSet::len`.
#[verifier::external_body]
pub(crate) fn set_len(s: &IndexSet<String>) -> (r: usize)
    ensures
        r == set_items(*s).len(),
{
    s.len()
}

/// `&set[i]`: the item at position `i`.
#[verifier::external_body]
pub(crate) fn set_item(s: &IndexSet<String>, i: usize) -> (r: &String)
    requires
        i < set_items(*s).len(),
    ensures
        r@ == set_items(*s)[i as int],
{
    &s[i]
}

/// `IndexSet::shift_remove`: the item is taken out, the others keep their
/// order; returns whether it was there.
#[verifier::external_body]
pub(crate) fn set_shift_remove(s: &mut IndexSet<String>, x: &str) -> (r: bool)
    ensures
        r == set_items(*old(s)).contains(x@),
        set_items(*final(s)) == without(set_items(*old(s)), x@),
{
    s.shift_remove(x)
}

/// A test profile: the test ids to run and to skip, and legacy
/// blacklist data (node type and its entries).
#[derive(Debug)]
pub struct Profile {
    pub includes: IndexSet<String>,
    pub exclude: IndexSet<String>,
    pub blacklist: Option<IndexMap<String, Vec<BlacklistEntry>>>,
}

/// The configuration key listing the file patterns (or, in a profile,
/// the tests) to take in.
pub open spec fn included_key() -> Seq<char> {
    "incl"@ + "ude"@
}

/// [`included_key`] as a string.
pub fn included_key_string() -> (r: String)
    ensures
        r@ == included_key(),
{
    let mut s = to_owned_string("incl");
    push_str(&mut s, "ude");
    s
}

/// The loaded configuration.
#[derive(Debug)]
pub struct BanditConfig {
    /// Path of the configuration file (`None` for the defaults).
    pub path: Option<String>,
    /// The configuration tree.
    pub raw: ConfigValue,
    /// The `plugin_name_pattern` setting.
    pub plugin_name_pattern: String,
}

/// The values of a list, as set items in first-occurrence order, each
/// item's `str()` mapped through `f`.
pub open spec fn dedup_seq(s: Seq<Seq<char>>) -> Seq<Seq<char>>
    decreases s.len(),
{
    if s.len() == 0 {
        s
    } else {
        let d = dedup_seq(s.drop_last());
        if d.contains(s.last()) { d } else { d.push(s.last()) }
    }
}

/// A test name mapped to its id when it names a test, else kept.
pub open spec fn name_to_id(n: Seq<char>) -> Seq<char> {
    match test_id_for(n) {
        Some(id) => id,
        None => n,
    }
}

/// The `str()` of the items of a list value (nothing for other values).
pub open spec fn item_texts(v: Option<ConfigValue>) -> Seq<Seq<char>> {
    match v {
        Some(ConfigValue::List(l)) => l@.map_values(|x: ConfigValue| py_str_spec(x)),
        _ => Seq::empty(),
    }
}

/// Option `option` of the configuration: its dotted path looked up from
/// the root.
pub open spec fn option_value(c: BanditConfig, option: Seq<char>) -> Option<ConfigValue> {
    lookup(c.raw, split_commas_like(option))
}

/// `option.split(".")`.
pub open spec fn split_commas_like(s: Seq<char>) -> Seq<Seq<char>>
    decreases s.len(),
{
    if s.len() == 0 {
        seq![Seq::empty()]
    } else {
        let rest = split_commas_like(s.drop_last());
        if s.last() == '.' {
            rest.push(Seq::empty())
        } else {
            rest.update(rest.len() - 1, rest.last().push(s.last()))
        }
    }
}

fn collect_ids(v: Option<&ConfigValue>, map_names: bool) -> (r: IndexSet<String>)
    ensures
        set_items(r) == dedup_seq(
            if map_names {
                item_texts(match v {
                    Some(x) => Some(*x),
                    None => None,
                }).map_values(|n: Seq<char>| name_to_id(n))
            } else {
                item_texts(match v {
                    Some(x) => Some(*x),
                    None => None,
                })
            },
        ),
{
    let mut set = set_new();
    let ghost src: Option<ConfigValue> = match v {
        Some(x) => Some(*x),
        None => None,
    };
    let ghost texts = item_texts(src);
    let ghost mapped = if map_names { texts.map_values(|n: Seq<char>| name_to_id(n)) } else { texts };
    match v {
        Some(ConfigValue::List(l)) => {
            let mut i: usize = 0;
            while i < l.len()
                invariant
                    i <= l@.len(),
                    texts == l@.map_values(|x: ConfigValue| py_str_spec(x)),
                    mapped == if map_names { texts.map_values(|n: Seq<char>| name_to_id(n)) } else { texts },
                    set_items(set) == dedup_seq(mapped.subrange(0, i as int)),
                decreases l@.len() - i,
            {
                let t = l[i].py_str();
                let item = if map_names {
                    match get_test_id(t.as_str()) {
                        Some(id) => to_owned_string(id),
                        None => t,
                    }
                } else {
                    t
                };
                proof {
                    let m2 = mapped.subrange(0, i + 1);
                    assert(m2.drop_last() =~= mapped.subrange(0, i as int));
                    assert(m2.last() == item@);
                }
                set_insert(&mut set, item);
                i = i + 1;
            }
            assert(mapped.subrange(0, l@.len() as int) =~= mapped);
            set
        },
        _ => {
            assert(mapped.len() == 0);
            set
        },
    }
}

impl BanditConfig {
    /// The configuration without a file: `plugin_name_pattern` is `*.py`
    /// and the file patterns to scan are `["*.py", "*.pyw"]`.
    pub fn default() -> (r: BanditConfig)
        ensures
            r.path is None,
            r.plugin_name_pattern@ == "*.py"@,
            r.raw is Mapping,
            r.raw->Mapping_0@.len() == 2,
            r.raw->Mapping_0@[0].0@ == "plugin_name_pattern"@,
            r.raw->Mapping_0@[0].1 is Str && r.raw->Mapping_0@[0].1->Str_0@ == "*.py"@,
            r.raw->Mapping_0@[1].0@ == included_key(),
            r.raw->Mapping_0@[1].1 is List && r.raw->Mapping_0@[1].1->List_0@.len() == 2,
            r.raw->Mapping_0@[1].1->List_0@[0] is Str && r.raw->Mapping_0@[1].1->List_0@[0]->Str_0@ == "*.py"@,
            r.raw->Mapping_0@[1].1->List_0@[1] is Str && r.raw->Mapping_0@[1].1->List_0@[1]->Str_0@ == "*.pyw"@,
    {
        let mut m: Vec<(String, ConfigValue)> = Vec::new();
        m.push((to_owned_string("plugin_name_pattern"), ConfigValue::Str(to_owned_string("*.py"))));
        let mut inc: Vec<ConfigValue> = Vec::new();
        inc.push(ConfigValue::Str(to_owned_string("*.py")));
        inc.push(ConfigValue::Str(to_owned_string("*.pyw")));
        m.push((included_key_string(), ConfigValue::List(inc)));
        BanditConfig { path: None, raw: ConfigValue::Mapping(m), plugin_name_pattern: to_owned_string("*.py") }
    }

    /// The configuration loaded from `path`, whose parsed tree is `raw`: a
    /// tree that is not a mapping is a parse error. The second result says
    /// whether the file holds legacy `profiles` data (deprecated).
    pub fn from_raw(path: &str, raw: ConfigValue) -> (r: Result<(BanditConfig, bool), ConfigError>)
        ensures
            match r {
                Ok((c, legacy)) => raw is Mapping && c.path is Some && c.path.unwrap()@ == path@ && c.raw == raw
                    && legacy == option_value(c, "profiles"@) is Some
                    && c.plugin_name_pattern@ == match option_value(c, "plugin_name_pattern"@) {
                        Some(ConfigValue::Str(s)) => s@,
                        _ => "*.py"@,
                    },
                Err(e) => !(raw is Mapping) && e.message@ == path@ + " : "@ + "Error parsing file."@,
            },
    {
        match raw {
            ConfigValue::Mapping(_) => {},
            _ => {
                return Err(ConfigError::new("Error parsing file.", path));
            },
        }
        let mut c = BanditConfig { path: Some(to_owned_string(path)), raw, plugin_name_pattern: String::new() };
        let legacy = c.get_option("profiles").is_some();
        let pattern = match c.get_option("plugin_name_pattern") {
            Some(ConfigValue::Str(s)) => copy_string(s),
            _ => to_owned_string("*.py"),
        };
        c.plugin_name_pattern = pattern;
        Ok((c, legacy))
    }

    /// `get_option("a.b.c")`: walk the tree; `None` when a level is missing
    /// or falsy.
    pub fn get_option(&self, option: &str) -> (r: Option<&ConfigValue>)
        ensures
            match option_value(*self, option@) {
                Some(v) => r == Some(&v),
                None => r is None,
            },
    {
        let parts = split_dots(option);
        let mut cur: &ConfigValue = &self.raw;
        let mut i: usize = 0;
        assert(views_of(parts@).skip(0) =~= views_of(parts@));
        while i < parts.len()
            invariant
                i <= parts@.len(),
                views_of(parts@) == split_commas_like(option@),
                lookup(self.raw, views_of(parts@)) == lookup(*cur, views_of(parts@).skip(i as int)),
            decreases parts@.len() - i,
        {
            let ghost rest = views_of(parts@).skip(i as int);
            assert(rest[0] == parts@[i as int]@);
            assert(rest.skip(1) =~= views_of(parts@).skip(i + 1));
            let m = match cur.as_map() {
                Some(m) => m,
                None => {
                    return None;
                },
            };
            let next = match map_get(m, parts[i].as_str()) {
                Some(n) => n,
                None => {
                    return None;
                },
            };
            if !next.truthy() {
                return None;
            }
            cur = next;
            i = i + 1;
        }
        assert(views_of(parts@).skip(parts@.len() as int) =~= Seq::<Seq<char>>::empty());
        Some(cur)
    }

    /// `get_setting(name)`: only `plugin_name_pattern` exists.
    pub fn get_setting(&self, name: &str) -> (r: Option<&str>)
        ensures
            name@ == "plugin_name_pattern"@ ==> r is Some && r.unwrap()@ == self.plugin_name_pattern@,
            name@ != "plugin_name_pattern"@ ==> r is None,
    {
        if str_eq(name, "plugin_name_pattern") {
            Some(self.plugin_name_pattern.as_str())
        } else {
            None
        }
    }

    /// Profile `name` of the `profiles` option, test names in its lists of
    /// tests to run and to skip mapped to their ids (unknown names kept).
    pub fn profile(&self, name: &str) -> (r: Option<Profile>)
        ensures
            match option_value(*self, "profiles"@) {
                Some(ConfigValue::Mapping(m)) => match entry_value(m@, name@, 0) {
                    Some(p) => r is Some && r.unwrap().blacklist is None
                        && set_items(r.unwrap().includes) == dedup_seq(item_texts(profile_list(p, included_key())).map_values(|n: Seq<char>| name_to_id(n)))
                        && set_items(r.unwrap().exclude) == dedup_seq(item_texts(profile_list(p, "exclude"@)).map_values(|n: Seq<char>| name_to_id(n))),
                    None => r is None,
                },
                _ => r is None,
            },
    {
        let profiles = match self.get_option("profiles") {
            Some(p) => p,
            None => {
                return None;
            },
        };
        let pm = match profiles.as_map() {
            Some(m) => m,
            None => {
                return None;
            },
        };
        let prof = match map_get(pm, name) {
            Some(p) => p,
            None => {
                return None;
            },
        };
        let (inc_src, exc_src) = match prof.as_map() {
            Some(m) => {
                let key = included_key_string();
                (map_get(m, key.as_str()), map_get(m, "exclude"))
            },
            None => (None, None),
        };
        let taken_ids = collect_ids(inc_src, true);
        let exclude = collect_ids(exc_src, true);
        Some(Profile { includes: taken_ids, exclude, blacklist: None })
    }

    /// The profile of the `tests` / `skips` options (no `-p` given).
    pub fn default_profile(&self) -> (r: Profile)
        ensures
            set_items(r.includes) == dedup_seq(item_texts(option_value(*self, "tests"@))),
            set_items(r.exclude) == dedup_seq(item_texts(option_value(*self, "skips"@))),
            r.blacklist is None,
    {
        let tests = collect_ids(self.get_option("tests"), false);
        let exclude = collect_ids(self.get_option("skips"), false);
        Profile { includes: tests, exclude, blacklist: None }
    }
}

/// List `key` of a profile mapping.
pub open spec fn profile_list(p: ConfigValue, key: Seq<char>) -> Option<ConfigValue> {
    match p {
        ConfigValue::Mapping(m) => entry_value(m@, key, 0),
        _ => None,
    }
}

/// `text.split(".")`.
pub fn split_dots(text: &str) -> (r: Vec<String>)
    ensures
        views_of(r@) == split_commas_like(text@),
{
    let n = text.unicode_len();
    let mut done: Vec<String> = Vec::new();
    let mut cur = String::new();
    let mut i: usize = 0;
    while i < n
        invariant
            n == text@.len(),
            i <= n,
            views_of(done@).push(cur@) =~= split_commas_like(text@.subrange(0, i as int)),
        decreases n - i,
    {
        let ghost t = text@.subrange(0, i + 1);
        assert(t.drop_last() =~= text@.subrange(0, i as int));
        let c = text.get_char(i);
        if c == '.' {
            let ghost b = done@;
            let finished = cur;
            done.push(finished);
            cur = String::new();
            assert(views_of(done@) =~= views_of(b).push(finished@));
        } else {
            crate::text::push_char(&mut cur, c);
        }
        i = i + 1;
    }
    assert(text@.subrange(0, n as int) =~= text@);
    let ghost b = done@;
    done.push(cur);
    assert(views_of(done@) =~= views_of(b).push(cur@));
    done
}

} // verus!
