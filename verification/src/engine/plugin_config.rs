//! Typed per-plugin configuration sections, with the plugins' defaults.
//!
//! A section read from the configuration replaces the defaults. Inside a
//! section, a missing key is a `KeyError` and a `null` (or any non-list)
//! value a `TypeError` when used as a list, as in Python; the plugin then
//! reports nothing.

use vstd::prelude::*;
use crate::ast::literal::PyErr;
use crate::engine::config::{BanditConfig, ConfigValue, map_get, entry_value, option_value, py_str_spec, truthy_spec};
use crate::text::{str_eq, to_owned_string, views_of};

verus! {

/// A list option with its Python failure states.
#[derive(Debug, Clone, PartialEq)]
pub enum ListOpt {
    /// Key absent (`KeyError` on access).
    Missing,
    /// `null` or not a list (`TypeError` when iterated or searched).
    Null,
    /// The `str()` of the list's items.
    Items(Vec<String>),
}

impl ListOpt {
    /// `value in config[key]` with Python's errors.
    pub fn contains_str(&self, key: &str, value: &str) -> (r: Result<bool, PyErr>)
        ensures
            match *self {
                ListOpt::Missing => r is Err && r->Err_0.0@ == "KeyError: '"@ + key@ + "'"@,
                ListOpt::Null => r is Err && r->Err_0.0@ == "TypeError: "@
                    + "argument of type 'NoneType' is not iterable"@,
                ListOpt::Items(items) => r == Ok::<bool, PyErr>(views_of(items@).contains(value@)),
            },
    {
        match self {
            ListOpt::Missing => Err(PyErr::key_error(key)),
            ListOpt::Null => Err(PyErr::type_error("argument of type 'NoneType' is not iterable")),
            ListOpt::Items(items) => Ok(crate::text::contains_string(items, value)),
        }
    }

    /// The items, with Python's errors.
    pub fn items(&self, key: &str) -> (r: Result<&Vec<String>, PyErr>)
        ensures
            match *self {
                ListOpt::Missing => r is Err && r->Err_0.0@ == "KeyError: '"@ + key@ + "'"@,
                ListOpt::Null => r is Err && r->Err_0.0@ == "TypeError: "@ + "'NoneType' object is not iterable"@,
                ListOpt::Items(items) => r is Ok && *r->Ok_0 == items,
            },
    {
        match self {
            ListOpt::Missing => Err(PyErr::key_error(key)),
            ListOpt::Null => Err(PyErr::type_error("'NoneType' object is not iterable")),
            ListOpt::Items(items) => Ok(items),
        }
    }

    /// A list of the given strings.
    pub fn of(items: &[&str]) -> (r: ListOpt)
        ensures
            r is Items && views_of(r->Items_0@) == items@.map_values(|s: &str| s@),
    {
        let mut v: Vec<String> = Vec::new();
        let mut i: usize = 0;
        while i < items.len()
            invariant
                i <= items@.len(),
                views_of(v@) =~= items@.map_values(|s: &str| s@).subrange(0, i as int),
            decreases items@.len() - i,
        {
            let s = to_owned_string(items[i]);
            let ghost b = v@;
            v.push(s);
            assert(views_of(v@) =~= views_of(b).push(s@));
            i = i + 1;
        }
        ListOpt::Items(v)
    }
}

/// `shell_injection` (B602–B607, B609); `present` is whether the section
/// is truthy.
#[derive(Debug, Clone, PartialEq)]
pub struct ShellInjectionConfig {
    pub present: bool,
    pub subprocess: ListOpt,
    pub shell: ListOpt,
    pub no_shell: ListOpt,
}

/// `assert_used` (B101).
#[derive(Debug, Clone, PartialEq)]
pub struct AssertUsedConfig {
    pub skips: ListOpt,
}

/// `hardcoded_tmp_directory` (B108).
#[derive(Debug, Clone, PartialEq)]
pub struct TmpDirConfig {
    pub tmp_dirs: ListOpt,
}

/// `try_except_pass` / `try_except_continue` (B110/B112).
#[derive(Debug, PartialEq)]
pub struct TryExceptConfig {
    pub check_typed_exception: Result<bool, PyErr>,
}

/// `ssl_with_bad_version` (B502/B503).
#[derive(Debug, Clone, PartialEq)]
pub struct SslConfig {
    pub bad_protocol_versions: ListOpt,
}

/// `weak_cryptographic_key` (B505).
#[derive(Debug, PartialEq)]
pub struct WeakKeyConfig {
    pub weak_key_size_dsa_high: Result<i64, PyErr>,
    pub weak_key_size_dsa_medium: Result<i64, PyErr>,
    pub weak_key_size_rsa_high: Result<i64, PyErr>,
    pub weak_key_size_rsa_medium: Result<i64, PyErr>,
    pub weak_key_size_ec_high: Result<i64, PyErr>,
    pub weak_key_size_ec_medium: Result<i64, PyErr>,
}

/// `markupsafe_xss` (B704); missing keys behave like `[]`.
#[derive(Debug, Clone, PartialEq)]
pub struct MarkupSafeConfig {
    pub extend_markup_names: ListOpt,
    pub allowed_calls: ListOpt,
}

/// All plugin configurations.
#[derive(Debug, PartialEq)]
pub struct PluginConfigs {
    pub shell_injection: ShellInjectionConfig,
    pub assert_used: AssertUsedConfig,
    pub hardcoded_tmp_directory: TmpDirConfig,
    pub try_except_pass: TryExceptConfig,
    pub try_except_continue: TryExceptConfig,
    pub ssl_with_bad_version: SslConfig,
    pub weak_cryptographic_key: WeakKeyConfig,
    pub markupsafe_xss: MarkupSafeConfig,
}

/// The list option stored under `key` in a section's entries.
pub open spec fn list_opt_of(v: Option<ConfigValue>) -> Option<Seq<Seq<char>>> {
    match v {
        Some(ConfigValue::List(l)) => Some(l@.map_values(|x: ConfigValue| py_str_spec(x))),
        _ => None,
    }
}

/// What a list option read from a section says: `None` for `Missing`,
/// `Some(None)` for `Null`, `Some(Some(items))` for the items.
pub open spec fn list_opt_view(o: ListOpt) -> Option<Option<Seq<Seq<char>>>> {
    match o {
        ListOpt::Missing => None,
        ListOpt::Null => Some(None),
        ListOpt::Items(items) => Some(Some(views_of(items@))),
    }
}

/// The list option a section holds under `key`.
pub open spec fn section_list(section: ConfigValue, key: Seq<char>) -> Option<Option<Seq<Seq<char>>>> {
    match section {
        ConfigValue::Mapping(m) => match entry_value(m@, key, 0) {
            Some(v) => Some(list_opt_of(Some(v))),
            None => None,
        },
        _ => Some(None),
    }
}

fn read_list(section: &ConfigValue, key: &str) -> (r: ListOpt)
    ensures
        list_opt_view(r) == section_list(*section, key@),
{
    match section {
        ConfigValue::Mapping(m) => match map_get(m, key) {
            Some(ConfigValue::List(l)) => {
                let mut v: Vec<String> = Vec::new();
                let mut i: usize = 0;
                while i < l.len()
                    invariant
                        i <= l@.len(),
                        views_of(v@) =~= l@.map_values(|x: ConfigValue| py_str_spec(x)).subrange(0, i as int),
                    decreases l@.len() - i,
                {
                    let s = l[i].py_str();
                    let ghost b = v@;
                    v.push(s);
                    assert(views_of(v@) =~= views_of(b).push(s@));
                    i = i + 1;
                }
                ListOpt::Items(v)
            },
            Some(_) => ListOpt::Null,
            None => ListOpt::Missing,
        },
        _ => ListOpt::Null,
    }
}

/// The flag a section holds under `key`: its truthiness, `KeyError` when
/// absent, `TypeError` when the section is not a mapping.
pub open spec fn section_flag(section: ConfigValue, key: Seq<char>) -> Result<bool, Seq<char>> {
    match section {
        ConfigValue::Mapping(m) => match entry_value(m@, key, 0) {
            Some(v) => Ok(truthy_spec(v)),
            None => Err("KeyError: '"@ + key + "'"@),
        },
        _ => Err("TypeError: "@ + "string indices must be integers"@),
    }
}

fn read_flag(section: &ConfigValue, key: &str) -> (r: Result<bool, PyErr>)
    ensures
        match section_flag(*section, key@) {
            Ok(b) => r == Ok::<bool, PyErr>(b),
            Err(m) => r is Err && r->Err_0.0@ == m,
        },
{
    match section {
        ConfigValue::Mapping(m) => match map_get(m, key) {
            Some(v) => Ok(v.truthy()),
            None => Err(PyErr::key_error(key)),
        },
        _ => Err(PyErr::type_error("string indices must be integers")),
    }
}

/// The integer a section holds under `key`: `KeyError` when absent,
/// `TypeError` when it is not an integer or the section not a mapping.
pub open spec fn section_int(section: ConfigValue, key: Seq<char>) -> Result<i64, Seq<char>> {
    match section {
        ConfigValue::Mapping(m) => match entry_value(m@, key, 0) {
            Some(ConfigValue::Int(i)) => Ok(i),
            Some(_) => Err("TypeError: "@ + "'<' not supported between instances"@),
            None => Err("KeyError: '"@ + key + "'"@),
        },
        _ => Err("TypeError: "@ + "string indices must be integers"@),
    }
}

fn read_int(section: &ConfigValue, key: &str) -> (r: Result<i64, PyErr>)
    ensures
        match section_int(*section, key@) {
            Ok(i) => r == Ok::<i64, PyErr>(i),
            Err(m) => r is Err && r->Err_0.0@ == m,
        },
{
    match section {
        ConfigValue::Mapping(m) => match map_get(m, key) {
            Some(ConfigValue::Int(i)) => Ok(*i),
            Some(_) => Err(PyErr::type_error("'<' not supported between instances")),
            None => Err(PyErr::key_error(key)),
        },
        _ => Err(PyErr::type_error("string indices must be integers")),
    }
}

/// A list option that behaves like `[]` when the key is missing.
fn read_list_or_empty(section: &ConfigValue, key: &str) -> (r: ListOpt)
    ensures
        list_opt_view(r) == match section_list(*section, key@) {
            None => Some(Some(Seq::<Seq<char>>::empty())),
            Some(x) => Some(x),
        },
{
    match read_list(section, key) {
        ListOpt::Missing => {
            let v: Vec<String> = Vec::new();
            assert(views_of(v@) =~= Seq::<Seq<char>>::empty());
            ListOpt::Items(v)
        },
        other => other,
    }
}

/// The calls that `shell_injection` treats as subprocess calls by default.
pub open spec fn default_subprocess() -> Seq<Seq<char>> {
    seq![
        "subprocess.Popen"@,
        "subprocess.call"@,
        "subprocess.check_call"@,
        "subprocess.check_output"@,
        "subprocess.run"@,
    ]
}

/// The calls that `shell_injection` treats as starting a shell by default.
pub open spec fn default_shell() -> Seq<Seq<char>> {
    seq![
        "os.system"@,
        "os.popen"@,
        "os.popen2"@,
        "os.popen3"@,
        "os.popen4"@,
        "popen2.popen2"@,
        "popen2.popen3"@,
        "popen2.popen4"@,
        "popen2.Popen3"@,
        "popen2.Popen4"@,
        "commands.getoutput"@,
        "commands.getstatusoutput"@,
        "subprocess.getoutput"@,
        "subprocess.getstatusoutput"@,
    ]
}

/// The calls that `shell_injection` treats as starting no shell by default.
pub open spec fn default_no_shell() -> Seq<Seq<char>> {
    seq![
        "os.execl"@,
        "os.execle"@,
        "os.execlp"@,
        "os.execlpe"@,
        "os.execv"@,
        "os.execve"@,
        "os.execvp"@,
        "os.execvpe"@,
        "os.spawnl"@,
        "os.spawnle"@,
        "os.spawnlp"@,
        "os.spawnlpe"@,
        "os.spawnv"@,
        "os.spawnve"@,
        "os.spawnvp"@,
        "os.spawnvpe"@,
        "os.startfile"@,
    ]
}

/// The protocol versions that `ssl_with_bad_version` reports by default.
pub open spec fn default_bad_protocol_versions() -> Seq<Seq<char>> {
    seq![
        "PROTOCOL_SSLv2"@,
        "SSLv2_METHOD"@,
        "SSLv23_METHOD"@,
        "PROTOCOL_SSLv3"@,
        "PROTOCOL_TLSv1"@,
        "SSLv3_METHOD"@,
        "TLSv1_METHOD"@,
        "PROTOCOL_TLSv1_1"@,
        "TLSv1_1_METHOD"@,
    ]
}

impl ShellInjectionConfig {
    /// The plugin's defaults.
    pub fn default() -> (r: ShellInjectionConfig)
        ensures
            r.present,
            list_opt_view(r.subprocess) == Some(Some(default_subprocess())),
            list_opt_view(r.shell) == Some(Some(default_shell())),
            list_opt_view(r.no_shell) == Some(Some(default_no_shell())),
    {
        ShellInjectionConfig {
            present: true,
            subprocess: ListOpt::of(
                &["subprocess.Popen", "subprocess.call", "subprocess.check_call", "subprocess.check_output", "subprocess.run"],
            ),
            shell: ListOpt::of(
                &[
                    "os.system",
                    "os.popen",
                    "os.popen2",
                    "os.popen3",
                    "os.popen4",
                    "popen2.popen2",
                    "popen2.popen3",
                    "popen2.popen4",
                    "popen2.Popen3",
                    "popen2.Popen4",
                    "commands.getoutput",
                    "commands.getstatusoutput",
                    "subprocess.getoutput",
                    "subprocess.getstatusoutput",
                ],
            ),
            no_shell: ListOpt::of(
                &[
                    "os.execl",
                    "os.execle",
                    "os.execlp",
                    "os.execlpe",
                    "os.execv",
                    "os.execve",
                    "os.execvp",
                    "os.execvpe",
                    "os.spawnl",
                    "os.spawnle",
                    "os.spawnlp",
                    "os.spawnlpe",
                    "os.spawnv",
                    "os.spawnve",
                    "os.spawnvp",
                    "os.spawnvpe",
                    "os.startfile",
                ],
            ),
        }
    }
}

impl AssertUsedConfig {
    /// `{"skips": []}`.
    pub fn default() -> (r: AssertUsedConfig)
        ensures
            list_opt_view(r.skips) == Some(Some(Seq::<Seq<char>>::empty())),
    {
        AssertUsedConfig { skips: ListOpt::Items(Vec::new()) }
    }
}

/// The directories that `hardcoded_tmp_directory` looks for by default.
pub open spec fn default_tmp_dirs() -> Seq<Seq<char>> {
    seq!["/tmp"@, "/var/tmp"@, "/dev/shm"@]
}

impl TmpDirConfig {
    /// `{"tmp_dirs": ["/tmp", "/var/tmp", "/dev/shm"]}`.
    pub fn default() -> (r: TmpDirConfig)
        ensures
            list_opt_view(r.tmp_dirs) == Some(Some(default_tmp_dirs())),
    {
        TmpDirConfig { tmp_dirs: ListOpt::of(&["/tmp", "/var/tmp", "/dev/shm"]) }
    }
}

impl TryExceptConfig {
    /// `{"check_typed_exception": False}`.
    pub fn default() -> (r: TryExceptConfig)
        ensures
            r.check_typed_exception == Ok::<bool, PyErr>(false),
    {
        TryExceptConfig { check_typed_exception: Ok(false) }
    }
}

impl SslConfig {
    /// The insecure protocol versions.
    pub fn default() -> (r: SslConfig)
        ensures
            list_opt_view(r.bad_protocol_versions) == Some(Some(default_bad_protocol_versions())),
    {
        SslConfig {
            bad_protocol_versions: ListOpt::of(
                &[
                    "PROTOCOL_SSLv2",
                    "SSLv2_METHOD",
                    "SSLv23_METHOD",
                    "PROTOCOL_SSLv3",
                    "PROTOCOL_TLSv1",
                    "SSLv3_METHOD",
                    "TLSv1_METHOD",
                    "PROTOCOL_TLSv1_1",
                    "TLSv1_1_METHOD",
                ],
            ),
        }
    }
}

impl WeakKeyConfig {
    /// The weak key size thresholds.
    pub open spec fn default_spec() -> WeakKeyConfig {
        WeakKeyConfig {
            weak_key_size_dsa_high: Ok(1024),
            weak_key_size_dsa_medium: Ok(2048),
            weak_key_size_rsa_high: Ok(1024),
            weak_key_size_rsa_medium: Ok(2048),
            weak_key_size_ec_high: Ok(160),
            weak_key_size_ec_medium: Ok(224),
        }
    }

    /// The weak key size thresholds.
    pub fn default() -> (r: WeakKeyConfig)
        ensures
            r == WeakKeyConfig::default_spec(),
            r.weak_key_size_dsa_high == Ok::<i64, PyErr>(1024),
            r.weak_key_size_dsa_medium == Ok::<i64, PyErr>(2048),
            r.weak_key_size_rsa_high == Ok::<i64, PyErr>(1024),
            r.weak_key_size_rsa_medium == Ok::<i64, PyErr>(2048),
            r.weak_key_size_ec_high == Ok::<i64, PyErr>(160),
            r.weak_key_size_ec_medium == Ok::<i64, PyErr>(224),
    {
        WeakKeyConfig {
            weak_key_size_dsa_high: Ok(1024),
            weak_key_size_dsa_medium: Ok(2048),
            weak_key_size_rsa_high: Ok(1024),
            weak_key_size_rsa_medium: Ok(2048),
            weak_key_size_ec_high: Ok(160),
            weak_key_size_ec_medium: Ok(224),
        }
    }
}

impl MarkupSafeConfig {
    /// `{"extend_markup_names": [], "allowed_calls": []}`.
    pub fn default() -> (r: MarkupSafeConfig)
        ensures
            list_opt_view(r.extend_markup_names) == Some(Some(Seq::<Seq<char>>::empty())),
            list_opt_view(r.allowed_calls) == Some(Some(Seq::<Seq<char>>::empty())),
    {
        MarkupSafeConfig { extend_markup_names: ListOpt::Items(Vec::new()), allowed_calls: ListOpt::Items(Vec::new()) }
    }
}

/// A flag read from a section, with the error's text.
pub open spec fn flag_view(r: Result<bool, PyErr>) -> Result<bool, Seq<char>> {
    match r {
        Ok(b) => Ok(b),
        Err(e) => Err(e.0@),
    }
}

/// An integer read from a section, with the error's text.
pub open spec fn int_view(r: Result<i64, PyErr>) -> Result<i64, Seq<char>> {
    match r {
        Ok(i) => Ok(i),
        Err(e) => Err(e.0@),
    }
}

impl PluginConfigs {
    /// Every plugin's defaults.
    pub fn default() -> (r: PluginConfigs)
        ensures
            r.shell_injection.present,
            list_opt_view(r.shell_injection.subprocess) == Some(Some(default_subprocess())),
            list_opt_view(r.shell_injection.shell) == Some(Some(default_shell())),
            list_opt_view(r.shell_injection.no_shell) == Some(Some(default_no_shell())),
            list_opt_view(r.assert_used.skips) == Some(Some(Seq::<Seq<char>>::empty())),
            list_opt_view(r.hardcoded_tmp_directory.tmp_dirs) == Some(Some(default_tmp_dirs())),
            r.try_except_pass.check_typed_exception == Ok::<bool, PyErr>(false),
            r.try_except_continue.check_typed_exception == Ok::<bool, PyErr>(false),
            list_opt_view(r.ssl_with_bad_version.bad_protocol_versions) == Some(Some(default_bad_protocol_versions())),
            r.weak_cryptographic_key == WeakKeyConfig::default_spec(),
            list_opt_view(r.markupsafe_xss.extend_markup_names) == Some(Some(Seq::<Seq<char>>::empty())),
            list_opt_view(r.markupsafe_xss.allowed_calls) == Some(Some(Seq::<Seq<char>>::empty())),
    {
        PluginConfigs {
            shell_injection: ShellInjectionConfig::default(),
            assert_used: AssertUsedConfig::default(),
            hardcoded_tmp_directory: TmpDirConfig::default(),
            try_except_pass: TryExceptConfig::default(),
            try_except_continue: TryExceptConfig::default(),
            ssl_with_bad_version: SslConfig::default(),
            weak_cryptographic_key: WeakKeyConfig::default(),
            markupsafe_xss: MarkupSafeConfig::default(),
        }
    }

    /// The plugin configuration of a run: each section found (truthy) in
    /// the configuration replaces the plugin's defaults.
    pub fn from_config(config: &BanditConfig) -> (r: PluginConfigs)
        ensures
            r.shell_injection.present,
            list_opt_view(r.shell_injection.subprocess) == match option_value(*config, "shell_injection"@) {
                Some(s) => section_list(s, "subprocess"@),
                None => Some(Some(default_subprocess())),
            },
            list_opt_view(r.shell_injection.shell) == match option_value(*config, "shell_injection"@) {
                Some(s) => section_list(s, "shell"@),
                None => Some(Some(default_shell())),
            },
            list_opt_view(r.shell_injection.no_shell) == match option_value(*config, "shell_injection"@) {
                Some(s) => section_list(s, "no_shell"@),
                None => Some(Some(default_no_shell())),
            },
            list_opt_view(r.assert_used.skips) == match option_value(*config, "assert_used"@) {
                Some(s) => section_list(s, "skips"@),
                None => Some(Some(Seq::<Seq<char>>::empty())),
            },
            list_opt_view(r.hardcoded_tmp_directory.tmp_dirs) == match option_value(*config, "hardcoded_tmp_directory"@) {
                Some(s) => section_list(s, "tmp_dirs"@),
                None => Some(Some(default_tmp_dirs())),
            },
            flag_view(r.try_except_pass.check_typed_exception) == match option_value(*config, "try_except_pass"@) {
                Some(s) => section_flag(s, "check_typed_exception"@),
                None => Ok::<bool, Seq<char>>(false),
            },
            flag_view(r.try_except_continue.check_typed_exception) == match option_value(*config, "try_except_continue"@) {
                Some(s) => section_flag(s, "check_typed_exception"@),
                None => Ok::<bool, Seq<char>>(false),
            },
            list_opt_view(r.ssl_with_bad_version.bad_protocol_versions) == match option_value(*config, "ssl_with_bad_version"@) {
                Some(s) => section_list(s, "bad_protocol_versions"@),
                None => Some(Some(default_bad_protocol_versions())),
            },
            int_view(r.weak_cryptographic_key.weak_key_size_dsa_high) == match option_value(*config, "weak_cryptographic_key"@) {
                Some(s) => section_int(s, "weak_key_size_dsa_high"@),
                None => Ok::<i64, Seq<char>>(1024),
            },
            int_view(r.weak_cryptographic_key.weak_key_size_dsa_medium) == match option_value(*config, "weak_cryptographic_key"@) {
                Some(s) => section_int(s, "weak_key_size_dsa_medium"@),
                None => Ok::<i64, Seq<char>>(2048),
            },
            int_view(r.weak_cryptographic_key.weak_key_size_rsa_high) == match option_value(*config, "weak_cryptographic_key"@) {
                Some(s) => section_int(s, "weak_key_size_rsa_high"@),
                None => Ok::<i64, Seq<char>>(1024),
            },
            int_view(r.weak_cryptographic_key.weak_key_size_rsa_medium) == match option_value(*config, "weak_cryptographic_key"@) {
                Some(s) => section_int(s, "weak_key_size_rsa_medium"@),
                None => Ok::<i64, Seq<char>>(2048),
            },
            int_view(r.weak_cryptographic_key.weak_key_size_ec_high) == match option_value(*config, "weak_cryptographic_key"@) {
                Some(s) => section_int(s, "weak_key_size_ec_high"@),
                None => Ok::<i64, Seq<char>>(160),
            },
            int_view(r.weak_cryptographic_key.weak_key_size_ec_medium) == match option_value(*config, "weak_cryptographic_key"@) {
                Some(s) => section_int(s, "weak_key_size_ec_medium"@),
                None => Ok::<i64, Seq<char>>(224),
            },
            list_opt_view(r.markupsafe_xss.extend_markup_names) == match option_value(*config, "markupsafe_xss"@) {
                Some(s) => match section_list(s, "extend_markup_names"@) {
                    None => Some(Some(Seq::<Seq<char>>::empty())),
                    Some(x) => Some(x),
                },
                None => Some(Some(Seq::<Seq<char>>::empty())),
            },
            list_opt_view(r.markupsafe_xss.allowed_calls) == match option_value(*config, "markupsafe_xss"@) {
                Some(s) => match section_list(s, "allowed_calls"@) {
                    None => Some(Some(Seq::<Seq<char>>::empty())),
                    Some(x) => Some(x),
                },
                None => Some(Some(Seq::<Seq<char>>::empty())),
            },
    {
        let shell_injection = match config.get_option("shell_injection") {
            Some(s) => ShellInjectionConfig {
                present: true,
                subprocess: read_list(s, "subprocess"),
                shell: read_list(s, "shell"),
                no_shell: read_list(s, "no_shell"),
            },
            None => ShellInjectionConfig::default(),
        };
        let assert_used = match config.get_option("assert_used") {
            Some(s) => AssertUsedConfig { skips: read_list(s, "skips") },
            None => AssertUsedConfig::default(),
        };
        let hardcoded_tmp_directory = match config.get_option("hardcoded_tmp_directory") {
            Some(s) => TmpDirConfig { tmp_dirs: read_list(s, "tmp_dirs") },
            None => TmpDirConfig::default(),
        };
        let try_except_pass = match config.get_option("try_except_pass") {
            Some(s) => TryExceptConfig { check_typed_exception: read_flag(s, "check_typed_exception") },
            None => TryExceptConfig::default(),
        };
        let try_except_continue = match config.get_option("try_except_continue") {
            Some(s) => TryExceptConfig { check_typed_exception: read_flag(s, "check_typed_exception") },
            None => TryExceptConfig::default(),
        };
        let ssl_with_bad_version = match config.get_option("ssl_with_bad_version") {
            Some(s) => SslConfig { bad_protocol_versions: read_list(s, "bad_protocol_versions") },
            None => SslConfig::default(),
        };
        let weak_cryptographic_key = match config.get_option("weak_cryptographic_key") {
            Some(s) => WeakKeyConfig {
                weak_key_size_dsa_high: read_int(s, "weak_key_size_dsa_high"),
                weak_key_size_dsa_medium: read_int(s, "weak_key_size_dsa_medium"),
                weak_key_size_rsa_high: read_int(s, "weak_key_size_rsa_high"),
                weak_key_size_rsa_medium: read_int(s, "weak_key_size_rsa_medium"),
                weak_key_size_ec_high: read_int(s, "weak_key_size_ec_high"),
                weak_key_size_ec_medium: read_int(s, "weak_key_size_ec_medium"),
            },
            None => WeakKeyConfig::default(),
        };
        let markupsafe_xss = match config.get_option("markupsafe_xss") {
            Some(s) => MarkupSafeConfig {
                extend_markup_names: read_list_or_empty(s, "extend_markup_names"),
                allowed_calls: read_list_or_empty(s, "allowed_calls"),
            },
            None => MarkupSafeConfig::default(),
        };
        PluginConfigs {
            shell_injection,
            assert_used,
            hardcoded_tmp_directory,
            try_except_pass,
            try_except_continue,
            ssl_with_bad_version,
            weak_cryptographic_key,
            markupsafe_xss,
        }
    }
}

} // verus!
