//! The plugin registry: every test with its id, entry-point name, function
//! name, the node kinds it checks and the configuration section it reads.
//!
//! Order matters: it fixes the order of the issues reported for one node.
//! The builtin `B001` blacklist test always comes last.

use vstd::prelude::*;
use crate::ast::vnode::NodeKind;
use crate::engine::blacklist::{self, entry_with_id, entry_with_name, all_entry_models, EntryModel, static_views};
use crate::text::{str_eq, to_owned_string};

verus! {

/// What a plugin definition says, as plain sequences.
pub struct PluginModel {
    pub id: Seq<char>,
    pub name: Seq<char>,
    pub func_name: Seq<char>,
    pub checks: Seq<NodeKind>,
    pub config_key: Option<Seq<char>>,
}

/// The view of an optional string slice.
pub open spec fn opt_view(o: Option<&'static str>) -> Option<Seq<char>> {
    match o {
        Some(c) => Some(c@),
        None => None,
    }
}

/// A plugin model from literal fields.
pub open spec fn pm(
    id: &'static str,
    name: &'static str,
    func_name: &'static str,
    kind: NodeKind,
    config_key: Option<&'static str>,
) -> PluginModel {
    PluginModel { id: id@, name: name@, func_name: func_name@, checks: seq![kind], config_key: opt_view(config_key) }
}

/// One plugin.
#[derive(Debug, Clone)]
pub struct PluginDef {
    /// Test id, e.g. `B101`.
    pub id: &'static str,
    /// Entry-point name, e.g. `hashlib_insecure_functions`.
    pub name: &'static str,
    /// Function name (issue test name, docs URL), e.g. `hashlib`.
    pub func_name: &'static str,
    /// Node kinds the plugin is registered for.
    pub checks: Vec<NodeKind>,
    /// Configuration section read by the plugin.
    pub config_key: Option<&'static str>,
}

/// What a plugin definition says.
pub open spec fn plugin_view(p: PluginDef) -> PluginModel {
    PluginModel { id: p.id@, name: p.name@, func_name: p.func_name@, checks: p.checks@, config_key: opt_view(p.config_key) }
}

/// What plugin definitions say.
pub open spec fn plugin_views(s: Seq<PluginDef>) -> Seq<PluginModel> {
    s.map_values(|p: PluginDef| plugin_view(p))
}

fn def(
    id: &'static str,
    name: &'static str,
    func_name: &'static str,
    kind: NodeKind,
    config_key: Option<&'static str>,
) -> (r: PluginDef)
    ensures
        plugin_view(r) == pm(id, name, func_name, kind, config_key),
{
    let checks = vec![kind];
    assert(checks@ =~= seq![kind]);
    PluginDef { id, name, func_name, checks, config_key }
}

/// The plugins, in registration order.
pub open spec fn plugin_models() -> Seq<PluginModel> {
    seq![
        pm("B201", "flask_debug_true", "flask_debug_true", NodeKind::Call, None),
        pm("B101", "assert_used", "assert_used", NodeKind::Assert, Some("assert_used")),
        pm("B501", "request_with_no_cert_validation", "request_with_no_cert_validation", NodeKind::Call, None),
        pm("B113", "request_without_timeout", "request_without_timeout", NodeKind::Call, None),
        pm("B102", "exec_used", "exec_used", NodeKind::Call, None),
        pm("B103", "set_bad_file_permissions", "set_bad_file_permissions", NodeKind::Call, None),
        pm("B104", "hardcoded_bind_all_interfaces", "hardcoded_bind_all_interfaces", NodeKind::Str, None),
        pm("B105", "hardcoded_password_string", "hardcoded_password_string", NodeKind::Str, None),
        pm("B106", "hardcoded_password_funcarg", "hardcoded_password_funcarg", NodeKind::Call, None),
        pm("B107", "hardcoded_password_default", "hardcoded_password_default", NodeKind::FunctionDef, None),
        pm("B108", "hardcoded_tmp_directory", "hardcoded_tmp_directory", NodeKind::Str, Some("hardcoded_tmp_directory")),
        pm("B601", "paramiko_calls", "paramiko_calls", NodeKind::Call, None),
        pm("B602", "subprocess_popen_with_shell_equals_true", "subprocess_popen_with_shell_equals_true", NodeKind::Call, Some("shell_injection")),
        pm("B603", "subprocess_without_shell_equals_true", "subprocess_without_shell_equals_true", NodeKind::Call, Some("shell_injection")),
        pm("B604", "any_other_function_with_shell_equals_true", "any_other_function_with_shell_equals_true", NodeKind::Call, Some("shell_injection")),
        pm("B605", "start_process_with_a_shell", "start_process_with_a_shell", NodeKind::Call, Some("shell_injection")),
        pm("B606", "start_process_with_no_shell", "start_process_with_no_shell", NodeKind::Call, Some("shell_injection")),
        pm("B607", "start_process_with_partial_path", "start_process_with_partial_path", NodeKind::Call, Some("shell_injection")),
        pm("B608", "hardcoded_sql_expressions", "hardcoded_sql_expressions", NodeKind::Str, None),
        pm("B324", "hashlib_insecure_functions", "hashlib", NodeKind::Call, None),
        pm("B609", "linux_commands_wildcard_injection", "linux_commands_wildcard_injection", NodeKind::Call, Some("shell_injection")),
        pm("B610", "django_extra_used", "django_extra_used", NodeKind::Call, None),
        pm("B611", "django_rawsql_used", "django_rawsql_used", NodeKind::Call, None),
        pm("B502", "ssl_with_bad_version", "ssl_with_bad_version", NodeKind::Call, Some("ssl_with_bad_version")),
        pm("B503", "ssl_with_bad_defaults", "ssl_with_bad_defaults", NodeKind::FunctionDef, Some("ssl_with_bad_version")),
        pm("B504", "ssl_with_no_version", "ssl_with_no_version", NodeKind::Call, None),
        pm("B701", "jinja2_autoescape_false", "jinja2_autoescape_false", NodeKind::Call, None),
        pm("B702", "use_of_mako_templates", "use_of_mako_templates", NodeKind::Call, None),
        pm("B703", "django_mark_safe", "django_mark_safe", NodeKind::Call, None),
        pm("B112", "try_except_continue", "try_except_continue", NodeKind::ExceptHandler, Some("try_except_continue")),
        pm("B110", "try_except_pass", "try_except_pass", NodeKind::ExceptHandler, Some("try_except_pass")),
        pm("B505", "weak_cryptographic_key", "weak_cryptographic_key", NodeKind::Call, Some("weak_cryptographic_key")),
        pm("B506", "yaml_load", "yaml_load", NodeKind::Call, None),
        pm("B507", "ssh_no_host_key_verification", "ssh_no_host_key_verification", NodeKind::Call, None),
        pm("B508", "snmp_insecure_version", "snmp_insecure_version_check", NodeKind::Call, None),
        pm("B509", "snmp_weak_cryptography", "snmp_crypto_check", NodeKind::Call, None),
        pm("B612", "logging_config_insecure_listen", "logging_config_insecure_listen", NodeKind::Call, None),
        pm("B202", "tarfile_unsafe_members", "tarfile_unsafe_members", NodeKind::Call, None),
        pm("B614", "pytorch_load", "pytorch_load", NodeKind::Call, None),
        pm("B613", "trojansource", "trojansource", NodeKind::File, None),
        pm("B704", "markupsafe_markup_xss", "markupsafe_markup_xss", NodeKind::Call, Some("markupsafe_xss")),
        pm("B615", "huggingface_unsafe_download", "huggingface_unsafe_download", NodeKind::Call, None),
    ]
}

/// The plugins, in registration order.
#[verifier::rlimit(50)]
pub fn plugins() -> (r: Vec<PluginDef>)
    ensures
        plugin_views(r@) == plugin_models(),
{
    let mut v: Vec<PluginDef> = Vec::new();
    v.push(def("B201", "flask_debug_true", "flask_debug_true", NodeKind::Call, None));
    v.push(def("B101", "assert_used", "assert_used", NodeKind::Assert, Some("assert_used")));
    v.push(def("B501", "request_with_no_cert_validation", "request_with_no_cert_validation", NodeKind::Call, None));
    v.push(def("B113", "request_without_timeout", "request_without_timeout", NodeKind::Call, None));
    v.push(def("B102", "exec_used", "exec_used", NodeKind::Call, None));
    v.push(def("B103", "set_bad_file_permissions", "set_bad_file_permissions", NodeKind::Call, None));
    v.push(def("B104", "hardcoded_bind_all_interfaces", "hardcoded_bind_all_interfaces", NodeKind::Str, None));
    v.push(def("B105", "hardcoded_password_string", "hardcoded_password_string", NodeKind::Str, None));
    v.push(def("B106", "hardcoded_password_funcarg", "hardcoded_password_funcarg", NodeKind::Call, None));
    v.push(def("B107", "hardcoded_password_default", "hardcoded_password_default", NodeKind::FunctionDef, None));
    v.push(def("B108", "hardcoded_tmp_directory", "hardcoded_tmp_directory", NodeKind::Str, Some("hardcoded_tmp_directory")));
    v.push(def("B601", "paramiko_calls", "paramiko_calls", NodeKind::Call, None));
    v.push(def("B602", "subprocess_popen_with_shell_equals_true", "subprocess_popen_with_shell_equals_true", NodeKind::Call, Some("shell_injection")));
    v.push(def("B603", "subprocess_without_shell_equals_true", "subprocess_without_shell_equals_true", NodeKind::Call, Some("shell_injection")));
    v.push(def("B604", "any_other_function_with_shell_equals_true", "any_other_function_with_shell_equals_true", NodeKind::Call, Some("shell_injection")));
    v.push(def("B605", "start_process_with_a_shell", "start_process_with_a_shell", NodeKind::Call, Some("shell_injection")));
    v.push(def("B606", "start_process_with_no_shell", "start_process_with_no_shell", NodeKind::Call, Some("shell_injection")));
    v.push(def("B607", "start_process_with_partial_path", "start_process_with_partial_path", NodeKind::Call, Some("shell_injection")));
    v.push(def("B608", "hardcoded_sql_expressions", "hardcoded_sql_expressions", NodeKind::Str, None));
    v.push(def("B324", "hashlib_insecure_functions", "hashlib", NodeKind::Call, None));
    v.push(def("B609", "linux_commands_wildcard_injection", "linux_commands_wildcard_injection", NodeKind::Call, Some("shell_injection")));
    v.push(def("B610", "django_extra_used", "django_extra_used", NodeKind::Call, None));
    v.push(def("B611", "django_rawsql_used", "django_rawsql_used", NodeKind::Call, None));
    v.push(def("B502", "ssl_with_bad_version", "ssl_with_bad_version", NodeKind::Call, Some("ssl_with_bad_version")));
    v.push(def("B503", "ssl_with_bad_defaults", "ssl_with_bad_defaults", NodeKind::FunctionDef, Some("ssl_with_bad_version")));
    v.push(def("B504", "ssl_with_no_version", "ssl_with_no_version", NodeKind::Call, None));
    v.push(def("B701", "jinja2_autoescape_false", "jinja2_autoescape_false", NodeKind::Call, None));
    v.push(def("B702", "use_of_mako_templates", "use_of_mako_templates", NodeKind::Call, None));
    v.push(def("B703", "django_mark_safe", "django_mark_safe", NodeKind::Call, None));
    v.push(def("B112", "try_except_continue", "try_except_continue", NodeKind::ExceptHandler, Some("try_except_continue")));
    v.push(def("B110", "try_except_pass", "try_except_pass", NodeKind::ExceptHandler, Some("try_except_pass")));
    v.push(def("B505", "weak_cryptographic_key", "weak_cryptographic_key", NodeKind::Call, Some("weak_cryptographic_key")));
    v.push(def("B506", "yaml_load", "yaml_load", NodeKind::Call, None));
    v.push(def("B507", "ssh_no_host_key_verification", "ssh_no_host_key_verification", NodeKind::Call, None));
    v.push(def("B508", "snmp_insecure_version", "snmp_insecure_version_check", NodeKind::Call, None));
    v.push(def("B509", "snmp_weak_cryptography", "snmp_crypto_check", NodeKind::Call, None));
    v.push(def("B612", "logging_config_insecure_listen", "logging_config_insecure_listen", NodeKind::Call, None));
    v.push(def("B202", "tarfile_unsafe_members", "tarfile_unsafe_members", NodeKind::Call, None));
    v.push(def("B614", "pytorch_load", "pytorch_load", NodeKind::Call, None));
    v.push(def("B613", "trojansource", "trojansource", NodeKind::File, None));
    v.push(def("B704", "markupsafe_markup_xss", "markupsafe_markup_xss", NodeKind::Call, Some("markupsafe_xss")));
    v.push(def("B615", "huggingface_unsafe_download", "huggingface_unsafe_download", NodeKind::Call, None));
    assert(plugin_views(v@) =~= plugin_models());
    v
}

/// The builtin test ids.
pub fn builtin_ids() -> (r: Vec<&'static str>)
    ensures
        r@.len() == 1,
        r@[0]@ == "B001"@,
{
    vec!["B001"]
}

/// Position of the first plugin at or after `j` satisfying `p`.
pub open spec fn first_plugin(s: Seq<PluginModel>, p: spec_fn(PluginModel) -> bool, j: int) -> Option<int>
    decreases s.len() - j,
{
    if j < 0 || j >= s.len() {
        None
    } else if p(s[j]) {
        Some(j)
    } else {
        first_plugin(s, p, j + 1)
    }
}

/// The predicate "has id `id`".
pub open spec fn plugin_id_is(id: Seq<char>) -> spec_fn(PluginModel) -> bool {
    |m: PluginModel| m.id == id
}

/// The predicate "is registered as `name`".
pub open spec fn plugin_name_is(name: Seq<char>) -> spec_fn(PluginModel) -> bool {
    |m: PluginModel| m.name == name
}

/// The first plugin with id `id` (`plugins_by_id`).
pub open spec fn plugin_with_id(id: Seq<char>) -> Option<PluginModel> {
    match first_plugin(plugin_models(), plugin_id_is(id), 0) {
        Some(i) => Some(plugin_models()[i]),
        None => None,
    }
}

/// The first plugin registered as `name` (`plugins_by_name`).
pub open spec fn plugin_with_name(name: Seq<char>) -> Option<PluginModel> {
    match first_plugin(plugin_models(), plugin_name_is(name), 0) {
        Some(i) => Some(plugin_models()[i]),
        None => None,
    }
}

/// The first plugin with the given id.
pub fn plugin_by_id(id: &str) -> (r: Option<PluginDef>)
    ensures
        match r {
            Some(p) => plugin_with_id(id@) == Some(plugin_view(p)),
            None => plugin_with_id(id@) is None,
        },
{
    let all = plugins();
    let ghost models = plugin_models();
    let ghost p = plugin_id_is(id@);
    let mut i: usize = 0;
    while i < all.len()
        invariant
            plugin_views(all@) == models,
            models == plugin_models(),
            i <= all@.len(),
            first_plugin(models, p, 0) == first_plugin(models, p, i as int),
            p == plugin_id_is(id@),
        decreases all@.len() - i,
    {
        assert(plugin_view(all@[i as int]) == models[i as int]);
        if str_eq(all[i].id, id) {
            return Some(all[i].copy());
        }
        i = i + 1;
    }
    None
}

/// The first plugin registered under the given name.
pub fn plugin_by_name(name: &str) -> (r: Option<PluginDef>)
    ensures
        match r {
            Some(p) => plugin_with_name(name@) == Some(plugin_view(p)),
            None => plugin_with_name(name@) is None,
        },
{
    let all = plugins();
    let ghost models = plugin_models();
    let ghost p = plugin_name_is(name@);
    let mut i: usize = 0;
    while i < all.len()
        invariant
            plugin_views(all@) == models,
            models == plugin_models(),
            i <= all@.len(),
            first_plugin(models, p, 0) == first_plugin(models, p, i as int),
            p == plugin_name_is(name@),
        decreases all@.len() - i,
    {
        assert(plugin_view(all@[i as int]) == models[i as int]);
        if str_eq(all[i].name, name) {
            return Some(all[i].copy());
        }
        i = i + 1;
    }
    None
}

impl PluginDef {
    /// A copy of the definition.
    pub fn copy(&self) -> (r: PluginDef)
        ensures
            plugin_view(r) == plugin_view(*self),
    {
        let mut checks: Vec<NodeKind> = Vec::new();
        let mut i: usize = 0;
        while i < self.checks.len()
            invariant
                i <= self.checks@.len(),
                checks@ =~= self.checks@.subrange(0, i as int),
            decreases self.checks@.len() - i,
        {
            checks.push(self.checks[i]);
            i = i + 1;
        }
        assert(checks@ =~= self.checks@);
        PluginDef { id: self.id, name: self.name, func_name: self.func_name, checks, config_key: self.config_key }
    }
}

/// `Manager.get_test_id(name)`: the id of the plugin registered as `name`,
/// else of the blacklist entry called `name`.
pub open spec fn test_id_for(name: Seq<char>) -> Option<Seq<char>> {
    match plugin_with_name(name) {
        Some(p) => Some(p.id),
        None => match entry_with_name(name) {
            Some(e) => Some(e.id),
            None => None,
        },
    }
}

/// `Manager.check_id(id)`: a plugin id, a blacklist id or a builtin id.
pub open spec fn is_known_id(id: Seq<char>) -> bool {
    plugin_with_id(id) is Some || entry_with_id(id) is Some || id == "B001"@
}

/// A `# nosec` token resolved to a test id: a known id as is, else the id
/// of the test it names.
pub open spec fn resolved_token(token: Seq<char>) -> Option<Seq<char>> {
    if is_known_id(token) {
        Some(token)
    } else {
        test_id_for(token)
    }
}

/// The id of the plugin or blacklist entry called `name`.
pub fn get_test_id(name: &str) -> (r: Option<&'static str>)
    ensures
        match r {
            Some(id) => test_id_for(name@) == Some(id@),
            None => test_id_for(name@) is None,
        },
{
    match plugin_by_name(name) {
        Some(p) => Some(p.id),
        None => match blacklist::entry_by_name(name) {
            Some(e) => Some(e.id),
            None => None,
        },
    }
}

/// Whether `id` names a plugin, a blacklist entry or a builtin test.
pub fn check_id(id: &str) -> (r: bool)
    ensures
        r == is_known_id(id@),
{
    plugin_by_id(id).is_some() || blacklist::entry_by_id(id).is_some() || str_eq(id, "B001")
}

/// Resolves a `# nosec` token: a known id, or a known name mapped to its id.
pub fn resolve_test_token(token: &str) -> (r: Option<String>)
    ensures
        match r {
            Some(s) => resolved_token(token@) == Some(s@),
            None => resolved_token(token@) is None,
        },
{
    if check_id(token) {
        return Some(to_owned_string(token));
    }
    match get_test_id(token) {
        Some(id) => Some(to_owned_string(id)),
        None => None,
    }
}

/// The views of `(id, name)` pairs.
pub open spec fn pair_views(s: Seq<(&'static str, &'static str)>) -> Seq<(Seq<char>, Seq<char>)> {
    s.map_values(|x: (&'static str, &'static str)| (x.0@, x.1@))
}

/// `(id, name)` of plugin models.
pub open spec fn plugin_pairs(s: Seq<PluginModel>) -> Seq<(Seq<char>, Seq<char>)> {
    s.map_values(|p: PluginModel| (p.id, p.name))
}

/// `(id, name)` of entry models.
pub open spec fn entry_pairs(s: Seq<EntryModel>) -> Seq<(Seq<char>, Seq<char>)> {
    s.map_values(|e: EntryModel| (e.id, e.name))
}

/// `(id, name)` of every plugin, then of every blacklist entry.
pub open spec fn ids_and_names() -> Seq<(Seq<char>, Seq<char>)> {
    plugin_pairs(plugin_models()) + entry_pairs(all_entry_models())
}

/// `(id, name)` of every plugin, then of every blacklist entry.
pub fn all_ids_and_names() -> (r: Vec<(&'static str, &'static str)>)
    ensures
        pair_views(r@) == ids_and_names(),
{
    let ps = plugins();
    let es = blacklist::all_entries();
    let ghost target = ids_and_names();
    let ghost pm = plugin_models();
    let ghost bm = all_entry_models();
    let mut out: Vec<(&'static str, &'static str)> = Vec::new();
    let mut i: usize = 0;
    while i < ps.len()
        invariant
            plugin_views(ps@) == pm,
            pm == plugin_models(),
            i <= ps@.len(),
            pair_views(out@) =~= plugin_pairs(pm).subrange(0, i as int),
        decreases ps@.len() - i,
    {
        assert(plugin_view(ps@[i as int]) == pm[i as int]);
        let ghost before = out@;
        out.push((ps[i].id, ps[i].name));
        assert(pair_views(out@) =~= pair_views(before).push((ps@[i as int].id@, ps@[i as int].name@)));
        i = i + 1;
    }
    let mut j: usize = 0;
    while j < es.len()
        invariant
            plugin_views(ps@) == pm,
            pm == plugin_models(),
            static_views(es@) == bm,
            bm == all_entry_models(),
            target == ids_and_names(),
            j <= es@.len(),
            pair_views(out@) =~= target.subrange(0, pm.len() + j),
        decreases es@.len() - j,
    {
        assert(blacklist::static_view(es@[j as int]) == bm[j as int]);
        let ghost before = out@;
        out.push((es[j].id, es[j].name));
        assert(pair_views(out@) =~= pair_views(before).push((es@[j as int].id@, es@[j as int].name@)));
        j = j + 1;
    }
    assert(target.len() == pm.len() + bm.len());
    out
}

} // verus!
