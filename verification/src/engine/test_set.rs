//! The set of tests selected by a profile.
//!
//! * If `B001` is among the tests to run and no blacklist id is, every
//!   blacklist id is added; `B001` itself is then dropped. Likewise for the
//!   tests to skip.
//! * The tests to run are the profile's (if any remain), else every plugin,
//!   builtin and blacklist id; the tests to skip are taken out.
//! * Per node kind: the selected plugins registered for it, in registry
//!   order, then `B001` for `Call`, `Import` and `ImportFrom` when the
//!   blacklist table has entries for that node type.

use vstd::prelude::*;
use indexmap::{IndexMap, IndexSet};
use crate::ast::vnode::{NodeKind, kind_index};
use crate::engine::blacklist::{
    all_entries, all_entry_models, static_views, BlacklistEntry, BlacklistTable, EntryModel, entry_view, entry_views, kept,
};
use crate::engine::config::{BanditConfig, Profile, set_contains, set_item, set_len, set_items};
use crate::engine::plugin_config::PluginConfigs;
use crate::engine::registry::{plugins, plugin_models, plugin_view, plugin_views, PluginDef, PluginModel};
use crate::text::{contains_string, str_eq, to_owned_string, views_of, lemma_push_contains, lemma_concat_contains};

verus! {

/// A test to run for a node kind.
#[derive(Debug, Clone)]
pub enum TestRef {
    Plugin(PluginDef),
    /// The builtin `B001` blacklist test.
    Blacklist,
}

/// What a test reference says.
pub enum TestModel {
    Plugin(PluginModel),
    Blacklist,
}

/// What a test reference says.
pub open spec fn test_view(t: TestRef) -> TestModel {
    match t {
        TestRef::Plugin(p) => TestModel::Plugin(plugin_view(p)),
        TestRef::Blacklist => TestModel::Blacklist,
    }
}

/// What test references say.
pub open spec fn test_views(s: Seq<TestRef>) -> Seq<TestModel> {
    s.map_values(|t: TestRef| test_view(t))
}

/// The ids of the blacklist entries.
pub open spec fn blacklist_ids() -> Seq<Seq<char>> {
    all_entry_models().map_values(|e: EntryModel| e.id)
}

/// No item of `a` is in `b`.
pub open spec fn disjoint(a: Seq<Seq<char>>, b: Seq<Seq<char>>) -> bool {
    forall|x: Seq<char>| a.contains(x) ==> !b.contains(x)
}

/// Membership in a profile list once `B001` is expanded and dropped.
pub open spec fn adjusted_has(s: Seq<Seq<char>>, id: Seq<char>) -> bool {
    if s.contains("B001"@) {
        id != "B001"@ && (s.contains(id) || (disjoint(s, blacklist_ids()) && blacklist_ids().contains(id)))
    } else {
        s.contains(id)
    }
}

/// Every known test id: plugins, the builtin, the blacklist.
pub open spec fn all_ids_has(id: Seq<char>) -> bool {
    plugin_models().map_values(|p: PluginModel| p.id).contains(id) || id == "B001"@ || blacklist_ids().contains(id)
}

/// Whether test `id` runs, for the profile lists `inc` and `exc`.
pub open spec fn selected(inc: Seq<Seq<char>>, exc: Seq<Seq<char>>, id: Seq<char>) -> bool {
    (if exists|x: Seq<char>| adjusted_has(inc, x) { adjusted_has(inc, id) } else { all_ids_has(id) }) && !adjusted_has(
        exc,
        id,
    )
}

/// The selected plugins among `s` registered for `k`, in order.
pub open spec fn plugins_for(s: Seq<PluginModel>, sel: spec_fn(Seq<char>) -> bool, k: NodeKind) -> Seq<TestModel>
    decreases s.len(),
{
    if s.len() == 0 {
        Seq::empty()
    } else {
        let p = s.last();
        plugins_for(s.drop_last(), sel, k) + (if sel(p.id) && p.checks.contains(k) {
            seq![TestModel::Plugin(p)]
        } else {
            Seq::empty()
        })
    }
}

/// Whether `B001` runs for node kind `k` with the table `t`.
pub open spec fn blacklist_runs_for(t: BlacklistTable, k: NodeKind) -> bool {
    (k == NodeKind::Call && t.call@.len() > 0) || (k == NodeKind::Import && t.import@.len() > 0) || (k
        == NodeKind::ImportFrom && t.import_from@.len() > 0)
}

/// Tests selected for a run.
pub struct TestSet {
    /// Tests per node kind (by [`NodeKind::index`]).
    pub tests: Vec<Vec<TestRef>>,
    /// Blacklist entries enabled by the profile (`None` when `B001` is off).
    pub blacklist: Option<BlacklistTable>,
    pub configs: PluginConfigs,
}

/// The items of a set, copied into a vector.
fn set_to_vec(s: &IndexSet<String>) -> (r: Vec<String>)
    ensures
        views_of(r@) == set_items(*s),
{
    let n = set_len(s);
    let mut v: Vec<String> = Vec::new();
    let mut i: usize = 0;
    while i < n
        invariant
            n == set_items(*s).len(),
            i <= n,
            views_of(v@) =~= set_items(*s).subrange(0, i as int),
        decreases n - i,
    {
        let x = crate::text::copy_string(set_item(s, i));
        let ghost b = v@;
        v.push(x);
        assert(views_of(v@) =~= views_of(b).push(x@));
        i = i + 1;
    }
    v
}

/// A profile list with `B001` expanded and dropped.
fn adjusted(s: &IndexSet<String>, bl: &Vec<String>) -> (r: Vec<String>)
    requires
        views_of(bl@) == blacklist_ids(),
    ensures
        forall|x: Seq<char>| views_of(r@).contains(x) <==> adjusted_has(set_items(*s), x),
{
    let items = set_to_vec(s);
    let ghost si = set_items(*s);
    let has_b001 = set_contains(s, "B001");
    let mut out: Vec<String> = Vec::new();
    let mut i: usize = 0;
    while i < items.len()
        invariant
            views_of(items@) == si,
            i <= items@.len(),
            forall|x: Seq<char>| views_of(out@).contains(x) <==> (views_of(items@).subrange(0, i as int).contains(x) && (has_b001 ==> x != "B001"@)),
            has_b001 == si.contains("B001"@),
        decreases items@.len() - i,
    {
        let ghost pre = views_of(items@).subrange(0, i as int);
        let ghost item = views_of(items@)[i as int];
        assert(views_of(items@).subrange(0, i + 1) =~= pre.push(item));
        let ghost b = views_of(out@);
        if !(has_b001 && str_eq(items[i].as_str(), "B001")) {
            let x = crate::text::copy_string(&items[i]);
            out.push(x);
            assert(views_of(out@) =~= b.push(item));
            assert forall|y: Seq<char>| views_of(out@).contains(y) <==> (views_of(items@).subrange(0, i + 1).contains(y) && (has_b001 ==> y != "B001"@)) by {
                lemma_push_contains(b, item, y);
                lemma_push_contains(pre, item, y);
            }
        } else {
            assert forall|y: Seq<char>| views_of(out@).contains(y) <==> (views_of(items@).subrange(0, i + 1).contains(y) && (has_b001 ==> y != "B001"@)) by {
                lemma_push_contains(pre, item, y);
            }
        }
        i = i + 1;
    }
    assert(views_of(items@).subrange(0, items@.len() as int) =~= si);
    if !has_b001 {
        return out;
    }
    let mut disj = true;
    let mut j: usize = 0;
    while j < items.len()
        invariant
            views_of(items@) == si,
            j <= items@.len(),
            views_of(bl@) == blacklist_ids(),
            disj <==> forall|k: int| 0 <= k < j ==> !blacklist_ids().contains(si[k]),
        decreases items@.len() - j,
    {
        assert(si[j as int] == items@[j as int]@);
        if contains_string(bl, items[j].as_str()) {
            disj = false;
        }
        j = j + 1;
    }
    assert(disj <==> disjoint(si, blacklist_ids())) by {
        if disj {
            assert forall|x: Seq<char>| si.contains(x) implies !blacklist_ids().contains(x) by {
                let k = choose|k: int| 0 <= k < si.len() && si[k] == x;
            }
        }
    }
    if !disj {
        return out;
    }
    let ghost a = views_of(out@);
    let mut extra = crate::text::copy_strings(bl);
    out.append(&mut extra);
    assert(views_of(out@) =~= a + blacklist_ids());
    assert forall|x: Seq<char>| views_of(out@).contains(x) <==> adjusted_has(si, x) by {
        lemma_concat_contains(a, blacklist_ids(), x);
    }
    out
}

fn id_list(ps: &Vec<PluginDef>) -> (r: Vec<String>)
    ensures
        views_of(r@) == plugin_views(ps@).map_values(|p: PluginModel| p.id),
{
    let mut v: Vec<String> = Vec::new();
    let mut i: usize = 0;
    while i < ps.len()
        invariant
            i <= ps@.len(),
            views_of(v@) =~= plugin_views(ps@).map_values(|p: PluginModel| p.id).subrange(0, i as int),
        decreases ps@.len() - i,
    {
        let x = to_owned_string(ps[i].id);
        let ghost b = v@;
        v.push(x);
        assert(views_of(v@) =~= views_of(b).push(x@));
        i = i + 1;
    }
    v
}

/// The rows of legacy blacklist data: node type and the entries of its
/// blacklist, in the map's order (each node type once).
pub uninterp spec fn legacy_rows(m: IndexMap<String, Vec<BlacklistEntry>>) -> Seq<(Seq<char>, Seq<EntryModel>)>;

/// The entries the rows give node type `key` (none when it has no row).
pub open spec fn row_entries(rows: Seq<(Seq<char>, Seq<EntryModel>)>, key: Seq<char>) -> Seq<EntryModel>
    decreases rows.len(),
{
    if rows.len() == 0 {
        Seq::empty()
    } else if rows[0].0 == key {
        rows[0].1
    } else {
        row_entries(rows.skip(1), key)
    }
}

/// The entries that legacy blacklist data gives node type `key`.
pub open spec fn legacy_entries(m: IndexMap<String, Vec<BlacklistEntry>>, key: Seq<char>) -> Seq<EntryModel> {
    row_entries(legacy_rows(m), key)
}

/// `IndexMap::get`: the entries of node type `k`, if the map has a row
/// for it.
#[verifier::external_body]
fn legacy_get<'a>(m: &'a IndexMap<String, Vec<BlacklistEntry>>, k: &str) -> (r: Option<&'a Vec<BlacklistEntry>>)
    ensures
        match r {
            Some(v) => entry_views(v@) == row_entries(legacy_rows(*m), k@),
            None => row_entries(legacy_rows(*m), k@).len() == 0,
        },
{
    m.get(k)
}

/// `map.get(key).cloned().unwrap_or_default()`: the blacklist entries of
/// node type `key` in legacy blacklist data.
fn legacy_part(map: &IndexMap<String, Vec<BlacklistEntry>>, key: &str) -> (r: Vec<BlacklistEntry>)
    ensures
        entry_views(r@) == legacy_entries(*map, key@),
{
    let mut v: Vec<BlacklistEntry> = Vec::new();
    match legacy_get(map, key) {
        Some(row) => {
            let mut j: usize = 0;
            while j < row.len()
                invariant
                    j <= row@.len(),
                    entry_views(v@) == entry_views(row@.subrange(0, j as int)),
                decreases row@.len() - j,
            {
                let ghost b = v@;
                v.push(row[j].copy());
                assert(entry_views(v@) =~= entry_views(b).push(entry_view(row@[j as int])));
                assert(row@.subrange(0, j + 1) =~= row@.subrange(0, j as int).push(row@[j as int]));
                j = j + 1;
            }
            assert(row@.subrange(0, j as int) =~= row@);
        },
        None => {
            assert(entry_views(v@) =~= Seq::<EntryModel>::empty());
        },
    }
    v
}

impl TestSet {
    /// The tests selected by `profile` under `config`.
    pub fn new(config: &BanditConfig, profile: &Profile) -> (r: TestSet)
        ensures
            r.tests@.len() == NodeKind::COUNT,
            forall|k: NodeKind| #![trigger kind_index(k)] test_views(r.tests@[kind_index(k) as int]@) == plugins_for(
                plugin_models(),
                |id: Seq<char>| selected(set_items(profile.includes), set_items(profile.exclude), id),
                k,
            ) + (if r.blacklist is Some && blacklist_runs_for(r.blacklist.unwrap(), k) {
                seq![TestModel::Blacklist]
            } else {
                Seq::empty()
            }),
            profile.blacklist matches Some(legacy) ==> match r.blacklist {
                Some(t) => !(t.call@.len() == 0 && t.import@.len() == 0 && t.import_from@.len() == 0)
                    && entry_views(t.call@) == legacy_entries(legacy, "Call"@)
                    && entry_views(t.import@) == legacy_entries(legacy, "Import"@)
                    && entry_views(t.import_from@) == legacy_entries(legacy, "ImportFrom"@),
                None => legacy_entries(legacy, "Call"@).len() == 0 && legacy_entries(legacy, "Import"@).len() == 0
                    && legacy_entries(legacy, "ImportFrom"@).len() == 0,
            },
            profile.blacklist is None ==> match r.blacklist {
                Some(t) => !(t.call@.len() == 0 && t.import@.len() == 0 && t.import_from@.len() == 0)
                    && entry_views(t.call@) == kept_sel(
                        crate::engine::blacklist::call_entries() + crate::engine::blacklist::import_entries(),
                        profile_selects(*profile),
                    ) && entry_views(t.import@) == kept_sel(crate::engine::blacklist::import_entries(), profile_selects(*profile))
                    && entry_views(t.import_from@) == kept_sel(crate::engine::blacklist::import_entries(), profile_selects(*profile)),
                None => kept_sel(
                    crate::engine::blacklist::call_entries() + crate::engine::blacklist::import_entries(),
                    profile_selects(*profile),
                ).len() == 0 && kept_sel(crate::engine::blacklist::import_entries(), profile_selects(*profile)).len() == 0,
            },
    {
        let entries = all_entries();
        let mut bl: Vec<String> = Vec::new();
        let mut i: usize = 0;
        while i < entries.len()
            invariant
                i <= entries@.len(),
                static_views(entries@) == all_entry_models(),
                views_of(bl@) =~= blacklist_ids().subrange(0, i as int),
            decreases entries@.len() - i,
        {
            let x = to_owned_string(entries[i].id);
            let ghost b = bl@;
            assert(crate::engine::blacklist::static_view(entries@[i as int]).id == x@);
            bl.push(x);
            assert(views_of(bl@) =~= views_of(b).push(x@));
            i = i + 1;
        }
        assert(views_of(bl@) =~= blacklist_ids());
        let inc = adjusted(&profile.includes, &bl);
        let exc = adjusted(&profile.exclude, &bl);
        let ghost inc_s = set_items(profile.includes);
        let ghost exc_s = set_items(profile.exclude);
        let ghost sel = profile_selects(*profile);
        let ps = plugins();
        let base: Vec<String>;
        if inc.len() > 0 {
            proof {
                assert(views_of(inc@).contains(views_of(inc@)[0]));
                assert(adjusted_has(inc_s, views_of(inc@)[0]));
            }
            base = inc;
        } else {
            proof {
                assert forall|x: Seq<char>| !adjusted_has(inc_s, x) by {
                    if adjusted_has(inc_s, x) {
                        assert(views_of(inc@).contains(x));
                    }
                }
            }
            let mut all = id_list(&ps);
            let ghost a = views_of(all@);
            all.push(to_owned_string("B001"));
            let ghost a2 = views_of(all@);
            assert(a2 =~= a.push("B001"@));
            let mut b2 = crate::text::copy_strings(&bl);
            all.append(&mut b2);
            proof {
                assert(views_of(all@) =~= a2 + views_of(bl@));
                let pm = plugin_models().map_values(|p: PluginModel| p.id);
                assert(a =~= pm);
                assert forall|x: Seq<char>| views_of(all@).contains(x) <==> all_ids_has(x) by {
                    lemma_push_contains(a, "B001"@, x);
                    lemma_concat_contains(a2, views_of(bl@), x);
                }
            }
            base = all;
        }
        assert forall|x: Seq<char>| views_of(base@).contains(x) <==> (if exists|y: Seq<char>| adjusted_has(inc_s, y) {
            adjusted_has(inc_s, x)
        } else {
            all_ids_has(x)
        }) by {
        }
        let mut chosen: Vec<String> = Vec::new();
        let mut j: usize = 0;
        while j < base.len()
            invariant
                j <= base@.len(),
                exc_s == set_items(profile.exclude),
                forall|x: Seq<char>| #[trigger] views_of(chosen@).contains(x) <==> (views_of(base@).subrange(0, j as int).contains(x) && !adjusted_has(exc_s, x)),
                forall|x: Seq<char>| views_of(exc@).contains(x) <==> adjusted_has(exc_s, x),
            decreases base@.len() - j,
        {
            let ghost pre = views_of(base@).subrange(0, j as int);
            let ghost item = views_of(base@)[j as int];
            assert(views_of(base@).subrange(0, j + 1) =~= pre.push(item));
            let ghost b = views_of(chosen@);
            let skip = contains_string(&exc, base[j].as_str());
            assert(skip == adjusted_has(exc_s, item));
            if !skip {
                let x = crate::text::copy_string(&base[j]);
                chosen.push(x);
                assert(views_of(chosen@) =~= b.push(item));
                assert forall|y: Seq<char>| #[trigger] views_of(chosen@).contains(y) <==> (views_of(base@).subrange(0, j + 1).contains(y) && !adjusted_has(exc_s, y)) by {
                    assert(b.contains(y) <==> (pre.contains(y) && !adjusted_has(exc_s, y)));
                    lemma_push_contains(b, item, y);
                    lemma_push_contains(pre, item, y);
                }
            } else {
                assert forall|y: Seq<char>| #[trigger] views_of(chosen@).contains(y) <==> (views_of(base@).subrange(0, j + 1).contains(y) && !adjusted_has(exc_s, y)) by {
                    lemma_push_contains(pre, item, y);
                }
            }
            j = j + 1;
        }
        assert(views_of(base@).subrange(0, base@.len() as int) =~= views_of(base@));
        assert forall|x: Seq<char>| views_of(chosen@).contains(x) <==> sel(x) by {
            assert(views_of(chosen@).contains(x) <==> (views_of(base@).subrange(0, base@.len() as int).contains(x) && !adjusted_has(exc_s, x)));
            assert(views_of(base@).contains(x) <==> (if exists|y: Seq<char>| adjusted_has(inc_s, y) {
                adjusted_has(inc_s, x)
            } else {
                all_ids_has(x)
            }));
        }
        let table = match &profile.blacklist {
            Some(legacy) => BlacklistTable {
                call: legacy_part(legacy, "Call"),
                import: legacy_part(legacy, "Import"),
                import_from: legacy_part(legacy, "ImportFrom"),
            },
            None => {
                let t = BlacklistTable::builtin().filtered(&chosen);
                proof {
                    let sel2 = profile_selects(*profile);
                    assert(sel2 == sel);
                    lemma_kept_by_membership(
                        crate::engine::blacklist::call_entries() + crate::engine::blacklist::import_entries(),
                        views_of(chosen@),
                        sel,
                    );
                    lemma_kept_by_membership(crate::engine::blacklist::import_entries(), views_of(chosen@), sel);
                }
                t
            },
        };
        let empty = table.is_empty();
        let mut tests: Vec<Vec<TestRef>> = Vec::new();
        let mut k: usize = 0;
        while k < NodeKind::COUNT
            invariant
                k <= NodeKind::COUNT,
                tests@.len() == k,
                plugin_views(ps@) == plugin_models(),
                forall|x: Seq<char>| views_of(chosen@).contains(x) <==> sel(x),
                empty == (table.call@.len() == 0 && table.import@.len() == 0 && table.import_from@.len() == 0),
                forall|kk: NodeKind| kind_index(kk) < k ==> test_views((#[trigger] tests@[kind_index(kk) as int])@) == plugins_for(plugin_models(), sel, kk)
                    + (if !empty && blacklist_runs_for(table, kk) { seq![TestModel::Blacklist] } else { Seq::empty() }),
            decreases NodeKind::COUNT - k,
        {
            let kind = kind_of_index(k);
            let mut row: Vec<TestRef> = Vec::new();
            let mut p: usize = 0;
            while p < ps.len()
                invariant
                    p <= ps@.len(),
                    plugin_views(ps@) == plugin_models(),
                    forall|x: Seq<char>| views_of(chosen@).contains(x) <==> sel(x),
                    test_views(row@) == plugins_for(plugin_views(ps@).subrange(0, p as int), sel, kind),
                decreases ps@.len() - p,
            {
                let ghost pm = plugin_views(ps@).subrange(0, p + 1);
                assert(pm.drop_last() =~= plugin_views(ps@).subrange(0, p as int));
                assert(pm.last() == plugin_view(ps@[p as int]));
                let sel_p = contains_string(&chosen, ps[p].id);
                let mut has = false;
                let mut c: usize = 0;
                while c < ps[p].checks.len()
                    invariant
                        p < ps@.len(),
                        c <= ps@[p as int].checks@.len(),
                        has <==> ps@[p as int].checks@.subrange(0, c as int).contains(kind),
                    decreases ps@[p as int].checks@.len() - c,
                {
                    let ghost pre = ps@[p as int].checks@.subrange(0, c as int);
                    assert(ps@[p as int].checks@.subrange(0, c + 1) =~= pre.push(ps@[p as int].checks@[c as int]));
                    proof {
                        lemma_push_contains(pre, ps@[p as int].checks@[c as int], kind);
                    }
                    if ps[p].checks[c] == kind {
                        has = true;
                    }
                    c = c + 1;
                }
                assert(ps@[p as int].checks@.subrange(0, ps@[p as int].checks@.len() as int) =~= ps@[p as int].checks@);
                let ghost before = row@;
                if sel_p && has {
                    row.push(TestRef::Plugin(ps[p].copy()));
                    assert(test_views(row@) =~= test_views(before).push(TestModel::Plugin(plugin_view(ps@[p as int]))));
                } else {
                    assert(test_views(row@) =~= test_views(before) + Seq::<TestModel>::empty());
                }
                p = p + 1;
            }
            assert(plugin_views(ps@).subrange(0, ps@.len() as int) =~= plugin_views(ps@));
            if !empty && ((k == 0 && table.call.len() > 0) || (k == 8 && table.import.len() > 0) || (k == 9
                && table.import_from.len() > 0)) {
                let ghost before = row@;
                row.push(TestRef::Blacklist);
                assert(test_views(row@) =~= test_views(before).push(TestModel::Blacklist));
            } else {
                assert(test_views(row@) =~= test_views(row@) + Seq::<TestModel>::empty());
            }
            tests.push(row);
            proof {
                assert forall|kk: NodeKind| kind_index(kk) < k + 1 implies test_views((#[trigger] tests@[kind_index(kk) as int])@) == plugins_for(plugin_models(), sel, kk)
                    + (if !empty && blacklist_runs_for(table, kk) { seq![TestModel::Blacklist] } else { Seq::empty() }) by {
                    if kind_index(kk) == k {
                        assert(kk == kind);
                    }
                }
            }
            k = k + 1;
        }
        let blacklist = if empty { None } else { Some(table) };
        TestSet { tests, blacklist, configs: PluginConfigs::from_config(config) }
    }

    /// The tests to run for node kind `kind`.
    pub fn get_tests(&self, kind: NodeKind) -> (r: &[TestRef])
        ensures
            kind_index(kind) < self.tests@.len() ==> r@ == self.tests@[kind_index(kind) as int]@,
            kind_index(kind) >= self.tests@.len() ==> r@.len() == 0,
    {
        let i = kind.index();
        if i < self.tests.len() {
            self.tests[i].as_slice()
        } else {
            &[]
        }
    }

    /// Whether no test at all would run.
    pub fn is_empty(&self) -> (r: bool)
        ensures
            r == forall|i: int| 0 <= i < self.tests@.len() ==> #[trigger] self.tests@[i]@.len() == 0,
    {
        let mut i: usize = 0;
        while i < self.tests.len()
            invariant
                i <= self.tests@.len(),
                forall|j: int| 0 <= j < i ==> #[trigger] self.tests@[j]@.len() == 0,
            decreases self.tests@.len() - i,
        {
            if self.tests[i].len() > 0 {
                return false;
            }
            i = i + 1;
        }
        true
    }
}

/// The entries of `s` whose id satisfies `sel`, in order.
pub open spec fn kept_sel(s: Seq<EntryModel>, sel: spec_fn(Seq<char>) -> bool) -> Seq<EntryModel>
    decreases s.len(),
{
    if s.len() == 0 {
        Seq::empty()
    } else {
        kept_sel(s.drop_last(), sel) + (if sel(s.last().id) { seq![s.last()] } else { Seq::empty() })
    }
}

/// Keeping by a list of ids is keeping by membership in it.
pub proof fn lemma_kept_by_membership(s: Seq<EntryModel>, ids: Seq<Seq<char>>, sel: spec_fn(Seq<char>) -> bool)
    requires
        forall|x: Seq<char>| ids.contains(x) <==> sel(x),
    ensures
        kept(s, ids) == kept_sel(s, sel),
    decreases s.len(),
{
    if s.len() > 0 {
        lemma_kept_by_membership(s.drop_last(), ids, sel);
    }
}

/// Whether test `id` runs under `profile`.
pub open spec fn profile_selects(profile: Profile) -> spec_fn(Seq<char>) -> bool {
    |id: Seq<char>| selected(set_items(profile.includes), set_items(profile.exclude), id)
}

/// The kind at position `k` of the declaration order.
pub fn kind_of_index(k: usize) -> (r: NodeKind)
    requires
        k < NodeKind::COUNT,
    ensures
        kind_index(r) == k,
{
    match k {
        0 => NodeKind::Call,
        1 => NodeKind::Str,
        2 => NodeKind::Bytes,
        3 => NodeKind::FunctionDef,
        4 => NodeKind::AsyncFunctionDef,
        5 => NodeKind::ClassDef,
        6 => NodeKind::Assert,
        7 => NodeKind::ExceptHandler,
        8 => NodeKind::Import,
        9 => NodeKind::ImportFrom,
        10 => NodeKind::File,
        _ => NodeKind::Other,
    }
}

} // verus!
