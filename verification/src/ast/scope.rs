//! What the tree walk remembers as it goes: the dotted namespace of the
//! class or function it is in, the modules imported so far and the names
//! they were imported under.

use vstd::prelude::*;
use crate::fx::{no_strings, str_set, strset_insert, strset_new, StrSet};
use crate::ast::qualname::{alias_insert, alias_table, aliases_new, no_aliases, Aliases};
use crate::engine::utils::{namespace_path_split, namespace_split, InvalidModulePath};
use crate::log::Level;
use crate::text::{copy_string, push_char, push_str, to_owned_string, views_of};

verus! {

/// The modules imported so far.
pub type Imports = StrSet;

/// One name of an `import` statement: `name` or `name as asname`.
#[derive(Debug)]
pub struct ImportName {
    pub name: String,
    pub asname: Option<String>,
}

/// The imports after `import names...`: each name is imported.
pub open spec fn imports_after(s: Set<Seq<char>>, names: Seq<ImportName>) -> Set<Seq<char>>
    decreases names.len(),
{
    if names.len() == 0 {
        s
    } else {
        imports_after(s, names.drop_last()).insert(names.last().name@)
    }
}

/// The aliases after `import names...`: `import x as y` makes `y` stand
/// for `x`.
pub open spec fn aliases_after(a: Map<Seq<char>, Seq<char>>, names: Seq<ImportName>) -> Map<Seq<char>, Seq<char>>
    decreases names.len(),
{
    if names.len() == 0 {
        a
    } else {
        let b = aliases_after(a, names.drop_last());
        match names.last().asname {
            Some(x) => b.insert(x@, names.last().name@),
            None => b,
        }
    }
}

/// `module.name`: what `from module import name` imports.
pub open spec fn from_qual(module: Seq<char>, n: ImportName) -> Seq<char> {
    module + "."@ + n.name@
}

/// The name `from module import name [as asname]` binds.
pub open spec fn from_key(n: ImportName) -> Seq<char> {
    match n.asname {
        Some(x) => x@,
        None => n.name@,
    }
}

/// The imports after `from module import names...`.
pub open spec fn imports_after_from(s: Set<Seq<char>>, module: Seq<char>, names: Seq<ImportName>) -> Set<Seq<char>>
    decreases names.len(),
{
    if names.len() == 0 {
        s
    } else {
        imports_after_from(s, module, names.drop_last()).insert(from_qual(module, names.last()))
    }
}

/// The aliases after `from module import names...`: each bound name stands
/// for `module.name`.
pub open spec fn aliases_after_from(
    a: Map<Seq<char>, Seq<char>>,
    module: Seq<char>,
    names: Seq<ImportName>,
) -> Map<Seq<char>, Seq<char>>
    decreases names.len(),
{
    if names.len() == 0 {
        a
    } else {
        aliases_after_from(a, module, names.drop_last()).insert(from_key(names.last()), from_qual(module, names.last()))
    }
}

/// The last name imported, if any.
pub open spec fn last_name(names: Seq<ImportName>) -> Option<Seq<char>> {
    if names.len() == 0 {
        None
    } else {
        Some(names.last().name@)
    }
}

/// The walk's memory of one module.
pub struct WalkState {
    /// The dotted name of the module, class or function being visited.
    pub namespace: String,
    pub imports: Imports,
    pub import_aliases: Aliases,
}

/// The warning logged when a module's name cannot be found.
pub open spec fn no_qualname_text(filename: Seq<char>) -> Seq<char> {
    "Unable to find qualified name for module: "@ + filename
}

impl WalkState {
    /// The state at the start of the module `filename`, given what
    /// `get_module_qualname_from_path` made of its path; returns the lines
    /// to log.
    pub fn for_module(filename: &str, qualname: Result<String, InvalidModulePath>) -> (r: (
        WalkState,
        Vec<(Level, String)>,
    ))
        ensures
            str_set(r.0.imports) == no_strings(),
            alias_table(r.0.import_aliases) == no_aliases(),
            match qualname {
                Ok(ns) => r.0.namespace@ == ns@ && r.1@.len() == 1,
                Err(_) => r.0.namespace@ == Seq::<char>::empty() && r.1@.len() == 2 && r.1@[0].0 == Level::Warning
                    && r.1@[0].1@ == no_qualname_text(filename@),
            },
            r.1@.last().0 == Level::Debug,
            r.1@.last().1@ == "Module qualified name: "@ + r.0.namespace@,
    {
        let mut logs: Vec<(Level, String)> = Vec::new();
        let namespace = match qualname {
            Ok(ns) => ns,
            Err(_) => {
                let mut m = to_owned_string("Unable to find qualified name for module: ");
                push_str(&mut m, filename);
                logs.push((Level::Warning, m));
                String::new()
            },
        };
        let mut d = to_owned_string("Module qualified name: ");
        push_str(&mut d, namespace.as_str());
        logs.push((Level::Debug, d));
        (WalkState { namespace, imports: strset_new(), import_aliases: aliases_new() }, logs)
    }

    /// `visit_Import` bookkeeping: each name is imported, `import x as y`
    /// makes `y` stand for `x`. Returns the last module name.
    pub fn record_import(&mut self, names: &Vec<ImportName>) -> (r: Option<String>)
        ensures
            final(self).namespace == old(self).namespace,
            str_set(final(self).imports) == imports_after(str_set(old(self).imports), names@),
            alias_table(final(self).import_aliases) == aliases_after(alias_table(old(self).import_aliases), names@),
            match r {
                Some(m) => last_name(names@) == Some(m@),
                None => last_name(names@) is None,
            },
    {
        let mut module: Option<String> = None;
        let mut i: usize = 0;
        while i < names.len()
            invariant
                i <= names@.len(),
                self.namespace == old(self).namespace,
                str_set(self.imports) == imports_after(str_set(old(self).imports), names@.subrange(0, i as int)),
                alias_table(self.import_aliases) == aliases_after(alias_table(old(self).import_aliases), names@.subrange(0, i as int)),
                match module {
                    Some(m) => last_name(names@.subrange(0, i as int)) == Some(m@),
                    None => last_name(names@.subrange(0, i as int)) is None,
                },
            decreases names@.len() - i,
        {
            let ghost cur = names@.subrange(0, i + 1);
            assert(cur.drop_last() =~= names@.subrange(0, i as int));
            let n = &names[i];
            match &n.asname {
                Some(a) => alias_insert(&mut self.import_aliases, copy_string(a), copy_string(&n.name)),
                None => {},
            }
            strset_insert(&mut self.imports, copy_string(&n.name));
            module = Some(copy_string(&n.name));
            i = i + 1;
        }
        assert(names@.subrange(0, names@.len() as int) =~= names@);
        module
    }

    /// `visit_ImportFrom` bookkeeping for `from module import names...`:
    /// each bound name stands for `module.name`, which is imported. Returns
    /// the last name imported.
    pub fn record_import_from(&mut self, module: &str, names: &Vec<ImportName>) -> (r: Option<String>)
        ensures
            final(self).namespace == old(self).namespace,
            str_set(final(self).imports) == imports_after_from(str_set(old(self).imports), module@, names@),
            alias_table(final(self).import_aliases) == aliases_after_from(
                alias_table(old(self).import_aliases),
                module@,
                names@,
            ),
            match r {
                Some(m) => last_name(names@) == Some(m@),
                None => last_name(names@) is None,
            },
    {
        let mut last: Option<String> = None;
        let mut i: usize = 0;
        proof {
            reveal_strlit(".");
        }
        while i < names.len()
            invariant
                i <= names@.len(),
                "."@ == seq!['.'],
                self.namespace == old(self).namespace,
                str_set(self.imports) == imports_after_from(str_set(old(self).imports), module@, names@.subrange(0, i as int)),
                alias_table(self.import_aliases) == aliases_after_from(
                    alias_table(old(self).import_aliases),
                    module@,
                    names@.subrange(0, i as int),
                ),
                match last {
                    Some(m) => last_name(names@.subrange(0, i as int)) == Some(m@),
                    None => last_name(names@.subrange(0, i as int)) is None,
                },
            decreases names@.len() - i,
        {
            let ghost cur = names@.subrange(0, i + 1);
            assert(cur.drop_last() =~= names@.subrange(0, i as int));
            let n = &names[i];
            let mut qual = to_owned_string(module);
            push_char(&mut qual, '.');
            push_str(&mut qual, n.name.as_str());
            assert(qual@ =~= from_qual(module@, names@[i as int]));
            let key = match &n.asname {
                Some(a) => copy_string(a),
                None => copy_string(&n.name),
            };
            alias_insert(&mut self.import_aliases, key, copy_string(&qual));
            strset_insert(&mut self.imports, qual);
            last = Some(copy_string(&n.name));
            i = i + 1;
        }
        assert(names@.subrange(0, names@.len() as int) =~= names@);
        last
    }

    /// Entering class `name`: the namespace grows by `.name`. Returns the
    /// length (in characters) to restore on leaving.
    pub fn enter_class(&mut self, name: &str) -> (r: usize)
        requires
            old(self).namespace@.len() + name@.len() + 1 <= usize::MAX,
        ensures
            r == old(self).namespace@.len(),
            final(self).namespace@ == old(self).namespace@ + seq!['.'] + name@,
            final(self).imports == old(self).imports,
            final(self).import_aliases == old(self).import_aliases,
    {
        let n = self.namespace.unicode_len();
        push_char(&mut self.namespace, '.');
        push_str(&mut self.namespace, name);
        n
    }

    /// Entering function `name`: its qualified name is `namespace.name`,
    /// its name the part of that after the last dot, and the namespace
    /// grows by `.name`. Returns the length to restore on leaving, the
    /// qualified name and the name.
    pub fn enter_function(&mut self, name: &str) -> (r: (usize, String, String))
        requires
            old(self).namespace@.len() + name@.len() + 1 <= usize::MAX,
        ensures
            r.0 == old(self).namespace@.len(),
            r.1@ == old(self).namespace@ + seq!['.'] + name@,
            namespace_split(r.1@).1 is Some,
            r.2@ == namespace_split(r.1@).1.unwrap(),
            r.2@.len() <= name@.len(),
            !name@.contains('.') ==> r.2@ == name@,
            final(self).namespace@ == old(self).namespace@ + seq!['.'] + r.2@,
            final(self).imports == old(self).imports,
            final(self).import_aliases == old(self).import_aliases,
    {
        let n = self.namespace.unicode_len();
        let mut qualname = copy_string(&self.namespace);
        push_char(&mut qualname, '.');
        push_str(&mut qualname, name);
        let (_, tail) = namespace_path_split(qualname.as_str());
        proof {
            crate::text::lemma_last_index_of(qualname@, '.');
            assert(qualname@[n as int] == '.');
            assert(crate::text::last_index_of(qualname@, '.') is Some);
            let k = crate::text::last_index_of(qualname@, '.').unwrap();
            assert(k >= n);
            if !name@.contains('.') {
                crate::engine::utils::lemma_namespace_split_join(self.namespace@, name@);
            }
        }
        let fname = match tail {
            Some(t) => t,
            None => String::new(),
        };
        push_char(&mut self.namespace, '.');
        push_str(&mut self.namespace, fname.as_str());
        (n, qualname, fname)
    }

    /// Leaving a class or function: the namespace goes back to its first
    /// `len` characters.
    pub fn leave(&mut self, len: usize)
        requires
            len <= old(self).namespace@.len(),
        ensures
            final(self).namespace@ == old(self).namespace@.subrange(0, len as int),
            final(self).imports == old(self).imports,
            final(self).import_aliases == old(self).import_aliases,
    {
        let kept = to_owned_string(self.namespace.as_str().substring_char(0, len));
        self.namespace = kept;
    }
}

} // verus!

verus! {

/// Leaving what was entered gives back the namespace from before: the
/// length [`WalkState::enter_class`] and [`WalkState::enter_function`]
/// return, handed to [`WalkState::leave`], cuts the added `.name` off.
pub proof fn lemma_leave_restores(namespace: Seq<char>, name: Seq<char>)
    ensures
        (namespace + seq!['.'] + name).subrange(0, namespace.len() as int) == namespace,
{
    assert((namespace + seq!['.'] + name).subrange(0, namespace.len() as int) =~= namespace);
}

} // verus!
