//! Documentation links of the tests.

use vstd::prelude::*;
use crate::constants::DOCS_VERSION;
use crate::engine::blacklist::{entry_by_id, entry_with_id};
use crate::engine::registry::{plugin_by_id, plugin_with_id};
use crate::text::{has_prefix, lower_seq, push_str, replace_all, replace_str, str_eq, str_starts_with, to_lower};

verus! {

/// `https://bandit.readthedocs.io/en/<DOCS_VERSION>/`.
pub open spec fn base_url_spec() -> Seq<char> {
    "https://bandit.readthedocs.io/en/"@ + DOCS_VERSION@ + "/"@
}

/// Whether `id` is one of `B313` .. `B320` (the XML parser calls, which
/// share one documentation section).
pub open spec fn in_xml_call_range(id: Seq<char>) -> bool {
    id == "B313"@ || id == "B314"@ || id == "B315"@ || id == "B316"@ || id == "B317"@ || id == "B318"@
        || id == "B319"@ || id == "B320"@
}

/// The page and anchor of a blacklist entry's documentation.
pub open spec fn blacklist_anchor(id: Seq<char>, name: Seq<char>) -> Seq<char> {
    let dashed = replace_all(name, "_"@, "-"@);
    if has_prefix(id, "B3"@) {
        let merged = id == "B304"@ || id == "B305"@;
        let id2 = if merged { "b304-b305"@ } else { id };
        let name2 = if merged { "ciphers-and-modes"@ } else { dashed };
        let id3 = if in_xml_call_range(id2) { "b313-b320"@ } else { id2 };
        lower_seq("blacklists/blacklist_calls.html#"@ + id3 + "-"@ + name2)
    } else {
        lower_seq("blacklists/blacklist_imports.html#"@ + id + "-"@ + dashed)
    }
}

/// `get_url(bid)`: the plugin page, else the blacklist anchor, else the
/// documentation root.
pub open spec fn docs_url(bid: Seq<char>) -> Seq<char> {
    match plugin_with_id(bid) {
        Some(p) => base_url_spec() + "plugins/"@ + lower_seq(bid) + "_"@ + p.func_name + ".html"@,
        None => match entry_with_id(bid) {
            Some(e) => base_url_spec() + blacklist_anchor(e.id, e.name),
            None => base_url_spec(),
        },
    }
}

/// The documentation root.
pub fn base_url() -> (r: String)
    ensures
        r@ == base_url_spec(),
{
    let mut s = String::new();
    push_str(&mut s, "https://bandit.readthedocs.io/en/");
    push_str(&mut s, DOCS_VERSION);
    push_str(&mut s, "/");
    assert(s@ =~= base_url_spec());
    s
}

fn is_xml_call(id: &str) -> (r: bool)
    ensures
        r == in_xml_call_range(id@),
{
    str_eq(id, "B313") || str_eq(id, "B314") || str_eq(id, "B315") || str_eq(id, "B316")
        || str_eq(id, "B317") || str_eq(id, "B318") || str_eq(id, "B319") || str_eq(id, "B320")
}

/// The documentation link of test `bid`.
pub fn get_url(bid: &str) -> (r: String)
    ensures
        r@ == docs_url(bid@),
{
    let mut s = base_url();
    match plugin_by_id(bid) {
        Some(p) => {
            push_str(&mut s, "plugins/");
            let l = to_lower(bid);
            push_str(&mut s, l.as_str());
            push_str(&mut s, "_");
            push_str(&mut s, p.func_name);
            push_str(&mut s, ".html");
            assert(s@ =~= docs_url(bid@));
            s
        },
        None => match entry_by_id(bid) {
            Some(e) => {
                proof {
                    reveal_strlit("_");
                }
                let dashed = replace_str(e.name, "_", "-");
                let mut ext = String::new();
                if str_starts_with(e.id, "B3") {
                    let merged = str_eq(e.id, "B304") || str_eq(e.id, "B305");
                    let id2: &str = if merged { "b304-b305" } else { e.id };
                    let name2: &str = if merged { "ciphers-and-modes" } else { dashed.as_str() };
                    let id3: &str = if is_xml_call(id2) { "b313-b320" } else { id2 };
                    push_str(&mut ext, "blacklists/blacklist_calls.html#");
                    push_str(&mut ext, id3);
                    push_str(&mut ext, "-");
                    push_str(&mut ext, name2);
                } else {
                    push_str(&mut ext, "blacklists/blacklist_imports.html#");
                    push_str(&mut ext, e.id);
                    push_str(&mut ext, "-");
                    push_str(&mut ext, dashed.as_str());
                }
                let l = to_lower(ext.as_str());
                push_str(&mut s, l.as_str());
                assert(s@ =~= docs_url(bid@));
                s
            },
            None => s,
        },
    }
}

} // verus!
