//! What the scanning engine needs to know of Python syntax trees: node
//! kinds, positions and literal values.

pub mod literal;
pub mod value;
pub mod positions;
pub mod vnode;
pub mod expr;
pub mod qualname;
pub mod scope;
pub mod visit;
pub mod linerange;
pub mod joined_str;
pub mod trace;
pub mod tree;
pub mod children;
pub mod tree_walk;

use vstd::prelude::*;

verus! {

/// Which CPython version's syntax-tree positions to follow: 3.11 gives the
/// values of an f-string the range of the whole string, 3.12 their own.
#[derive(Debug, Clone, Copy, PartialEq, Eq, Structural, Default)]
pub enum PyCompat {
    Py311,
    #[default]
    Py312,
}

impl PyCompat {
    /// The policy named by the value of `BANDITRS_PYTHON_COMPAT` (`3.11`,
    /// `311` or `py311` mean 3.11; anything else, or nothing, 3.12).
    pub fn from_setting(value: Option<&str>) -> (r: PyCompat)
        ensures
            r == match value {
                Some(v) => if v@ == "3.11"@ || v@ == "311"@ || v@ == "py311"@ { PyCompat::Py311 } else { PyCompat::Py312 },
                None => PyCompat::Py312,
            },
    {
        match value {
            Some(v) => if crate::text::str_eq(v, "3.11") || crate::text::str_eq(v, "311") || crate::text::str_eq(v, "py311") {
                PyCompat::Py311
            } else {
                PyCompat::Py312
            },
            None => PyCompat::Py312,
        }
    }
}

} // verus!
