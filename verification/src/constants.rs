//! Constants shared by the whole crate: the severity / confidence ranking,
//! the score criteria and the default file patterns.

use vstd::prelude::*;
use crate::text::str_eq;

verus! {

/// Severity / confidence ranking, in `RANKING` order.
#[derive(Debug, Clone, Copy, PartialEq, Eq, Structural, PartialOrd, Ord, Hash, Default)]
pub enum Rank {
    #[default]
    Undefined,
    Low,
    Medium,
    High,
}

/// Position of a rank in `RANKING`.
pub open spec fn rank_index(r: Rank) -> nat {
    match r {
        Rank::Undefined => 0,
        Rank::Low => 1,
        Rank::Medium => 2,
        Rank::High => 3,
    }
}

/// The rank at position `i` of `RANKING`, if any.
pub open spec fn rank_at(i: int) -> Option<Rank> {
    if i == 0 {
        Some(Rank::Undefined)
    } else if i == 1 {
        Some(Rank::Low)
    } else if i == 2 {
        Some(Rank::Medium)
    } else if i == 3 {
        Some(Rank::High)
    } else {
        None
    }
}

/// Upper-case name of a rank (`RANKING[i]`).
pub open spec fn rank_name(r: Rank) -> Seq<char> {
    match r {
        Rank::Undefined => "UNDEFINED"@,
        Rank::Low => "LOW"@,
        Rank::Medium => "MEDIUM"@,
        Rank::High => "HIGH"@,
    }
}

/// Capitalised name of a rank.
pub open spec fn rank_capitalized(r: Rank) -> Seq<char> {
    match r {
        Rank::Undefined => "Undefined"@,
        Rank::Low => "Low"@,
        Rank::Medium => "Medium"@,
        Rank::High => "High"@,
    }
}

/// Lower-case name of a rank.
pub open spec fn rank_lower(r: Rank) -> Seq<char> {
    match r {
        Rank::Undefined => "undefined"@,
        Rank::Low => "low"@,
        Rank::Medium => "medium"@,
        Rank::High => "high"@,
    }
}

/// Score weight of a rank (`RANKING_VALUES`).
pub open spec fn rank_value(r: Rank) -> nat {
    match r {
        Rank::Undefined => 1,
        Rank::Low => 3,
        Rank::Medium => 5,
        Rank::High => 10,
    }
}

/// `RANKING.index(name)` as an option: the rank whose upper-case name is
/// exactly `s`.
pub open spec fn parse_rank(s: Seq<char>) -> Option<Rank> {
    if s == "UNDEFINED"@ {
        Some(Rank::Undefined)
    } else if s == "LOW"@ {
        Some(Rank::Low)
    } else if s == "MEDIUM"@ {
        Some(Rank::Medium)
    } else if s == "HIGH"@ {
        Some(Rank::High)
    } else {
        None
    }
}

/// `a >= b` in ranking order.
pub open spec fn rank_at_least(a: Rank, b: Rank) -> bool {
    rank_index(a) >= rank_index(b)
}

impl Rank {
    /// Upper-case name, e.g. `"MEDIUM"`.
    pub fn as_str(self) -> (r: &'static str)
        ensures
            r@ == rank_name(self),
    {
        match self {
            Rank::Undefined => "UNDEFINED",
            Rank::Low => "LOW",
            Rank::Medium => "MEDIUM",
            Rank::High => "HIGH",
        }
    }

    /// Capitalised name, e.g. `"Medium"`.
    pub fn capitalize(self) -> (r: &'static str)
        ensures
            r@ == rank_capitalized(self),
    {
        match self {
            Rank::Undefined => "Undefined",
            Rank::Low => "Low",
            Rank::Medium => "Medium",
            Rank::High => "High",
        }
    }

    /// Lower-case name, e.g. `"medium"`.
    pub fn lower(self) -> (r: &'static str)
        ensures
            r@ == rank_lower(self),
    {
        match self {
            Rank::Undefined => "undefined",
            Rank::Low => "low",
            Rank::Medium => "medium",
            Rank::High => "high",
        }
    }

    /// Weight used when accumulating scores.
    pub fn value(self) -> (r: u64)
        ensures
            r == rank_value(self),
    {
        match self {
            Rank::Undefined => 1,
            Rank::Low => 3,
            Rank::Medium => 5,
            Rank::High => 10,
        }
    }

    /// Index in `RANKING`.
    pub fn index(self) -> (r: usize)
        ensures
            r == rank_index(self),
    {
        match self {
            Rank::Undefined => 0,
            Rank::Low => 1,
            Rank::Medium => 2,
            Rank::High => 3,
        }
    }

    /// Inverse of [`Rank::index`].
    pub fn from_index(index: usize) -> (r: Option<Rank>)
        ensures
            r == rank_at(index as int),
    {
        match index {
            0 => Some(Rank::Undefined),
            1 => Some(Rank::Low),
            2 => Some(Rank::Medium),
            3 => Some(Rank::High),
            _ => None,
        }
    }

    /// Parses an upper-case rank name (exact match).
    pub fn parse(name: &str) -> (r: Option<Rank>)
        ensures
            r == parse_rank(name@),
    {
        if str_eq(name, "UNDEFINED") {
            Some(Rank::Undefined)
        } else if str_eq(name, "LOW") {
            Some(Rank::Low)
        } else if str_eq(name, "MEDIUM") {
            Some(Rank::Medium)
        } else if str_eq(name, "HIGH") {
            Some(Rank::High)
        } else {
            None
        }
    }

    /// All ranks, in `RANKING` order.
    pub fn all() -> (r: Vec<Rank>)
        ensures
            r@ == seq![Rank::Undefined, Rank::Low, Rank::Medium, Rank::High],
    {
        let v = vec![Rank::Undefined, Rank::Low, Rank::Medium, Rank::High];
        assert(v@ =~= seq![Rank::Undefined, Rank::Low, Rank::Medium, Rank::High]);
        v
    }

    /// Whether `self` ranks at least as high as `other`.
    pub fn at_least(self, other: Rank) -> (r: bool)
        ensures
            r == rank_at_least(self, other),
    {
        self.index() >= other.index()
    }
}

/// The names of the ranks are pairwise distinct.
pub proof fn lemma_rank_names_distinct()
    ensures
        "UNDEFINED"@ != "LOW"@,
        "UNDEFINED"@ != "MEDIUM"@,
        "UNDEFINED"@ != "HIGH"@,
        "LOW"@ != "MEDIUM"@,
        "LOW"@ != "HIGH"@,
        "MEDIUM"@ != "HIGH"@,
{
    reveal_strlit("UNDEFINED");
    reveal_strlit("LOW");
    reveal_strlit("MEDIUM");
    reveal_strlit("HIGH");
    assert("UNDEFINED"@[0] != "LOW"@[0]);
    assert("UNDEFINED"@[0] != "MEDIUM"@[0]);
    assert("UNDEFINED"@[0] != "HIGH"@[0]);
    assert("LOW"@[0] != "MEDIUM"@[0]);
    assert("LOW"@[0] != "HIGH"@[0]);
    assert("MEDIUM"@[0] != "HIGH"@[0]);
}

/// A rank's name parses back to the rank, and its index maps back to it;
/// every index below four is the index of a rank.
pub proof fn lemma_rank_roundtrip(r: Rank, i: int)
    ensures
        parse_rank(rank_name(r)) == Some(r),
        rank_at(rank_index(r) as int) == Some(r),
        rank_index(r) < 4,
        0 <= i < 4 ==> rank_at(i).is_some() && rank_index(rank_at(i).unwrap()) == i,
{
    lemma_rank_names_distinct();
}

/// Weights grow strictly with the rank.
pub proof fn lemma_rank_value_monotone(a: Rank, b: Rank)
    ensures
        rank_index(a) < rank_index(b) <==> rank_value(a) < rank_value(b),
        rank_value(a) >= 1,
{
}

/// `RANKING`.
pub fn ranking() -> (r: Vec<&'static str>)
    ensures
        r@.len() == 4,
        forall|i: int| 0 <= i < 4 ==> (#[trigger] r@[i])@ == rank_name(rank_at(i).unwrap()),
{
    vec!["UNDEFINED", "LOW", "MEDIUM", "HIGH"]
}

/// Name of the score criterion at position `i` of `CRITERIA`.
pub open spec fn criteria_name(i: int) -> Seq<char> {
    if i == 0 {
        "SEVERITY"@
    } else {
        "CONFIDENCE"@
    }
}

/// `CRITERIA`: the two score dimensions.
pub fn criteria() -> (r: Vec<&'static str>)
    ensures
        r@.len() == 2,
        r@[0]@ == criteria_name(0),
        r@[1]@ == criteria_name(1),
{
    vec!["SEVERITY", "CONFIDENCE"]
}

/// Documentation version segment of the `more_info` links.
pub const DOCS_VERSION: &'static str = "latest";

/// Version reported by `--version`.
pub const VERSION: &'static str = "0.2.0";

/// Author reported in SARIF output.
pub const AUTHOR: &'static str = "PyCQA";

/// Default plugin file name pattern.
pub const PLUGIN_NAME_PATTERN: &'static str = "*.py";

/// Default log format.
pub const LOG_FORMAT_STRING: &'static str = "[%(module)s]\t%(levelname)s\t%(message)s";

/// Number of files above which a progress bar is shown.
pub const PROGRESS_THRESHOLD: usize = 50;

/// Paths excluded by default.
pub fn exclude() -> (r: Vec<&'static str>)
    ensures
        r@.map_values(|s: &'static str| s@) == exclude_names(),
{
    let v = vec![".svn", "CVS", ".bzr", ".hg", ".git", "__pycache__", ".tox", ".eggs", "*.egg"];
    assert(v@.map_values(|s: &'static str| s@) =~= exclude_names());
    v
}

/// The paths left out of a scan by default.
pub open spec fn exclude_names() -> Seq<Seq<char>> {
    seq![".svn"@, "CVS"@, ".bzr"@, ".hg"@, ".git"@, "__pycache__"@, ".tox"@, ".eggs"@, "*.egg"@]
}

} // verus!
