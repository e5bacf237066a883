//! CPython's view of f-strings and t-strings: `JoinedStr.values`
//! alternates constants and formatted values, adjacent literal segments
//! merged into one constant (also across implicitly concatenated parts)
//! and empty segments dropped.

use vstd::prelude::*;
use crate::ast::PyCompat;
use crate::text::{copy_string, push_str};

verus! {

/// A span of the source, in bytes.
#[derive(Debug, Clone, Copy, PartialEq, Eq, Structural)]
pub struct Span {
    pub start: u32,
    pub end: u32,
}

/// An element of an f-string, t-string or format spec: literal text, or
/// an interpolation with its `=` debug text (and that text's span) and its
/// format spec.
#[derive(Debug)]
pub enum FElement {
    Literal { text: String, range: Span },
    Interpolation { range: Span, debug: Option<(String, Span)>, spec: Option<FormatSpec> },
}

/// The format spec of an interpolation.
#[derive(Debug)]
pub struct FormatSpec {
    pub range: Span,
    pub elements: Vec<FElement>,
}

/// A part of an implicitly concatenated f-string expression.
#[derive(Debug)]
pub enum FStringPart {
    Literal { text: String, range: Span },
    FString { elements: Vec<FElement>, range: Span },
}

/// A part of a t-string expression.
#[derive(Debug)]
pub struct TStringPart {
    pub elements: Vec<FElement>,
    pub range: Span,
}

/// What a view was built from.
#[derive(Debug, Clone, Copy, PartialEq, Eq, Structural)]
pub enum ViewOwner {
    FString,
    TString,
    Spec,
}

/// One value of the joined string.
#[derive(Debug)]
pub enum JoinedPart {
    /// Merged literal segments.
    Constant { text: String, range: Span },
    /// A formatted value (interpolation) and the view of its format spec.
    Formatted { range: Span, spec: Option<Box<JoinedStrView>> },
}

/// The merged view of a joined string.
#[derive(Debug)]
pub struct JoinedStrView {
    pub owner: ViewOwner,
    /// CPython's range of the joined string node itself.
    pub range: Span,
    pub values: Vec<JoinedPart>,
}

/// A value of a view, by its text.
pub enum PartModel {
    Constant(Seq<char>, Span),
    Formatted(Span, Option<ViewModel>),
}

/// A view, by the text of its values.
pub struct ViewModel {
    pub owner: ViewOwner,
    pub range: Span,
    pub values: Seq<PartModel>,
}

/// The text of a value.
pub open spec fn part_view(p: JoinedPart) -> PartModel
    decreases p,
{
    match p {
        JoinedPart::Constant { text, range } => PartModel::Constant(text@, range),
        JoinedPart::Formatted { range, spec } => PartModel::Formatted(
            range,
            match spec {
                Some(b) => Some(view_model(*b)),
                None => None,
            },
        ),
    }
}

/// The text of a view.
pub open spec fn view_model(v: JoinedStrView) -> ViewModel
    decreases v,
{
    ViewModel { owner: v.owner, range: v.range, values: parts_view(v.values@) }
}

/// The text of a list of values.
pub open spec fn parts_view(s: Seq<JoinedPart>) -> Seq<PartModel>
    decreases s,
{
    if s.len() == 0 {
        Seq::empty()
    } else {
        parts_view(s.drop_last()).push(part_view(s.last()))
    }
}

/// The state of a build: the values so far and the literal text not yet
/// turned into a constant.
pub struct BuildModel {
    pub values: Seq<PartModel>,
    pub pending: Option<(Seq<char>, Span)>,
}

/// The state of a build that has not started.
pub open spec fn start_state() -> BuildModel {
    BuildModel { values: Seq::empty(), pending: None }
}

/// Adding literal text: empty text is dropped; other text joins the
/// pending text, whose span then ends where the new text ends.
pub open spec fn lit_step(st: BuildModel, text: Seq<char>, range: Span) -> BuildModel {
    if text.len() == 0 {
        st
    } else {
        match st.pending {
            Some(p) => BuildModel { values: st.values, pending: Some((p.0 + text, Span { start: p.1.start, end: range.end })) },
            None => BuildModel { values: st.values, pending: Some((text, range)) },
        }
    }
}

/// The pending text, if any, becomes a constant.
pub open spec fn flushed(st: BuildModel) -> BuildModel {
    match st.pending {
        Some(p) => BuildModel { values: st.values.push(PartModel::Constant(p.0, p.1)), pending: None },
        None => st,
    }
}

/// A value with its span replaced.
pub open spec fn with_range(p: PartModel, r: Span) -> PartModel {
    match p {
        PartModel::Constant(t, _) => PartModel::Constant(t, r),
        PartModel::Formatted(_, s) => PartModel::Formatted(r, s),
    }
}

/// The position policy: under 3.11 every value takes the span of the
/// whole joined string.
pub open spec fn finished(values: Seq<PartModel>, compat: PyCompat, whole: Span) -> Seq<PartModel> {
    if compat == PyCompat::Py311 {
        values.map_values(|p: PartModel| with_range(p, whole))
    } else {
        values
    }
}

/// The build after the elements `es` of a part spanning `part_range`.
pub open spec fn elements_step(st: BuildModel, es: Seq<FElement>, part_range: Span, compat: PyCompat) -> BuildModel
    decreases es,
{
    if es.len() == 0 {
        st
    } else {
        element_step(elements_step(st, es.drop_last(), part_range, compat), es.last(), part_range, compat)
    }
}

/// The build after one element: literal text is added; an interpolation
/// adds its debug text, ends the pending constant, and becomes a formatted
/// value with the view of its format spec.
pub open spec fn element_step(st: BuildModel, e: FElement, part_range: Span, compat: PyCompat) -> BuildModel
    decreases e,
{
    match e {
        FElement::Literal { text, range } => lit_step(st, text@, range),
        FElement::Interpolation { range, debug, spec } => {
            let st1 = match debug {
                Some(d) => lit_step(st, d.0@, d.1),
                None => st,
            };
            let st2 = flushed(st1);
            BuildModel {
                values: st2.values.push(
                    PartModel::Formatted(
                        range,
                        match spec {
                            Some(s) => Some(spec_view(s, part_range, compat)),
                            None => None,
                        },
                    ),
                ),
                pending: None,
            }
        },
    }
}

/// The view of a format spec: its elements merged like a string's; its
/// span is the enclosing part's under 3.11, its own under 3.12.
pub open spec fn spec_view(s: FormatSpec, part_range: Span, compat: PyCompat) -> ViewModel
    decreases s,
{
    let spec_range = if compat == PyCompat::Py311 { part_range } else { s.range };
    ViewModel {
        owner: ViewOwner::Spec,
        range: spec_range,
        values: finished(flushed(elements_step(start_state(), s.elements@, part_range, compat)).values, compat, spec_range),
    }
}

/// The build after the parts of an f-string expression.
pub open spec fn fstring_step(st: BuildModel, parts: Seq<FStringPart>, compat: PyCompat) -> BuildModel
    decreases parts.len(),
{
    if parts.len() == 0 {
        st
    } else {
        let prev = fstring_step(st, parts.drop_last(), compat);
        match parts.last() {
            FStringPart::Literal { text, range } => lit_step(prev, text@, range),
            FStringPart::FString { elements, range } => elements_step(prev, elements@, range, compat),
        }
    }
}

/// The build after the parts of a t-string expression.
pub open spec fn tstring_step(st: BuildModel, parts: Seq<TStringPart>, compat: PyCompat) -> BuildModel
    decreases parts.len(),
{
    if parts.len() == 0 {
        st
    } else {
        elements_step(tstring_step(st, parts.drop_last(), compat), parts.last().elements@, parts.last().range, compat)
    }
}

/// A view of an expression spanning `range` whose build ended in `st`.
pub open spec fn expr_view(owner: ViewOwner, st: BuildModel, range: Span, compat: PyCompat) -> ViewModel {
    ViewModel { owner, range, values: finished(flushed(st).values, compat, range) }
}

/// The values of a view and the literal text pending while it is built.
struct Builder {
    compat: PyCompat,
    values: Vec<JoinedPart>,
    pending: Option<(String, Span)>,
}

/// The state of a builder, by text.
spec fn builder_model(b: Builder) -> BuildModel {
    BuildModel {
        values: parts_view(b.values@),
        pending: match b.pending {
            Some(p) => Some((p.0@, p.1)),
            None => None,
        },
    }
}

proof fn lemma_parts_view_push(s: Seq<JoinedPart>, p: JoinedPart)
    ensures
        parts_view(s.push(p)) == parts_view(s).push(part_view(p)),
{
    assert(s.push(p).drop_last() =~= s);
}

impl Builder {
    fn new(compat: PyCompat) -> (r: Builder)
        ensures
            builder_model(r) == start_state(),
            r.compat == compat,
    {
        let b = Builder { compat, values: Vec::new(), pending: None };
        assert(parts_view(b.values@) =~= Seq::<PartModel>::empty());
        b
    }

    /// Adds literal text.
    fn literal(&mut self, text: &str, range: Span)
        ensures
            builder_model(*final(self)) == lit_step(builder_model(*old(self)), text@, range),
            final(self).compat == old(self).compat,
    {
        if text.unicode_len() == 0 {
            return;
        }
        match self.pending.take() {
            Some((mut buf, r)) => {
                push_str(&mut buf, text);
                self.pending = Some((buf, Span { start: r.start, end: range.end }));
            },
            None => {
                self.pending = Some((copy_string_of(text), range));
            },
        }
    }

    /// Ends the pending constant.
    fn flush(&mut self)
        ensures
            builder_model(*final(self)) == flushed(builder_model(*old(self))),
            final(self).compat == old(self).compat,
    {
        match self.pending.take() {
            Some((text, range)) => {
                let ghost before = self.values@;
                let part = JoinedPart::Constant { text, range };
                proof {
                    lemma_parts_view_push(before, part);
                }
                self.values.push(part);
            },
            None => {},
        }
    }

    /// Adds the elements of a part spanning `part_range`.
    fn elements(&mut self, elements: &Vec<FElement>, part_range: Span)
        ensures
            builder_model(*final(self)) == elements_step(builder_model(*old(self)), elements@, part_range, old(self).compat),
            final(self).compat == old(self).compat,
        decreases elements@, 2nat,
    {
        let mut i: usize = 0;
        assert(elements@.subrange(0, 0) =~= Seq::<FElement>::empty());
        while i < elements.len()
            invariant
                i <= elements@.len(),
                self.compat == old(self).compat,
                builder_model(*self) == elements_step(
                    builder_model(*old(self)),
                    elements@.subrange(0, i as int),
                    part_range,
                    old(self).compat,
                ),
            decreases elements@.len() - i,
        {
            let ghost u = elements@.subrange(0, i + 1);
            assert(u.drop_last() =~= elements@.subrange(0, i as int));
            assert(u.last() == elements@[i as int]);
            proof {
                assert(decreases_to!(elements@ => elements@[i as int]));
            }
            self.element(&elements[i], part_range, Ghost(elements@));
            i = i + 1;
        }
        assert(elements@.subrange(0, elements@.len() as int) =~= elements@);
    }

    /// Adds one element of `whole`.
    fn element(&mut self, e: &FElement, part_range: Span, Ghost(whole): Ghost<Seq<FElement>>)
        requires
            decreases_to!(whole => *e),
        ensures
            builder_model(*final(self)) == element_step(builder_model(*old(self)), *e, part_range, old(self).compat),
            final(self).compat == old(self).compat,
        decreases whole, 1nat,
    {
        match e {
            FElement::Literal { text, range } => self.literal(text.as_str(), *range),
            FElement::Interpolation { range, debug, spec } => {
                match debug {
                    Some((t, r)) => self.literal(t.as_str(), *r),
                    None => {},
                }
                self.flush();
                let view = match spec {
                    Some(s) => {
                        proof {
                            assert(decreases_to!(*e => (*e)->Interpolation_spec));
                            assert(decreases_to!((*e)->Interpolation_spec => (*e)->Interpolation_spec->0));
                            assert(decreases_to!(whole => *s));
                        }
                        Some(Box::new(build_spec(s, part_range, self.compat)))
                    },
                    None => None,
                };
                let ghost before = self.values@;
                let part = JoinedPart::Formatted { range: *range, spec: view };
                proof {
                    lemma_parts_view_push(before, part);
                }
                self.values.push(part);
            },
        }
    }
}

/// A copy of a string slice.
fn copy_string_of(s: &str) -> (r: String)
    ensures
        r@ == s@,
{
    crate::text::to_owned_string(s)
}

/// Applies the position policy to a view spanning `whole`.
fn finish(view: JoinedStrView, compat: PyCompat, whole: Span) -> (r: JoinedStrView)
    ensures
        r.owner == view.owner,
        r.range == view.range,
        parts_view(r.values@) == finished(parts_view(view.values@), compat, whole),
{
    if compat != PyCompat::Py311 {
        return view;
    }
    let JoinedStrView { owner, range, values } = view;
    let ghost all = values@;
    let mut rest = values;
    let mut out: Vec<JoinedPart> = Vec::new();
    let mut k: usize = 0;
    let n = rest.len();
    assert(parts_view(out@) =~= Seq::<PartModel>::empty());
    while rest.len() > 0
        invariant
            n == all.len(),
            k <= n,
            rest@ == all.skip(k as int),
            parts_view(out@) =~= parts_view(all.subrange(0, k as int)).map_values(|p: PartModel| with_range(p, whole)),
        decreases rest@.len(),
    {
        assert(k < n);
        let p = rest.remove(0);
        assert(p == all[k as int]);
        assert(all.skip(k as int).skip(1) =~= all.skip(k + 1));
        let q = match p {
            JoinedPart::Constant { text, range: _ } => JoinedPart::Constant { text, range: whole },
            JoinedPart::Formatted { range: _, spec } => JoinedPart::Formatted { range: whole, spec },
        };
        let ghost before = out@;
        proof {
            lemma_parts_view_push(before, q);
            let cur = all.subrange(0, k + 1);
            assert(cur.drop_last() =~= all.subrange(0, k as int));
            assert(parts_view(cur) == parts_view(all.subrange(0, k as int)).push(part_view(all[k as int])));
            assert(part_view(q) == with_range(part_view(all[k as int]), whole));
        }
        out.push(q);
        k = k + 1;
    }
    assert(all.subrange(0, n as int) =~= all);
    JoinedStrView { owner, range, values: out }
}

/// The view of a format spec.
fn build_spec(s: &FormatSpec, part_range: Span, compat: PyCompat) -> (r: JoinedStrView)
    ensures
        view_model(r) == spec_view(*s, part_range, compat),
    decreases *s, 0nat,
{
    proof {
        assert(decreases_to!(*s => s.elements));
        assert(decreases_to!(s.elements => s.elements@));
    }
    let spec_range = if compat == PyCompat::Py311 { part_range } else { s.range };
    let mut b = Builder::new(compat);
    b.elements(&s.elements, part_range);
    b.flush();
    let view = JoinedStrView { owner: ViewOwner::Spec, range: spec_range, values: b.values };
    finish(view, compat, spec_range)
}

impl JoinedStrView {
    /// The view of an f-string expression spanning `range`.
    pub fn build_fstring(parts: &Vec<FStringPart>, range: Span, compat: PyCompat) -> (r: JoinedStrView)
        ensures
            view_model(r) == expr_view(ViewOwner::FString, fstring_step(start_state(), parts@, compat), range, compat),
    {
        let mut b = Builder::new(compat);
        let mut i: usize = 0;
        assert(parts@.subrange(0, 0) =~= Seq::<FStringPart>::empty());
        while i < parts.len()
            invariant
                i <= parts@.len(),
                b.compat == compat,
                builder_model(b) == fstring_step(start_state(), parts@.subrange(0, i as int), compat),
            decreases parts@.len() - i,
        {
            let ghost u = parts@.subrange(0, i + 1);
            assert(u.drop_last() =~= parts@.subrange(0, i as int));
            assert(u.last() == parts@[i as int]);
            match &parts[i] {
                FStringPart::Literal { text, range: r } => b.literal(text.as_str(), *r),
                FStringPart::FString { elements, range: r } => b.elements(elements, *r),
            }
            i = i + 1;
        }
        assert(parts@.subrange(0, parts@.len() as int) =~= parts@);
        b.flush();
        let view = JoinedStrView { owner: ViewOwner::FString, range, values: b.values };
        finish(view, compat, range)
    }

    /// The view of a t-string expression spanning `range`.
    pub fn build_tstring(parts: &Vec<TStringPart>, range: Span, compat: PyCompat) -> (r: JoinedStrView)
        ensures
            view_model(r) == expr_view(ViewOwner::TString, tstring_step(start_state(), parts@, compat), range, compat),
    {
        let mut b = Builder::new(compat);
        let mut i: usize = 0;
        assert(parts@.subrange(0, 0) =~= Seq::<TStringPart>::empty());
        while i < parts.len()
            invariant
                i <= parts@.len(),
                b.compat == compat,
                builder_model(b) == tstring_step(start_state(), parts@.subrange(0, i as int), compat),
            decreases parts@.len() - i,
        {
            let ghost u = parts@.subrange(0, i + 1);
            assert(u.drop_last() =~= parts@.subrange(0, i as int));
            assert(u.last() == parts@[i as int]);
            b.elements(&parts[i].elements, parts[i].range);
            i = i + 1;
        }
        assert(parts@.subrange(0, parts@.len() as int) =~= parts@);
        b.flush();
        let view = JoinedStrView { owner: ViewOwner::TString, range, values: b.values };
        finish(view, compat, range)
    }

    /// Whether the view is of a t-string.
    pub fn is_template(&self) -> (r: bool)
        ensures
            r == (self.owner == ViewOwner::TString),
    {
        match self.owner {
            ViewOwner::TString => true,
            _ => false,
        }
    }

    /// The index of the first constant value, if any.
    pub fn first_constant_index(&self) -> (r: Option<u32>)
        requires
            self.values@.len() <= u32::MAX,
        ensures
            match r {
                Some(i) => i < self.values@.len() && self.values@[i as int] is Constant && forall|j: int|
                    0 <= j < i ==> !(#[trigger] self.values@[j] is Constant),
                None => forall|j: int| 0 <= j < self.values@.len() ==> !(#[trigger] self.values@[j] is Constant),
            },
    {
        let mut i: usize = 0;
        while i < self.values.len()
            invariant
                i <= self.values@.len(),
                self.values@.len() <= u32::MAX,
                forall|j: int| 0 <= j < i ==> !(#[trigger] self.values@[j] is Constant),
            decreases self.values@.len() - i,
        {
            if self.values[i].is_constant() {
                return Some(i as u32);
            }
            i = i + 1;
        }
        None
    }

    /// The constant values joined (`"".join(str(c.value) for c in
    /// substrings)`).
    pub fn constants_joined(&self) -> (r: String)
        ensures
            r@ == constants_text(self.values@),
    {
        let mut s = String::new();
        let mut i: usize = 0;
        assert(self.values@.subrange(0, 0) =~= Seq::<JoinedPart>::empty());
        while i < self.values.len()
            invariant
                i <= self.values@.len(),
                s@ == constants_text(self.values@.subrange(0, i as int)),
            decreases self.values@.len() - i,
        {
            let ghost u = self.values@.subrange(0, i + 1);
            assert(u.drop_last() =~= self.values@.subrange(0, i as int));
            assert(u.last() == self.values@[i as int]);
            match self.values[i].constant_text() {
                Some(t) => push_str(&mut s, t),
                None => {},
            }
            i = i + 1;
        }
        assert(self.values@.subrange(0, self.values@.len() as int) =~= self.values@);
        s
    }
}

/// The texts of the constant values, joined.
pub open spec fn constants_text(s: Seq<JoinedPart>) -> Seq<char>
    decreases s.len(),
{
    if s.len() == 0 {
        Seq::empty()
    } else {
        constants_text(s.drop_last()) + match s.last() {
            JoinedPart::Constant { text, .. } => text@,
            JoinedPart::Formatted { .. } => Seq::empty(),
        }
    }
}

impl JoinedPart {
    /// The span of the value.
    pub fn range(&self) -> (r: Span)
        ensures
            r == match *self {
                JoinedPart::Constant { range, .. } => range,
                JoinedPart::Formatted { range, .. } => range,
            },
    {
        match self {
            JoinedPart::Constant { range, .. } => *range,
            JoinedPart::Formatted { range, .. } => *range,
        }
    }

    /// The text of a constant value.
    pub fn constant_text(&self) -> (r: Option<&str>)
        ensures
            match *self {
                JoinedPart::Constant { text, .. } => r matches Some(t) && t@ == text@,
                JoinedPart::Formatted { .. } => r is None,
            },
    {
        match self {
            JoinedPart::Constant { text, .. } => Some(text.as_str()),
            JoinedPart::Formatted { .. } => None,
        }
    }

    /// Whether the value is a constant.
    pub fn is_constant(&self) -> (r: bool)
        ensures
            r == (*self is Constant),
    {
        match self {
            JoinedPart::Constant { .. } => true,
            JoinedPart::Formatted { .. } => false,
        }
    }
}

} // verus!
