//! Source identifiers, spans over the characters of a source, and values
//! tagged with the span they were read from.
use internment::Intern;
use vstd::prelude::*;

verus! {

#[verifier::external_type_specification]
#[verifier::external_body]
#[verifier::reject_recursive_types(T)]
pub struct ExIntern<T: 'static + ?Sized>(Intern<T>);

/// What an interned path holds: its components, in order.
pub uninterp spec fn interned_parts(i: Intern<Vec<String>>) -> Seq<Seq<char>>;

/// The components that `std::path::Path` splits a path into.
pub uninterp spec fn path_components(path: Seq<char>) -> Seq<Seq<char>>;

/// Calls `internment::Intern::new`, which stores the value once and hands
/// out a shared handle to it: the handle holds the value it was made from,
/// and a value equal to one stored before gets the handle of that one, so
/// a handle holding the same value is this handle.
#[verifier::external_body]
fn intern_parts(parts: Vec<String>) -> (r: Intern<Vec<String>>)
    ensures
        interned_parts(r) == parts.deep_view(),
        forall|h: Intern<Vec<String>>| #[trigger] interned_parts(h) == parts.deep_view() ==> h == r,
{
    Intern::new(parts)
}

/// Calls `Intern::as_ref`, which gives back the value the handle holds.
#[verifier::external_body]
fn interned_value(i: &Intern<Vec<String>>) -> (r: &Vec<String>)
    ensures
        r.deep_view() == interned_parts(*i),
{
    i.as_ref()
}

/// Splits a path with `std::path::Path::iter`, each component converted
/// with `to_string_lossy`. The result depends on the path alone; nothing
/// more of it is stated.
#[verifier::external_body]
fn split_path(path: &str) -> (r: Vec<String>)
    ensures
        r.deep_view() == path_components(path@),
{
    std::path::Path::new(path).iter().map(|c| c.to_string_lossy().into_owned()).collect()
}

/// Identifies the source file a span points into: the components of its path.
#[derive(Clone, Copy, PartialEq, Eq, Hash, Debug)]
pub struct SrcId(Intern<Vec<String>>);

/// The components of a path joined by `/`.
pub open spec fn join_parts(parts: Seq<Seq<char>>) -> Seq<char>
    decreases parts.len(),
{
    if parts.len() == 0 {
        Seq::empty()
    } else if parts.len() == 1 {
        parts[0]
    } else {
        join_parts(parts.drop_last()) + seq!['/'] + parts.last()
    }
}

impl SrcId {
    /// The path components this source id was made from.
    pub closed spec fn parts(self) -> Seq<Seq<char>> {
        interned_parts(self.0)
    }

    /// The source id of the file at `path`; ids are equal exactly when
    /// their path components are.
    pub fn from_path(path: &str) -> (r: SrcId)
        ensures
            r.parts() == path_components(path@),
            forall|o: SrcId| #[trigger] o.parts() == r.parts() ==> o == r,
    {
        SrcId(intern_parts(split_path(path)))
    }

    /// A source id with no path, for values that come from no file.
    pub fn any() -> (r: SrcId)
        ensures
            r.parts() == Seq::<Seq<char>>::empty(),
            forall|o: SrcId| #[trigger] o.parts() == r.parts() ==> o == r,
    {
        let v: Vec<String> = Vec::new();
        let r = SrcId(intern_parts(v));
        assert(r.parts() =~= Seq::<Seq<char>>::empty());
        r
    }

    /// How the source id is printed: `unknown` when it has no path,
    /// else its components joined by `/`.
    pub fn display(&self) -> (r: String)
        ensures
            r@ == (if self.parts().len() == 0 {
                seq!['u', 'n', 'k', 'n', 'o', 'w', 'n']
            } else {
                join_parts(self.parts())
            }),
    {
        let parts = interned_value(&self.0);
        if parts.len() == 0 {
            let r = String::from_str("unknown");
            proof {
                reveal_strlit("unknown");
            }
            return r;
        }
        let mut r = parts[0].clone();
        let mut k: usize = 1;
        proof {
            assert(parts.deep_view().take(1) =~= seq![parts.deep_view()[0]]);
        }
        while k < parts.len()
            invariant
                1 <= k <= parts.len(),
                parts.deep_view() == self.parts(),
                r@ == join_parts(parts.deep_view().take(k as int)),
            decreases parts.len() - k,
        {
            r.append("/");
            r.append(parts[k].as_str());
            proof {
                reveal_strlit("/");
                let d = parts.deep_view();
                assert(d.take(k + 1).drop_last() =~= d.take(k as int));
                assert(d[k as int] == parts[k as int]@);
            }
            k = k + 1;
        }
        proof {
            assert(parts.deep_view().take(k as int) =~= parts.deep_view());
        }
        r
    }
}

/// A range of character positions, `start..end`, in one source.
#[derive(Clone, Copy, PartialEq, Eq, Hash, Debug)]
pub struct Span {
    pub src: SrcId,
    pub start: usize,
    pub end: usize,
}

pub open spec fn min_pos(a: usize, b: usize) -> usize {
    if a <= b { a } else { b }
}

pub open spec fn max_pos(a: usize, b: usize) -> usize {
    if a <= b { b } else { a }
}

impl Span {
    /// A span never ends before it starts.
    pub open spec fn wf(self) -> bool {
        self.start <= self.end
    }

    /// The span that encloses both `self` and `other`.
    pub open spec fn spec_union(self, other: Span) -> Span {
        Span {
            src: self.src,
            start: min_pos(self.start, other.start),
            end: max_pos(self.end, other.end),
        }
    }

    /// The span `start..end` in `src`.
    pub fn new(src: SrcId, start: usize, end: usize) -> (r: Span)
        requires
            start <= end,
        ensures
            r == (Span { src, start, end }),
    {
        Span { src, start, end }
    }

    /// The source the span points into.
    pub fn src(&self) -> (r: SrcId)
        ensures
            r == self.src,
    {
        self.src
    }

    /// The first position of the span.
    pub fn start(&self) -> (r: usize)
        ensures
            r == self.start,
    {
        self.start
    }

    /// The position just after the span.
    pub fn end(&self) -> (r: usize)
        ensures
            r == self.end,
    {
        self.end
    }

    /// The positions of the span as a range.
    pub fn range(&self) -> (r: std::ops::Range<usize>)
        ensures
            r.start == self.start,
            r.end == self.end,
    {
        self.start..self.end
    }

    /// Returns a `Span` that encloses both `self` and `other`; both must
    /// point into the same source.
    pub fn union(self, other: Span) -> (r: Span)
        requires
            self.src == other.src,
        ensures
            r == self.spec_union(other),
            self.wf() && other.wf() ==> r.wf(),
    {
        let start = if self.start <= other.start { self.start } else { other.start };
        let end = if self.end <= other.end { other.end } else { self.end };
        Span { src: self.src, start, end }
    }

    /// An empty span in no source, for values that come from no file.
    pub fn any() -> (r: Span)
        ensures
            r.src.parts() == Seq::<Seq<char>>::empty(),
            r.start == 0,
            r.end == 0,
    {
        Span::new(SrcId::any(), 0, 0)
    }
}

/// The union of two spans encloses both of them.
pub proof fn law_union_encloses(a: Span, b: Span)
    requires
        a.src == b.src,
        a.wf(),
        b.wf(),
    ensures
        a.spec_union(b).start <= a.start,
        a.spec_union(b).start <= b.start,
        a.spec_union(b).end >= a.end,
        a.spec_union(b).end >= b.end,
        a.spec_union(b).wf(),
{
}

/// Taking the union of spans is commutative.
pub proof fn law_union_commutative(a: Span, b: Span)
    requires
        a.src == b.src,
    ensures
        a.spec_union(b) == b.spec_union(a),
{
}

/// Taking the union of spans is associative.
pub proof fn law_union_associative(a: Span, b: Span, c: Span)
    requires
        a.src == b.src,
        b.src == c.src,
    ensures
        a.spec_union(b).spec_union(c) == a.spec_union(b.spec_union(c)),
{
}

/// The union of a span with itself is that span.
pub proof fn law_union_idempotent(a: Span)
    ensures
        a.spec_union(a) == a,
{
}

/// A value together with the span of the source it was read from.
#[derive(Clone, Debug)]
pub struct Spanned<T> {
    pub value: Box<T>,
    pub span: Span,
}

impl<T> Spanned<T> {
    pub fn new(value: T, span: Span) -> (r: Spanned<T>)
        ensures
            *r.value == value,
            r.span == span,
    {
        Spanned { value: Box::new(value), span }
    }

    /// A reference to the inner value.
    pub fn value(&self) -> (r: &T)
        ensures
            *r == *self.value,
    {
        &self.value
    }

    /// A value with an empty span in no source, for values that come from no file.
    pub fn any(value: T) -> (r: Spanned<T>)
        ensures
            *r.value == value,
            r.span.src.parts() == Seq::<Seq<char>>::empty(),
            r.span.start == 0,
            r.span.end == 0,
    {
        Spanned::new(value, Span::any())
    }
}

} // verus!
