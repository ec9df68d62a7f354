//! Source ranges and the marks that point at them.

use vstd::prelude::*;

verus! {

/// A half-open range `start..end` of a source file, counted in characters,
/// with the line and column (both counted from 1) at which it starts.
#[derive(Clone, Copy, Debug, PartialEq, Eq)]
pub struct Span {
    pub filename: &'static str,
    pub start: usize,
    pub end: usize,
    pub line_number: usize,
    pub column: usize,
}

/// How one character of a rendered line is marked.
#[derive(Clone, Copy, Debug, PartialEq, Eq)]
pub enum HighlightKind {
    /// No mark.
    Empty,
    /// The source character at this place is pointed at.
    Caret,
    /// A character that the source does not hold is shown at this place.
    Phantom(char),
}

/// A value together with the source range it was read from.
#[derive(Clone, Copy, Debug, PartialEq, Eq)]
pub struct Sp<T> {
    pub elem: T,
    pub span: Span,
}

impl Span {
    /// The range is not reversed, and line and column are counted from 1.
    pub open spec fn wf(self) -> bool {
        &&& self.start <= self.end
        &&& self.line_number >= 1
        &&& self.column >= 1
    }

    /// The least range that covers both `self` and `other`. File, line and
    /// column are those of the range that starts first (`self` on a tie).
    pub open spec fn spec_extend(self, other: Span) -> Span {
        let first = if other.start < self.start { other } else { self };
        Span {
            filename: self.filename,
            start: first.start,
            end: if self.end < other.end { other.end } else { self.end },
            line_number: first.line_number,
            column: first.column,
        }
    }

    /// Number of unmarked places before the first caret of `spec_mask`.
    pub open spec fn mask_pad(self) -> nat {
        if self.column >= 1 { (self.column - 1) as nat } else { 0 }
    }

    /// Number of carets asked for by the range.
    pub open spec fn mask_carets(self) -> nat {
        if self.start <= self.end { (self.end - self.start) as nat } else { 0 }
    }

    /// Length of `spec_mask`: padding and carets, cut off at the longest
    /// length a vector can be given.
    pub open spec fn mask_len(self) -> nat {
        if self.mask_pad() + self.mask_carets() <= usize::MAX {
            self.mask_pad() + self.mask_carets()
        } else {
            usize::MAX as nat
        }
    }

    /// The marks of a range on its first line: nothing up to its column,
    /// then one caret for each character of the range.
    pub open spec fn spec_mask(self) -> Seq<HighlightKind> {
        Seq::new(
            self.mask_len(),
            |i: int| if i < self.mask_pad() { HighlightKind::Empty } else { HighlightKind::Caret },
        )
    }

    /// The range `start..end` of `filename`, which starts in the given
    /// line and column.
    pub fn new(
        filename: &'static str,
        start: usize,
        end: usize,
        line_number: usize,
        column: usize,
    ) -> (r: Span)
        ensures
            r == (Span { filename, start, end, line_number, column }),
    {
        Span { filename, start, end, line_number, column }
    }

    /// The least range that covers both `self` and `other`.
    pub fn extend(&self, other: &Span) -> (r: Span)
        ensures
            r == self.spec_extend(*other),
    {
        let first = if other.start < self.start { *other } else { *self };
        Span {
            filename: self.filename,
            start: first.start,
            end: if self.end < other.end { other.end } else { self.end },
            line_number: first.line_number,
            column: first.column,
        }
    }

    /// Number of characters in the range, 0 for a reversed one.
    pub fn len(&self) -> (r: usize)
        ensures
            r == self.mask_carets(),
    {
        if self.start <= self.end { self.end - self.start } else { 0 }
    }

    /// The marks of the range on its first line: nothing up to its column,
    /// then a caret for each of its characters.
    pub fn mask(&self) -> (r: Vec<HighlightKind>)
        ensures
            r@ == self.spec_mask(),
    {
        let pad: usize = if self.column >= 1 { self.column - 1 } else { 0 };
        let carets: usize = self.len();
        let total: usize = if carets <= usize::MAX - pad { pad + carets } else { usize::MAX };
        let mut mask: Vec<HighlightKind> = Vec::new();
        let mut i: usize = 0;
        while i < total
            invariant
                i <= total,
                total == self.mask_len(),
                pad == self.mask_pad(),
                mask@ == Seq::new(
                    i as nat,
                    |k: int| if k < pad { HighlightKind::Empty } else { HighlightKind::Caret },
                ),
            decreases total - i,
        {
            mask.push(if i < pad { HighlightKind::Empty } else { HighlightKind::Caret });
            i += 1;
        }
        mask
    }
}

impl<T> Sp<T> {
    /// `elem` as read from `span`.
    pub fn new(elem: T, span: Span) -> (r: Sp<T>)
        ensures
            r == (Sp { elem, span }),
    {
        Sp { elem, span }
    }
}

/// The marks of two masks laid over each other. A mark of `a` stays; where
/// `a` has none, the mark of `b` shows through.
pub open spec fn spec_combine(a: Seq<HighlightKind>, b: Seq<HighlightKind>) -> Seq<HighlightKind> {
    Seq::new(
        if a.len() >= b.len() { a.len() } else { b.len() },
        |i: int|
            if i < a.len() && a[i] != HighlightKind::Empty {
                a[i]
            } else if i < b.len() {
                b[i]
            } else {
                HighlightKind::Empty
            },
    )
}

/// The marks of two masks laid over each other: a mark of `a` stays, and
/// where `a` has none the mark of `b` shows through.
pub fn combine(a: Vec<HighlightKind>, b: Vec<HighlightKind>) -> (r: Vec<HighlightKind>)
    ensures
        r@ == spec_combine(a@, b@),
{
    let n: usize = if a.len() >= b.len() { a.len() } else { b.len() };
    let mut out: Vec<HighlightKind> = Vec::new();
    let mut i: usize = 0;
    while i < n
        invariant
            i <= n,
            n == spec_combine(a@, b@).len(),
            out@ == spec_combine(a@, b@).take(i as int),
        decreases n - i,
    {
        let from_a: bool = i < a.len() && !matches!(a[i], HighlightKind::Empty);
        let mark = if from_a {
            a[i]
        } else if i < b.len() {
            b[i]
        } else {
            HighlightKind::Empty
        };
        out.push(mark);
        i += 1;
        assert(out@ =~= spec_combine(a@, b@).take(i as int));
    }
    assert(out@ =~= spec_combine(a@, b@));
    out
}

/// Extending keeps ranges well formed.
pub proof fn lemma_extend_wf(a: Span, b: Span)
    requires
        a.wf(),
        b.wf(),
    ensures
        a.spec_extend(b).wf(),
        a.spec_extend(b).start <= a.start,
        a.spec_extend(b).start <= b.start,
        a.spec_extend(b).end >= a.end,
        a.spec_extend(b).end >= b.end,
        a.spec_extend(b).start == a.start || a.spec_extend(b).start == b.start,
        a.spec_extend(b).end == a.end || a.spec_extend(b).end == b.end,
{
}

/// Extending is associative: three ranges cover the same range however
/// they are grouped.
pub proof fn lemma_extend_associative(a: Span, b: Span, c: Span)
    ensures
        a.spec_extend(b).spec_extend(c) == a.spec_extend(b.spec_extend(c)),
{
}

/// Combining never loses a mark: a mark of either mask shows in the result
/// unless a mark of the first mask already stands at its place.
pub proof fn lemma_combine_keeps_marks(a: Seq<HighlightKind>, b: Seq<HighlightKind>, i: int)
    requires
        0 <= i,
    ensures
        i < a.len() && a[i] != HighlightKind::Empty ==> spec_combine(a, b)[i] == a[i],
        i < b.len() && b[i] != HighlightKind::Empty ==> spec_combine(a, b)[i]
            != HighlightKind::Empty,
        spec_combine(a, Seq::empty()) == a,
        spec_combine(Seq::empty(), b) == b,
{
    assert(spec_combine(a, Seq::empty()) =~= a);
    assert(spec_combine(Seq::empty(), b) =~= b);
}

} // verus!
