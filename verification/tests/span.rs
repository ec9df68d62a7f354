use sharc::span::{combine, HighlightKind, Sp, Span};

use HighlightKind::{Caret, Empty, Phantom};

#[test]
fn extending_covers_both_ranges() {
    let a = Span::new("a.shd", 10, 14, 2, 3);
    let b = Span::new("b.shd", 4, 12, 1, 5);
    let c = Span::new("c.shd", 20, 30, 3, 1);
    assert_eq!(a.extend(&b), Span::new("a.shd", 4, 14, 1, 5));
    assert_eq!(b.extend(&a), Span::new("b.shd", 4, 14, 1, 5));
    assert_eq!(a.extend(&c), Span::new("a.shd", 10, 30, 2, 3));
    assert_eq!(a.extend(&a), a);
    assert_eq!(a.extend(&b).extend(&c), a.extend(&b.extend(&c)));
    assert_eq!(c.extend(&a).extend(&b), c.extend(&a.extend(&b)));
    let tie = Span::new("t.shd", 10, 11, 9, 9);
    assert_eq!(a.extend(&tie), a);
    assert_eq!(tie.extend(&a), Span::new("t.shd", 10, 14, 9, 9));
}

#[test]
fn the_mask_of_a_range() {
    assert_eq!(Span::new("a", 7, 10, 1, 3).mask(), vec![Empty, Empty, Caret, Caret, Caret]);
    assert_eq!(Span::new("a", 7, 7, 1, 1).mask(), Vec::<HighlightKind>::new());
    assert_eq!(Span::new("a", 7, 7, 1, 2).mask(), vec![Empty]);
    assert_eq!(Span::new("a", 9, 7, 1, 2).mask(), vec![Empty]);
    assert_eq!(Span::new("a", 0, 2, 1, 0).mask(), vec![Caret, Caret]);
    assert_eq!(Span::new("a", 7, 10, 1, 3).len(), 3);
    assert_eq!(Span::new("a", 10, 7, 1, 3).len(), 0);
}

#[test]
fn combining_keeps_every_mark() {
    assert_eq!(
        combine(vec![Empty, Caret, Empty], vec![Caret, Phantom('x'), Empty, Phantom('y')]),
        vec![Caret, Caret, Empty, Phantom('y')]
    );
    assert_eq!(combine(vec![Phantom('a')], vec![Caret]), vec![Phantom('a')]);
    assert_eq!(combine(Vec::new(), vec![Caret, Empty]), vec![Caret, Empty]);
    assert_eq!(combine(vec![Empty, Caret], Vec::new()), vec![Empty, Caret]);
    assert_eq!(combine(Vec::new(), Vec::new()), Vec::<HighlightKind>::new());
    assert_eq!(combine(vec![Caret, Caret, Caret], vec![Empty]), vec![Caret, Caret, Caret]);
}

#[test]
fn a_value_with_its_span() {
    let span = Span::new("a.shd", 1, 2, 1, 2);
    let sp = Sp::new("name", span);
    assert_eq!(sp.elem, "name");
    assert_eq!(sp.span, span);
    assert_eq!(span.filename, "a.shd");
    assert_eq!((span.start, span.end, span.line_number, span.column), (1, 2, 1, 2));
}
