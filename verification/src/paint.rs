//! Painting rendered pieces for a terminal. The escape codes come from the
//! `colored` crate, which decides by the environment of the process
//! whether it writes any: nothing is known here of a painted text but
//! that it was asked for.

use crate::render::{flat_text, pieces_view, Paint, Piece, PieceView};
use crate::report::Level;
use colored::{Color, ColoredString, Colorize};
use vstd::prelude::*;
use vstd::string::StringExecFns;

verus! {

/// `colored::ColoredString`: a text with the colour and style it is to be
/// written in.
#[verifier::external_type_specification]
#[verifier::external_body]
pub struct ExColoredString(ColoredString);

/// The colours that a report is painted in.
#[derive(Clone, Copy, Debug, PartialEq, Eq)]
pub enum Tint {
    Red,
    BrightRed,
    Yellow,
    BrightYellow,
    White,
    Green,
    Cyan,
    Magenta,
    BrightBlack,
}

/// A weight or slant added to a colour.
#[derive(Clone, Copy, Debug, PartialEq, Eq)]
pub enum Style {
    Regular,
    Bold,
    Dimmed,
    Italic,
}

/// `Colorize::color` of `colored`, on a string slice. Nothing is claimed
/// of the value that comes back.
#[verifier::external_body]
fn tinted(text: &str, tint: Tint) -> ColoredString {
    text.color(
        match tint {
            Tint::Red => Color::Red,
            Tint::BrightRed => Color::BrightRed,
            Tint::Yellow => Color::Yellow,
            Tint::BrightYellow => Color::BrightYellow,
            Tint::White => Color::White,
            Tint::Green => Color::Green,
            Tint::Cyan => Color::Cyan,
            Tint::Magenta => Color::Magenta,
            Tint::BrightBlack => Color::BrightBlack,
        },
    )
}

/// `Colorize::bold` of `colored`. Nothing is claimed of the value that
/// comes back.
#[verifier::external_body]
fn bold(text: ColoredString) -> ColoredString {
    text.bold()
}

/// `Colorize::dimmed` of `colored`. Nothing is claimed of the value that
/// comes back.
#[verifier::external_body]
fn dimmed(text: ColoredString) -> ColoredString {
    text.dimmed()
}

/// `Colorize::italic` of `colored`. Nothing is claimed of the value that
/// comes back.
#[verifier::external_body]
fn italic(text: ColoredString) -> ColoredString {
    text.italic()
}

/// The `Display` of `colored::ColoredString`, through `to_string`: the
/// text, between escape codes where the process is to write colours.
/// Nothing is claimed of the string that comes back.
#[verifier::external_body]
fn written(text: &ColoredString) -> String {
    text.to_string()
}

/// The colour of a paint.
pub open spec fn spec_tint(paint: Paint) -> Option<Tint> {
    match paint {
        Paint::Plain => None,
        Paint::Primary(Level::Fatal) | Paint::Primary(Level::Error) => Some(Tint::Red),
        Paint::Primary(Level::Warn) => Some(Tint::Yellow),
        Paint::Primary(_) => Some(Tint::White),
        Paint::Secondary(Level::Fatal) | Paint::Secondary(Level::Error) => Some(Tint::BrightRed),
        Paint::Secondary(Level::Warn) => Some(Tint::BrightYellow),
        Paint::Secondary(_) => Some(Tint::White),
        Paint::Inserted => Some(Tint::Green),
        Paint::Pointer | Paint::Gutter => Some(Tint::Cyan),
        Paint::Failure => Some(Tint::Red),
        Paint::Footer | Paint::Faint => Some(Tint::BrightBlack),
        Paint::Keyword => Some(Tint::Yellow),
        Paint::Literal => Some(Tint::Green),
        Paint::Value => Some(Tint::Cyan),
        Paint::TypeName => Some(Tint::Magenta),
    }
}

/// The style of a paint.
pub open spec fn spec_style(paint: Paint) -> Style {
    match paint {
        Paint::Primary(_) | Paint::Inserted | Paint::Failure => Style::Bold,
        Paint::Gutter | Paint::Keyword => Style::Dimmed,
        Paint::Footer => Style::Italic,
        _ => Style::Regular,
    }
}

/// The colour of a paint. In a report: red for what is fatal or an error,
/// yellow for a warning, white for a note, each brighter for the label;
/// green for inserted characters, cyan for arrow and bar, bright black for
/// advice. In a dump: yellow for keywords, green for strings, cyan for
/// numbers, magenta for types, bright black for what matters less.
pub fn tint_of(paint: Paint) -> (r: Option<Tint>)
    ensures
        r == spec_tint(paint),
{
    match paint {
        Paint::Plain => None,
        Paint::Primary(Level::Fatal) | Paint::Primary(Level::Error) => Some(Tint::Red),
        Paint::Primary(Level::Warn) => Some(Tint::Yellow),
        Paint::Primary(_) => Some(Tint::White),
        Paint::Secondary(Level::Fatal) | Paint::Secondary(Level::Error) => Some(Tint::BrightRed),
        Paint::Secondary(Level::Warn) => Some(Tint::BrightYellow),
        Paint::Secondary(_) => Some(Tint::White),
        Paint::Inserted => Some(Tint::Green),
        Paint::Pointer | Paint::Gutter => Some(Tint::Cyan),
        Paint::Failure => Some(Tint::Red),
        Paint::Footer | Paint::Faint => Some(Tint::BrightBlack),
        Paint::Keyword => Some(Tint::Yellow),
        Paint::Literal => Some(Tint::Green),
        Paint::Value => Some(Tint::Cyan),
        Paint::TypeName => Some(Tint::Magenta),
    }
}

/// The style of a paint: bold for head, carets, inserted characters and
/// failure, dimmed for the bar and for keywords, italic for advice.
pub fn style_of(paint: Paint) -> (r: Style)
    ensures
        r == spec_style(paint),
{
    match paint {
        Paint::Primary(_) | Paint::Inserted | Paint::Failure => Style::Bold,
        Paint::Gutter | Paint::Keyword => Style::Dimmed,
        Paint::Footer => Style::Italic,
        _ => Style::Regular,
    }
}

/// The texts one after the other.
pub open spec fn joined(texts: Seq<Seq<char>>) -> Seq<char>
    decreases texts.len(),
{
    if texts.len() == 0 {
        Seq::empty()
    } else {
        joined(texts.drop_last()) + texts.last()
    }
}

/// The characters of each of some strings.
pub open spec fn texts_view(texts: Seq<String>) -> Seq<Seq<char>> {
    texts.map_values(|t: String| t@)
}

/// `texts` may be what painting `pieces` gave: one text for each piece, and
/// for a plain piece its own text.
pub open spec fn painted_from(pieces: Seq<PieceView>, texts: Seq<Seq<char>>) -> bool {
    &&& texts.len() == pieces.len()
    &&& forall|i: int|
        0 <= i < pieces.len() && (#[trigger] pieces[i]).paint is Plain ==> texts[i]
            == pieces[i].text
}

/// The text of a piece as it is written to a terminal. Plain text stays
/// as it is; any other is handed to `colored` under its colour and style.
pub fn paint_text(paint: Paint, text: &str) -> (r: String)
    ensures
        paint is Plain ==> r@ == text@,
{
    match tint_of(paint) {
        None => String::from_str(text),
        Some(tint) => {
            let colored = tinted(text, tint);
            let styled = match style_of(paint) {
                Style::Regular => colored,
                Style::Bold => bold(colored),
                Style::Dimmed => dimmed(colored),
                Style::Italic => italic(colored),
            };
            written(&styled)
        },
    }
}

/// The texts one after the other, in one string.
pub fn join(texts: &Vec<String>) -> (r: String)
    ensures
        r@ == joined(texts_view(texts@)),
{
    let mut out = String::new();
    let mut i: usize = 0;
    let ghost all = texts_view(texts@);
    assert(all.take(0) =~= Seq::<Seq<char>>::empty());
    while i < texts.len()
        invariant
            i <= texts.len(),
            all == texts_view(texts@),
            out@ == joined(all.take(i as int)),
        decreases texts.len() - i,
    {
        out.append(texts[i].as_str());
        i += 1;
        assert(all.take(i as int).drop_last() =~= all.take(i - 1));
    }
    assert(all.take(i as int) =~= all);
    out
}

/// The pieces as they are written to a terminal: each painted, all joined
/// in order. Which escape codes stand around a painted piece, if any, is
/// for `colored` to say.
pub fn to_ansi(pieces: &Vec<Piece>) -> (r: String)
    ensures
        exists|texts: Seq<Seq<char>>|
            #[trigger] painted_from(pieces_view(pieces@), texts) && r@ == joined(texts),
{
    let mut texts: Vec<String> = Vec::new();
    let mut i: usize = 0;
    while i < pieces.len()
        invariant
            i <= pieces.len(),
            painted_from(pieces_view(pieces@).take(i as int), texts_view(texts@)),
        decreases pieces.len() - i,
    {
        let text = paint_text(pieces[i].paint, pieces[i].text.as_str());
        let ghost before = texts_view(texts@);
        texts.push(text);
        i += 1;
        proof {
            let now = texts_view(texts@);
            let some = pieces_view(pieces@).take(i as int);
            assert(now =~= before.push(text@));
            assert forall|k: int| 0 <= k < some.len() && (#[trigger] some[k]).paint is Plain implies now[k]
                == some[k].text by {
                if k < i - 1 {
                    assert(pieces_view(pieces@).take(i - 1)[k] == some[k]);
                }
            }
        }
    }
    assert(pieces_view(pieces@).take(i as int) =~= pieces_view(pieces@));
    let out = join(&texts);
    assert(painted_from(pieces_view(pieces@), texts_view(texts@)) && out@ == joined(
        texts_view(texts@),
    ));
    out
}

/// Where every piece is plain, painting changes nothing: what is written
/// is the text of the pieces.
pub proof fn lemma_plain_pieces(pieces: Seq<PieceView>, texts: Seq<Seq<char>>)
    requires
        painted_from(pieces, texts),
        forall|i: int| 0 <= i < pieces.len() ==> (#[trigger] pieces[i]).paint is Plain,
    ensures
        joined(texts) == flat_text(pieces),
    decreases pieces.len(),
{
    if pieces.len() > 0 {
        assert forall|i: int|
            0 <= i < pieces.drop_last().len() implies (#[trigger] pieces.drop_last()[i]).paint is Plain by {
            assert(pieces[i].paint is Plain);
        }
        assert(painted_from(pieces.drop_last(), texts.drop_last())) by {
            assert forall|i: int|
                0 <= i < pieces.drop_last().len() && (#[trigger] pieces.drop_last()[i]).paint is Plain implies texts.drop_last()[i]
                == pieces.drop_last()[i].text by {
                assert(pieces[i].paint is Plain);
            }
        }
        lemma_plain_pieces(pieces.drop_last(), texts.drop_last());
        assert(pieces[pieces.len() - 1].paint is Plain);
    }
}

} // verus!
