//! Token kinds and the binding powers that order operators.

use crate::render::{flat_text, painted, pieces_view, plain, put, Paint, Piece, PieceView};
use crate::span::Span;
use crate::text::{debug_quoted, decimal_digits, decimal_text, push_char, quoted};
use vstd::prelude::*;
use vstd::string::{StrSliceExecFns, StringExecFns};

verus! {

/// The closed set of token kinds.
#[derive(Debug, PartialOrd, PartialEq, Eq, Clone, Copy, Structural)]
pub enum TokenKind {
    Identifier,
    KWFn,
    KWExport,
    KWExtern,
    KWImpl,
    KWStatic,
    KWLet,
    KWRet,
    KWType,
    FloatLiteral,
    BinaryIntLiteral,
    OctalIntLiteral,
    DecimalIntLiteral,
    HexadecimalIntLiteral,
    StringLiteral,
    CharLiteral,
    Tilde,
    Bang,
    At,
    Pound,
    Dollar,
    Percent,
    Caret,
    CaretCaret,
    Ampersand,
    AmpersandAmpersand,
    Star,
    LParen,
    RParen,
    Minus,
    Underscore,
    Equals,
    Plus,
    LBracket,
    RBracket,
    LBrace,
    RBrace,
    Pipe,
    PipePipe,
    Semicolon,
    Colon,
    Comma,
    Dot,
    Slash,
    Question,
    ArrowLeft,
    ArrowRight,
    FatArrowRight,
    GreaterThan,
    GreaterThanEquals,
    EqualsEquals,
    LessThan,
    LessThanEquals,
    NotEquals,
    ShiftLeft,
    ShiftRight,
    Apostrophe,
    EOF,
}

/// The smallest lexical unit: its kind, where it stands, and the source
/// text it was read from (empty for fixed punctuation).
#[derive(Debug, Copy, Clone, PartialEq, Eq)]
pub struct Token<'source> {
    pub kind: TokenKind,
    pub span: Span,
    pub text: &'source str,
}

impl TokenKind {
    /// Power with which the kind binds as a prefix operator, if it is one.
    pub open spec fn spec_pbind_power(self) -> Option<u8> {
        match self {
            TokenKind::Minus => Some(5u8),
            _ => None,
        }
    }

    /// Power with which the kind binds as a binary operator, if it is one.
    pub open spec fn spec_ibind_power(self) -> Option<u8> {
        match self {
            TokenKind::Star | TokenKind::Slash | TokenKind::Percent => Some(2u8),
            TokenKind::Plus | TokenKind::Minus => Some(1u8),
            _ => None,
        }
    }

    /// Power with which the kind binds as a postfix construct, if it opens one.
    pub open spec fn spec_sbind_power(self) -> Option<u8> {
        match self {
            TokenKind::LParen | TokenKind::LBracket => Some(14u8),
            _ => None,
        }
    }

    /// The kind closes a construct or separates two of them.
    pub open spec fn spec_is_delim(self) -> bool {
        self == TokenKind::Semicolon || self == TokenKind::RParen || self == TokenKind::RBracket
            || self == TokenKind::RBrace || self == TokenKind::Comma
    }

    /// The kind's name as it is written in diagnostics.
    pub open spec fn spec_name(self) -> Seq<char> {
        match self {
            TokenKind::Identifier => "Identifier"@,
            TokenKind::KWFn => "KWFn"@,
            TokenKind::KWExport => "KWExport"@,
            TokenKind::KWExtern => "KWExtern"@,
            TokenKind::KWImpl => "KWImpl"@,
            TokenKind::KWStatic => "KWStatic"@,
            TokenKind::KWLet => "KWLet"@,
            TokenKind::KWRet => "KWRet"@,
            TokenKind::KWType => "KWType"@,
            TokenKind::FloatLiteral => "FloatLiteral"@,
            TokenKind::BinaryIntLiteral => "BinaryIntLiteral"@,
            TokenKind::OctalIntLiteral => "OctalIntLiteral"@,
            TokenKind::DecimalIntLiteral => "DecimalIntLiteral"@,
            TokenKind::HexadecimalIntLiteral => "HexadecimalIntLiteral"@,
            TokenKind::StringLiteral => "StringLiteral"@,
            TokenKind::CharLiteral => "CharLiteral"@,
            TokenKind::Tilde => "Tilde"@,
            TokenKind::Bang => "Bang"@,
            TokenKind::At => "At"@,
            TokenKind::Pound => "Pound"@,
            TokenKind::Dollar => "Dollar"@,
            TokenKind::Percent => "Percent"@,
            TokenKind::Caret => "Caret"@,
            TokenKind::CaretCaret => "CaretCaret"@,
            TokenKind::Ampersand => "Ampersand"@,
            TokenKind::AmpersandAmpersand => "AmpersandAmpersand"@,
            TokenKind::Star => "Star"@,
            TokenKind::LParen => "LParen"@,
            TokenKind::RParen => "RParen"@,
            TokenKind::Minus => "Minus"@,
            TokenKind::Underscore => "Underscore"@,
            TokenKind::Equals => "Equals"@,
            TokenKind::Plus => "Plus"@,
            TokenKind::LBracket => "LBracket"@,
            TokenKind::RBracket => "RBracket"@,
            TokenKind::LBrace => "LBrace"@,
            TokenKind::RBrace => "RBrace"@,
            TokenKind::Pipe => "Pipe"@,
            TokenKind::PipePipe => "PipePipe"@,
            TokenKind::Semicolon => "Semicolon"@,
            TokenKind::Colon => "Colon"@,
            TokenKind::Comma => "Comma"@,
            TokenKind::Dot => "Dot"@,
            TokenKind::Slash => "Slash"@,
            TokenKind::Question => "Question"@,
            TokenKind::ArrowLeft => "ArrowLeft"@,
            TokenKind::ArrowRight => "ArrowRight"@,
            TokenKind::FatArrowRight => "FatArrowRight"@,
            TokenKind::GreaterThan => "GreaterThan"@,
            TokenKind::GreaterThanEquals => "GreaterThanEquals"@,
            TokenKind::EqualsEquals => "EqualsEquals"@,
            TokenKind::LessThan => "LessThan"@,
            TokenKind::LessThanEquals => "LessThanEquals"@,
            TokenKind::NotEquals => "NotEquals"@,
            TokenKind::ShiftLeft => "ShiftLeft"@,
            TokenKind::ShiftRight => "ShiftRight"@,
            TokenKind::Apostrophe => "Apostrophe"@,
            TokenKind::EOF => "EOF"@,
        }
    }

    /// Power with which the kind binds as a prefix operator, if it is one.
    #[verifier::when_used_as_spec(spec_pbind_power)]
    pub fn pbind_power(self) -> (r: Option<u8>)
        ensures
            r == self.spec_pbind_power(),
    {
        match self {
            TokenKind::Minus => Some(5),
            _ => None,
        }
    }

    /// Power with which the kind binds as a binary operator, if it is one.
    /// The higher power binds tighter.
    #[verifier::when_used_as_spec(spec_ibind_power)]
    pub fn ibind_power(self) -> (r: Option<u8>)
        ensures
            r == self.spec_ibind_power(),
    {
        match self {
            TokenKind::Star | TokenKind::Slash | TokenKind::Percent => Some(2),
            TokenKind::Plus | TokenKind::Minus => Some(1),
            _ => None,
        }
    }

    /// Power with which the kind binds as a postfix construct, if it opens
    /// one.
    #[verifier::when_used_as_spec(spec_sbind_power)]
    pub fn sbind_power(self) -> (r: Option<u8>)
        ensures
            r == self.spec_sbind_power(),
    {
        match self {
            TokenKind::LParen | TokenKind::LBracket => Some(14),
            _ => None,
        }
    }

    /// The kind closes a construct or separates two of them.
    #[verifier::when_used_as_spec(spec_is_delim)]
    pub fn is_delim(self) -> (r: bool)
        ensures
            r == self.spec_is_delim(),
    {
        matches!(
            self,
            TokenKind::Semicolon | TokenKind::RParen | TokenKind::RBracket | TokenKind::RBrace
                | TokenKind::Comma
        )
    }

    /// The kind's name as it is written in diagnostics.
    pub fn name(self) -> (r: &'static str)
        ensures
            r@ == self.spec_name(),
    {
        match self {
            TokenKind::Identifier => "Identifier",
            TokenKind::KWFn => "KWFn",
            TokenKind::KWExport => "KWExport",
            TokenKind::KWExtern => "KWExtern",
            TokenKind::KWImpl => "KWImpl",
            TokenKind::KWStatic => "KWStatic",
            TokenKind::KWLet => "KWLet",
            TokenKind::KWRet => "KWRet",
            TokenKind::KWType => "KWType",
            TokenKind::FloatLiteral => "FloatLiteral",
            TokenKind::BinaryIntLiteral => "BinaryIntLiteral",
            TokenKind::OctalIntLiteral => "OctalIntLiteral",
            TokenKind::DecimalIntLiteral => "DecimalIntLiteral",
            TokenKind::HexadecimalIntLiteral => "HexadecimalIntLiteral",
            TokenKind::StringLiteral => "StringLiteral",
            TokenKind::CharLiteral => "CharLiteral",
            TokenKind::Tilde => "Tilde",
            TokenKind::Bang => "Bang",
            TokenKind::At => "At",
            TokenKind::Pound => "Pound",
            TokenKind::Dollar => "Dollar",
            TokenKind::Percent => "Percent",
            TokenKind::Caret => "Caret",
            TokenKind::CaretCaret => "CaretCaret",
            TokenKind::Ampersand => "Ampersand",
            TokenKind::AmpersandAmpersand => "AmpersandAmpersand",
            TokenKind::Star => "Star",
            TokenKind::LParen => "LParen",
            TokenKind::RParen => "RParen",
            TokenKind::Minus => "Minus",
            TokenKind::Underscore => "Underscore",
            TokenKind::Equals => "Equals",
            TokenKind::Plus => "Plus",
            TokenKind::LBracket => "LBracket",
            TokenKind::RBracket => "RBracket",
            TokenKind::LBrace => "LBrace",
            TokenKind::RBrace => "RBrace",
            TokenKind::Pipe => "Pipe",
            TokenKind::PipePipe => "PipePipe",
            TokenKind::Semicolon => "Semicolon",
            TokenKind::Colon => "Colon",
            TokenKind::Comma => "Comma",
            TokenKind::Dot => "Dot",
            TokenKind::Slash => "Slash",
            TokenKind::Question => "Question",
            TokenKind::ArrowLeft => "ArrowLeft",
            TokenKind::ArrowRight => "ArrowRight",
            TokenKind::FatArrowRight => "FatArrowRight",
            TokenKind::GreaterThan => "GreaterThan",
            TokenKind::GreaterThanEquals => "GreaterThanEquals",
            TokenKind::EqualsEquals => "EqualsEquals",
            TokenKind::LessThan => "LessThan",
            TokenKind::LessThanEquals => "LessThanEquals",
            TokenKind::NotEquals => "NotEquals",
            TokenKind::ShiftLeft => "ShiftLeft",
            TokenKind::ShiftRight => "ShiftRight",
            TokenKind::Apostrophe => "Apostrophe",
            TokenKind::EOF => "EOF",
        }
    }
}

impl<'source> Token<'source> {
    /// The token as it is written in a dump: kind and range, and the text
    /// in quotes where there is one.
    pub open spec fn spec_text(self) -> Seq<char> {
        "Token("@ + self.kind.spec_name() + seq![',', ' '] + decimal_digits(self.span.start as nat)
            + seq!['-'] + decimal_digits(self.span.end as nat) + (if self.text@.len() > 0 {
            seq![',', ' '] + debug_quoted(self.text@)
        } else {
            Seq::empty()
        }) + seq![')']
    }

    /// The token as it is painted in a dump: the range set back, the text
    /// set off as a string.
    pub open spec fn spec_pieces(self) -> Seq<PieceView> {
        seq![
            plain("Token("@ + self.kind.spec_name() + seq![',', ' ']),
            painted(
                Paint::Faint,
                decimal_digits(self.span.start as nat) + seq!['-'] + decimal_digits(
                    self.span.end as nat,
                ),
            ),
        ] + (if self.text@.len() > 0 {
            seq![plain(seq![',', ' ']), painted(Paint::Literal, debug_quoted(self.text@))]
        } else {
            Seq::empty()
        }) + seq![plain(seq![')'])]
    }

    /// The token as it is painted in a dump.
    pub fn pieces(&self) -> (r: Vec<Piece>)
        ensures
            pieces_view(r@) == self.spec_pieces(),
    {
        let mut out: Vec<Piece> = Vec::new();
        assert(pieces_view(out@) =~= Seq::<PieceView>::empty());
        let mut head = String::from_str("Token(");
        head.append(self.kind.name());
        push_char(&mut head, ',');
        push_char(&mut head, ' ');
        assert(head@ =~= "Token("@ + self.kind.spec_name() + seq![',', ' ']);
        let mut range = decimal_text(self.span.start);
        push_char(&mut range, '-');
        range.append(decimal_text(self.span.end).as_str());
        assert(range@ =~= decimal_digits(self.span.start as nat) + seq!['-'] + decimal_digits(
            self.span.end as nat,
        ));
        put(&mut out, Paint::Plain, head);
        put(&mut out, Paint::Faint, range);
        if self.text.unicode_len() > 0 {
            let mut comma = String::new();
            push_char(&mut comma, ',');
            push_char(&mut comma, ' ');
            assert(comma@ =~= seq![',', ' ']);
            put(&mut out, Paint::Plain, comma);
            put(&mut out, Paint::Literal, quoted(self.text));
        }
        let mut close = String::new();
        push_char(&mut close, ')');
        assert(close@ =~= seq![')']);
        put(&mut out, Paint::Plain, close);
        assert(pieces_view(out@) =~= self.spec_pieces());
        out
    }

    /// The token as it is written in a dump.
    pub fn to_text(&self) -> (r: String)
        ensures
            r@ == self.spec_text(),
    {
        let mut out = String::from_str("Token(");
        out.append(self.kind.name());
        push_char(&mut out, ',');
        push_char(&mut out, ' ');
        out.append(decimal_text(self.span.start).as_str());
        push_char(&mut out, '-');
        out.append(decimal_text(self.span.end).as_str());
        let ghost head = out@;
        if self.text.unicode_len() > 0 {
            push_char(&mut out, ',');
            push_char(&mut out, ' ');
            out.append(quoted(self.text).as_str());
            assert(out@ =~= head + (seq![',', ' '] + debug_quoted(self.text@)));
        } else {
            assert(out@ =~= head + Seq::<char>::empty());
        }
        push_char(&mut out, ')');
        assert(head =~= "Token("@ + self.kind.spec_name() + seq![',', ' '] + decimal_digits(
            self.span.start as nat,
        ) + seq!['-'] + decimal_digits(self.span.end as nat));
        out
    }
}

/// Without its paint, a painted token is the written token.
pub proof fn lemma_token_pieces(token: Token)
    ensures
        flat_text(token.spec_pieces()) == token.spec_text(),
{
    reveal_with_fuel(flat_text, 6);
    let pieces = token.spec_pieces();
    if token.text@.len() > 0 {
        assert(pieces.len() == 5);
        assert(pieces.drop_last().drop_last().drop_last().drop_last().drop_last() =~= Seq::<
            PieceView,
        >::empty());
        assert(flat_text(pieces) =~= token.spec_text());
    } else {
        assert(pieces.len() == 3);
        assert(pieces.drop_last().drop_last().drop_last() =~= Seq::<PieceView>::empty());
        assert(flat_text(pieces) =~= token.spec_text());
    }
}

/// A binding power, where a kind has one, is never zero, and a postfix
/// construct binds tighter than every binary and every prefix operator.
pub proof fn lemma_binding_powers(k: TokenKind, l: TokenKind)
    ensures
        k.spec_pbind_power() matches Some(p) ==> p > 0,
        k.spec_ibind_power() matches Some(p) ==> p > 0,
        k.spec_sbind_power() matches Some(p) ==> p > 0,
        k.spec_sbind_power() matches Some(s) ==> (l.spec_ibind_power() matches Some(i) ==> s > i),
        k.spec_sbind_power() matches Some(s) ==> (l.spec_pbind_power() matches Some(p) ==> s > p),
{
}

} // verus!
