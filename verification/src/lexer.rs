//! Scanning of number, string and identifier tokens over the bytes of the
//! source text.

use crate::span::Span;
use vstd::prelude::*;
use vstd::string::{StrSliceExecFns, StringSliceAdditionalSpecFns};

verus! {

/// The reserved words of the language.
#[derive(Clone, Copy, Debug, PartialEq, Eq, Structural)]
pub enum Keyword {
    Let,
    Const,
    Fn,
    Return,
    If,
    Else,
    While,
    For,
    In,
    Break,
    Continue,
    Match,
    Struct,
    Enum,
    Type,
    Import,
    Test,
    True,
    False,
    Null,
    Pub,
    This,
}

/// The kinds of token that the scanners produce. A token with text carries
/// the byte range of that text: a number's digits, a string's contents
/// without its quotes, an identifier's name.
#[derive(Clone, Copy, Debug, PartialEq, Eq, Structural)]
pub enum TokenKind {
    Integer { text: Span },
    Float { text: Span },
    String { text: Span },
    Identifier { text: Span },
    Keyword(Keyword),
    /// Input that makes no token, such as an unterminated string.
    Unknown,
}

/// A token and the byte range of the source it was scanned from.
#[derive(Clone, Copy, Debug, PartialEq, Eq, Structural)]
pub struct Token {
    pub kind: TokenKind,
    pub span: Span,
}

/// The bytes that spell a keyword.
pub open spec fn keyword_text(k: Keyword) -> Seq<u8> {
    match k {
        Keyword::Let => seq![108u8, 101u8, 116u8],
        Keyword::Const => seq![99u8, 111u8, 110u8, 115u8, 116u8],
        Keyword::Fn => seq![102u8, 110u8],
        Keyword::Return => seq![114u8, 101u8, 116u8, 117u8, 114u8, 110u8],
        Keyword::If => seq![105u8, 102u8],
        Keyword::Else => seq![101u8, 108u8, 115u8, 101u8],
        Keyword::While => seq![119u8, 104u8, 105u8, 108u8, 101u8],
        Keyword::For => seq![102u8, 111u8, 114u8],
        Keyword::In => seq![105u8, 110u8],
        Keyword::Break => seq![98u8, 114u8, 101u8, 97u8, 107u8],
        Keyword::Continue => seq![99u8, 111u8, 110u8, 116u8, 105u8, 110u8, 117u8, 101u8],
        Keyword::Match => seq![109u8, 97u8, 116u8, 99u8, 104u8],
        Keyword::Struct => seq![115u8, 116u8, 114u8, 117u8, 99u8, 116u8],
        Keyword::Enum => seq![101u8, 110u8, 117u8, 109u8],
        Keyword::Type => seq![116u8, 121u8, 112u8, 101u8],
        Keyword::Import => seq![105u8, 109u8, 112u8, 111u8, 114u8, 116u8],
        Keyword::Test => seq![116u8, 101u8, 115u8, 116u8],
        Keyword::True => seq![116u8, 114u8, 117u8, 101u8],
        Keyword::False => seq![102u8, 97u8, 108u8, 115u8, 101u8],
        Keyword::Null => seq![110u8, 117u8, 108u8, 108u8],
        Keyword::Pub => seq![112u8, 117u8, 98u8],
        Keyword::This => seq![116u8, 104u8, 105u8, 115u8],
    }
}

/// The keywords, in the order they are tried.
pub open spec fn all_keywords() -> Seq<Keyword> {
    seq![
        Keyword::Let, Keyword::Const, Keyword::Fn, Keyword::Return, Keyword::If, Keyword::Else, Keyword::While,
        Keyword::For, Keyword::In, Keyword::Break, Keyword::Continue, Keyword::Match, Keyword::Struct, Keyword::Enum,
        Keyword::Type, Keyword::Import, Keyword::Test, Keyword::True, Keyword::False, Keyword::Null, Keyword::Pub,
        Keyword::This,
    ]
}

/// The first keyword from position `i` of `all_keywords` that `text` spells.
pub open spec fn keyword_from(text: Seq<u8>, i: int) -> Option<Keyword>
    decreases all_keywords().len() - i,
{
    if i < 0 || i >= all_keywords().len() {
        None
    } else if keyword_text(all_keywords()[i]) == text {
        Some(all_keywords()[i])
    } else {
        keyword_from(text, i + 1)
    }
}

/// The keyword that `text` spells, if any.
pub open spec fn keyword_of(text: Seq<u8>) -> Option<Keyword> {
    keyword_from(text, 0)
}

/// Every keyword is recognised from its own text: the bytes that spell
/// a keyword make that keyword, never an identifier nor another keyword.
pub proof fn lemma_every_keyword_recognised(k: Keyword)
    ensures
        keyword_of(keyword_text(k)) == Some(k),
{
    reveal_with_fuel(keyword_from, 23);
    match k {
        Keyword::Let => {},
        Keyword::Const => {},
        Keyword::Fn => {},
        Keyword::Return => {},
        Keyword::If => {},
        Keyword::Else => {},
        Keyword::While => {},
        Keyword::For => {},
        Keyword::In => {},
        Keyword::Break => {},
        Keyword::Continue => {},
        Keyword::Match => {},
        Keyword::Struct => {},
        Keyword::Enum => {},
        Keyword::Type => {},
        Keyword::Import => {},
        Keyword::Test => {},
        Keyword::True => {},
        Keyword::False => {},
        Keyword::Null => {},
        Keyword::Pub => {},
        Keyword::This => {},
    }
}

/// Only a keyword's own text makes it: bytes that make a keyword spell it.
pub proof fn lemma_keyword_spelled(text: Seq<u8>, i: int)
    ensures
        keyword_from(text, i) matches Some(k) ==> keyword_text(k) == text,
    decreases all_keywords().len() - i,
{
    if 0 <= i < all_keywords().len() {
        lemma_keyword_spelled(text, i + 1);
    }
}

/// A byte that may continue an identifier: an ASCII letter or digit, or `_`.
pub open spec fn is_ident_byte(b: u8) -> bool {
    (48 <= b <= 57) || (65 <= b <= 90) || (97 <= b <= 122) || b == 95
}

/// Where an identifier continuing at `p` ends: the first byte from `p` on
/// that cannot continue it.
pub open spec fn ident_end(src: Seq<u8>, p: int) -> int
    decreases src.len() - p,
{
    if 0 <= p < src.len() && is_ident_byte(src[p]) {
        ident_end(src, p + 1)
    } else {
        p
    }
}

/// Where a number continuing at `p` ends, and whether it is a float. Digits
/// and `_` continue it; one `.` makes it a float unless a second `.`
/// follows (a range); `e` or `E`, with an optional sign after it, makes it a
/// float; anything else ends it.
pub open spec fn number_scan(src: Seq<u8>, p: int, is_float: bool) -> (int, bool)
    decreases src.len() - p,
{
    if p < 0 || p >= src.len() {
        (p, is_float)
    } else if src[p] == 95u8 || (48 <= src[p] <= 57) {
        number_scan(src, p + 1, is_float)
    } else if src[p] == 46u8 {
        if is_float || (p + 1 < src.len() && src[p + 1] == 46u8) {
            (p, is_float)
        } else {
            number_scan(src, p + 1, true)
        }
    } else if src[p] == 101u8 || src[p] == 69u8 {
        if p + 1 < src.len() && (src[p + 1] == 45u8 || src[p + 1] == 43u8) {
            number_scan(src, p + 2, true)
        } else {
            number_scan(src, p + 1, true)
        }
    } else {
        (p, is_float)
    }
}

/// Where the contents of a string starting at `p` end: at the first `"`
/// that no backslash escapes, or at the end of the source.
pub open spec fn string_scan(src: Seq<u8>, p: int) -> int
    decreases src.len() - p,
{
    if p < 0 || p >= src.len() {
        p
    } else if src[p] == 34u8 {
        p
    } else if src[p] == 92u8 {
        if p + 1 < src.len() {
            string_scan(src, p + 2)
        } else {
            src.len() as int
        }
    } else {
        string_scan(src, p + 1)
    }
}

/// An identifier scan is maximal: every byte it takes can continue an
/// identifier, and the byte it stops at, if any, cannot.
pub proof fn lemma_ident_end_maximal(src: Seq<u8>, p: int)
    requires
        0 <= p <= src.len(),
    ensures
        p <= ident_end(src, p) <= src.len(),
        forall|k: int| p <= k < ident_end(src, p) ==> is_ident_byte(#[trigger] src[k]),
        ident_end(src, p) < src.len() ==> !is_ident_byte(src[ident_end(src, p)]),
    decreases src.len() - p,
{
    if p < src.len() && is_ident_byte(src[p]) {
        lemma_ident_end_maximal(src, p + 1);
    }
}

/// The contents of a string stop only at its closing quote or at the end
/// of the source, and never before where they start.
pub proof fn lemma_string_scan_stops_at_quote(src: Seq<u8>, p: int)
    requires
        0 <= p <= src.len(),
    ensures
        p <= string_scan(src, p) <= src.len(),
        string_scan(src, p) < src.len() ==> src[string_scan(src, p)] == 34u8,
    decreases src.len() - p,
{
    if p < src.len() && src[p] != 34u8 {
        if src[p] == 92u8 {
            if p + 1 < src.len() {
                lemma_string_scan_stops_at_quote(src, p + 2);
            }
        } else {
            lemma_string_scan_stops_at_quote(src, p + 1);
        }
    }
}

/// A number scan never moves backwards nor past the source.
pub proof fn lemma_number_scan_bounds(src: Seq<u8>, p: int, is_float: bool)
    requires
        0 <= p <= src.len(),
    ensures
        p <= number_scan(src, p, is_float).0 <= src.len(),
        is_float ==> number_scan(src, p, is_float).1,
    decreases src.len() - p,
{
    if p < src.len() {
        if src[p] == 95u8 || (48 <= src[p] <= 57) {
            lemma_number_scan_bounds(src, p + 1, is_float);
        } else if src[p] == 46u8 {
            if !(is_float || (p + 1 < src.len() && src[p + 1] == 46u8)) {
                lemma_number_scan_bounds(src, p + 1, true);
            }
        } else if src[p] == 101u8 || src[p] == 69u8 {
            if p + 1 < src.len() && (src[p + 1] == 45u8 || src[p + 1] == 43u8) {
                lemma_number_scan_bounds(src, p + 2, true);
            } else {
                lemma_number_scan_bounds(src, p + 1, true);
            }
        }
    }
}

/// The bytes that spell a keyword.
fn keyword_bytes(k: Keyword) -> (r: Vec<u8>)
    ensures
        r@ == keyword_text(k),
{
    let r = match k {
        Keyword::Let => vec![108u8, 101u8, 116u8],
        Keyword::Const => vec![99u8, 111u8, 110u8, 115u8, 116u8],
        Keyword::Fn => vec![102u8, 110u8],
        Keyword::Return => vec![114u8, 101u8, 116u8, 117u8, 114u8, 110u8],
        Keyword::If => vec![105u8, 102u8],
        Keyword::Else => vec![101u8, 108u8, 115u8, 101u8],
        Keyword::While => vec![119u8, 104u8, 105u8, 108u8, 101u8],
        Keyword::For => vec![102u8, 111u8, 114u8],
        Keyword::In => vec![105u8, 110u8],
        Keyword::Break => vec![98u8, 114u8, 101u8, 97u8, 107u8],
        Keyword::Continue => vec![99u8, 111u8, 110u8, 116u8, 105u8, 110u8, 117u8, 101u8],
        Keyword::Match => vec![109u8, 97u8, 116u8, 99u8, 104u8],
        Keyword::Struct => vec![115u8, 116u8, 114u8, 117u8, 99u8, 116u8],
        Keyword::Enum => vec![101u8, 110u8, 117u8, 109u8],
        Keyword::Type => vec![116u8, 121u8, 112u8, 101u8],
        Keyword::Import => vec![105u8, 109u8, 112u8, 111u8, 114u8, 116u8],
        Keyword::Test => vec![116u8, 101u8, 115u8, 116u8],
        Keyword::True => vec![116u8, 114u8, 117u8, 101u8],
        Keyword::False => vec![102u8, 97u8, 108u8, 115u8, 101u8],
        Keyword::Null => vec![110u8, 117u8, 108u8, 108u8],
        Keyword::Pub => vec![112u8, 117u8, 98u8],
        Keyword::This => vec![116u8, 104u8, 105u8, 115u8],
    };
    assert(r@ =~= keyword_text(k));
    r
}

/// The keywords, in the order they are tried.
fn keyword_list() -> (r: Vec<Keyword>)
    ensures
        r@ == all_keywords(),
{
    let r = vec![
        Keyword::Let, Keyword::Const, Keyword::Fn, Keyword::Return, Keyword::If, Keyword::Else, Keyword::While,
        Keyword::For, Keyword::In, Keyword::Break, Keyword::Continue, Keyword::Match, Keyword::Struct, Keyword::Enum,
        Keyword::Type, Keyword::Import, Keyword::Test, Keyword::True, Keyword::False, Keyword::Null, Keyword::Pub,
        Keyword::This,
    ];
    assert(r@ =~= all_keywords());
    r
}

/// A scanner over the bytes of a source text, at a byte position.
pub struct Lexer {
    pub source: Vec<u8>,
    pub position: usize,
    pub file: Option<String>,
}

impl Lexer {
    /// A scanner at the start of `source`'s UTF-8 bytes.
    pub fn new(source: &str, file: Option<String>) -> (l: Lexer)
        ensures
            l.source@ == source.spec_bytes(),
            l.position == 0,
            l.file == file,
    {
        Lexer { source: source.as_bytes_vec(), position: 0, file }
    }

    /// The length of the source in bytes.
    pub fn source_len(&self) -> (n: usize)
        ensures
            n == self.source.len(),
    {
        self.source.len()
    }

    /// The span from `start` to the current position.
    pub fn span(&self, start: usize) -> (s: Span)
        ensures
            s == (Span { start, end: self.position }),
    {
        Span::new(start, self.position)
    }

    /// The file the source came from, if known.
    pub fn file(&self) -> (f: &Option<String>)
        ensures
            *f == self.file,
    {
        &self.file
    }

    /// The source bytes.
    pub fn source(&self) -> (s: &Vec<u8>)
        ensures
            *s == self.source,
    {
        &self.source
    }

    /// The byte at the current position, if any.
    fn peek_byte(&self) -> (b: Option<u8>)
        ensures
            self.position < self.source.len() ==> b == Some(self.source@[self.position as int]),
            self.position >= self.source.len() ==> b is None,
    {
        if self.position < self.source.len() {
            Some(self.source[self.position])
        } else {
            None
        }
    }

    /// The byte `n` places after the current position, if any.
    fn peek_byte_nth(&self, n: usize) -> (b: Option<u8>)
        ensures
            self.position + n < self.source.len() ==> b == Some(self.source@[self.position + n]),
            self.position + n >= self.source.len() ==> b is None,
    {
        if n < self.source.len() && self.position < self.source.len() - n {
            Some(self.source[self.position + n])
        } else {
            None
        }
    }

    /// Moves one byte forward, within the source.
    fn advance_byte(&mut self)
        requires
            old(self).position < old(self).source.len(),
        ensures
            final(self).position == old(self).position + 1,
            final(self).source == old(self).source,
            final(self).file == old(self).file,
    {
        self.position = self.position + 1;
    }

    /// Whether bytes `start..end` of the source spell `text`.
    fn slice_equals(&self, start: usize, end: usize, text: &Vec<u8>) -> (b: bool)
        requires
            start <= end <= self.source.len(),
        ensures
            b == (self.source@.subrange(start as int, end as int) == text@),
    {
        if end - start != text.len() {
            return false;
        }
        let mut i: usize = 0;
        while i < text.len()
            invariant
                start <= end <= self.source.len(),
                end - start == text.len(),
                i <= text.len(),
                forall|k: int| 0 <= k < i ==> self.source@[start + k] == text@[k],
            decreases text.len() - i,
        {
            if self.source[start + i] != text[i] {
                assert(self.source@.subrange(start as int, end as int)[i as int] != text@[i as int]);
                return false;
            }
            i += 1;
        }
        assert(self.source@.subrange(start as int, end as int) =~= text@);
        true
    }

    /// The keyword that bytes `start..end` spell, if any.
    fn keyword_at(&self, start: usize, end: usize) -> (k: Option<Keyword>)
        requires
            start <= end <= self.source.len(),
        ensures
            k == keyword_of(self.source@.subrange(start as int, end as int)),
    {
        let ghost text = self.source@.subrange(start as int, end as int);
        let keywords = keyword_list();
        let mut i: usize = 0;
        while i < keywords.len()
            invariant
                start <= end <= self.source.len(),
                keywords@ == all_keywords(),
                i <= keywords.len(),
                text == self.source@.subrange(start as int, end as int),
                keyword_of(text) == keyword_from(text, i as int),
            decreases keywords.len() - i,
        {
            let bytes = keyword_bytes(keywords[i]);
            if self.slice_equals(start, end, &bytes) {
                return Some(keywords[i]);
            }
            i += 1;
        }
        None
    }

    /// Scans the rest of an identifier or keyword that began at `start`:
    /// letters, digits and `_` up to the first other byte. A keyword's text
    /// makes that keyword; any other name an identifier.
    #[verifier::loop_isolation(false)]
    pub fn identifier(&mut self, start: usize) -> (t: Token)
        requires
            start <= old(self).position <= old(self).source.len(),
        ensures
            final(self).source == old(self).source,
            final(self).file == old(self).file,
            final(self).position == ident_end(old(self).source@, old(self).position as int),
            t.span == (Span { start, end: final(self).position }),
            t.kind == match keyword_of(old(self).source@.subrange(start as int, final(self).position as int)) {
                Some(k) => TokenKind::Keyword(k),
                None => TokenKind::Identifier { text: Span { start, end: final(self).position } },
            },
    {
        let ghost p0 = self.position as int;
        loop
            invariant
                start <= self.position <= self.source.len(),
                self.source == old(self).source,
                self.file == old(self).file,
                ident_end(self.source@, p0) == ident_end(self.source@, self.position as int),
            decreases self.source.len() - self.position,
        {
            match self.peek_byte() {
                Some(c) => {
                    if (48 <= c && c <= 57) || (65 <= c && c <= 90) || (97 <= c && c <= 122) || c == 95 {
                        self.advance_byte();
                    } else {
                        break;
                    }
                },
                None => {
                    break;
                },
            }
        }
        let end = self.position;
        let kind = match self.keyword_at(start, end) {
            Some(k) => TokenKind::Keyword(k),
            None => TokenKind::Identifier { text: Span::new(start, end) },
        };
        Token { kind, span: self.span(start) }
    }

    /// Scans the rest of a number whose first digit, just before the current
    /// position, began a token at `start` (see `number_scan`). A number with
    /// a `.` or an exponent is a float, any other an integer; its text runs
    /// from that first digit.
    #[verifier::loop_isolation(false)]
    pub fn number(&mut self, start: usize) -> (t: Token)
        requires
            1 <= old(self).position <= old(self).source.len(),
            start <= old(self).position,
        ensures
            final(self).source == old(self).source,
            final(self).file == old(self).file,
            final(self).position == number_scan(old(self).source@, old(self).position as int, false).0,
            t.span == (Span { start, end: final(self).position }),
            number_scan(old(self).source@, old(self).position as int, false).1 ==> t.kind == (TokenKind::Float {
                text: Span { start: (old(self).position - 1) as usize, end: final(self).position },
            }),
            !number_scan(old(self).source@, old(self).position as int, false).1 ==> t.kind == (TokenKind::Integer {
                text: Span { start: (old(self).position - 1) as usize, end: final(self).position },
            }),
    {
        let mut is_float = false;
        let num_start = self.position - 1;
        let ghost p0 = self.position as int;
        loop
            invariant
                start <= self.position <= self.source.len(),
                num_start == p0 - 1,
                p0 <= self.position,
                self.source == old(self).source,
                self.file == old(self).file,
                number_scan(self.source@, p0, false) == number_scan(self.source@, self.position as int, is_float),
            decreases self.source.len() - self.position,
        {
            match self.peek_byte() {
                Some(c) => {
                    if c == 95 || (48 <= c && c <= 57) {
                        self.advance_byte();
                    } else if c == 46 {
                        if is_float {
                            break;
                        }
                        if self.peek_byte_nth(1) == Some(46u8) {
                            break;
                        }
                        is_float = true;
                        self.advance_byte();
                    } else if c == 101 || c == 69 {
                        is_float = true;
                        self.advance_byte();
                        let next = self.peek_byte();
                        if next == Some(45u8) || next == Some(43u8) {
                            self.advance_byte();
                        }
                    } else {
                        break;
                    }
                },
                None => {
                    break;
                },
            }
        }
        let num_end = self.position;
        let text = Span::new(num_start, num_end);
        let kind = if is_float {
            TokenKind::Float { text }
        } else {
            TokenKind::Integer { text }
        };
        Token { kind, span: self.span(start) }
    }

    /// Scans the rest of a string whose opening quote began a token at
    /// `start`; the current position is just after that quote. The contents
    /// run to the first `"` that no backslash escapes (see `string_scan`),
    /// which is consumed; a string that the source ends inside is `Unknown`.
    #[verifier::loop_isolation(false)]
    pub fn string(&mut self, start: usize) -> (t: Token)
        requires
            start <= old(self).position <= old(self).source.len(),
        ensures
            final(self).source == old(self).source,
            final(self).file == old(self).file,
            ({
                let end = string_scan(old(self).source@, old(self).position as int);
                if end < old(self).source.len() {
                    &&& final(self).position == end + 1
                    &&& t.kind == (TokenKind::String { text: Span { start: old(self).position, end: end as usize } })
                    &&& t.span == (Span { start, end: (end + 1) as usize })
                } else {
                    &&& final(self).position == end
                    &&& t.kind == TokenKind::Unknown
                    &&& t.span == (Span { start, end: end as usize })
                }
            }),
    {
        let content_start = self.position;
        let ghost p0 = self.position as int;
        loop
            invariant
                start <= content_start <= self.position <= self.source.len(),
                content_start == p0,
                self.source == old(self).source,
                self.file == old(self).file,
                string_scan(self.source@, p0) == string_scan(self.source@, self.position as int),
            decreases self.source.len() - self.position,
        {
            match self.peek_byte() {
                Some(c) => {
                    if c == 34 {
                        break;
                    } else if c == 92 {
                        self.advance_byte();
                        if self.peek_byte().is_some() {
                            self.advance_byte();
                        }
                    } else {
                        self.advance_byte();
                    }
                },
                None => {
                    break;
                },
            }
        }
        if self.peek_byte() != Some(34u8) {
            return Token { kind: TokenKind::Unknown, span: self.span(start) };
        }
        let content_end = self.position;
        self.advance_byte();
        Token { kind: TokenKind::String { text: Span::new(content_start, content_end) }, span: self.span(start) }
    }
}

} // verus!
