use vstd::prelude::*;

use crate::token::SpecTokenKind;
use crate::token::Token;
use crate::token::TokenContext;
use crate::token::TokenKind;

verus! {

// ---------------------------------------------------------------------------
// Character classes
// ---------------------------------------------------------------------------

/// Whitespace as the scanner skips it: the ASCII whitespace characters
/// (space, horizontal tab, line feed, carriage return, form feed).
pub open spec fn is_whitespace_char(c: char) -> bool {
    c == ' ' || c == '\t' || c == '\n' || c == '\r' || c == '\x0c'
}

/// An ASCII decimal digit.
pub open spec fn is_digit_char(c: char) -> bool {
    '0' <= c && c <= '9'
}

/// A character that may continue a number lexeme: a digit, an underscore
/// separator, or a decimal point.
pub open spec fn is_number_char(c: char) -> bool {
    is_digit_char(c) || c == '_' || c == '.'
}

/// A character that may open an identifier: an ASCII letter or an underscore.
pub open spec fn is_identifier_start_char(c: char) -> bool {
    ('a' <= c && c <= 'z') || ('A' <= c && c <= 'Z') || c == '_'
}

/// A character that may continue an identifier: an ASCII letter, an ASCII
/// digit, or an underscore.
pub open spec fn is_identifier_char(c: char) -> bool {
    is_identifier_start_char(c) || is_digit_char(c)
}

// ---------------------------------------------------------------------------
// Position model
// ---------------------------------------------------------------------------

/// The 1-based line on which the character at offset `i` stands: one more
/// than the number of line feeds among the first `i` characters.
pub open spec fn line_at(s: Seq<char>, i: int) -> int
    decreases i,
{
    if i <= 0 {
        1
    } else if s[i - 1] == '\n' {
        line_at(s, i - 1) + 1
    } else {
        line_at(s, i - 1)
    }
}

/// The column of the cursor once the first `i` characters are consumed:
/// 0 at the start of the text and directly after a line feed, incremented
/// by every other consumed character. The character at offset `i` therefore
/// stands at 1-based column `column_at(s, i) + 1`.
pub open spec fn column_at(s: Seq<char>, i: int) -> int
    decreases i,
{
    if i <= 0 {
        0
    } else if s[i - 1] == '\n' {
        0
    } else {
        column_at(s, i - 1) + 1
    }
}

proof fn lemma_line_at_bounds(s: Seq<char>, i: int)
    requires
        0 <= i,
    ensures
        1 <= line_at(s, i) <= i + 1,
    decreases i,
{
    if i > 0 {
        lemma_line_at_bounds(s, i - 1);
    }
}

proof fn lemma_column_at_bounds(s: Seq<char>, i: int)
    requires
        0 <= i,
    ensures
        0 <= column_at(s, i) <= i,
    decreases i,
{
    if i > 0 {
        lemma_column_at_bounds(s, i - 1);
    }
}

// ---------------------------------------------------------------------------
// Scan model: what token starts where
// ---------------------------------------------------------------------------

/// The first offset at or after `i` holding a non-whitespace character, or
/// the text's length if only whitespace remains.
pub open spec fn skip_whitespace(s: Seq<char>, i: int) -> int
    decreases s.len() - i,
{
    if 0 <= i < s.len() && is_whitespace_char(s[i]) {
        skip_whitespace(s, i + 1)
    } else {
        i
    }
}

/// The end of the number run that continues at `i`: the first offset at or
/// after `i` whose character is not a digit, `_` or `.`, or the text's
/// length.
pub open spec fn number_end(s: Seq<char>, i: int) -> int
    decreases s.len() - i,
{
    if 0 <= i < s.len() && is_number_char(s[i]) {
        number_end(s, i + 1)
    } else {
        i
    }
}

/// The end of the identifier run that continues at `i`: the first offset at
/// or after `i` whose character is not an ASCII letter, digit or `_`, or the
/// text's length.
pub open spec fn identifier_end(s: Seq<char>, i: int) -> int
    decreases s.len() - i,
{
    if 0 <= i < s.len() && is_identifier_char(s[i]) {
        identifier_end(s, i + 1)
    } else {
        i
    }
}

/// The offset of the first occurrence of `q` at or after `i`, or the text's
/// length if `q` does not occur there.
pub open spec fn close_index(s: Seq<char>, i: int, q: char) -> int
    decreases s.len() - i,
{
    if 0 <= i < s.len() {
        if s[i] == q {
            i
        } else {
            close_index(s, i + 1, q)
        }
    } else {
        s.len() as int
    }
}

/// How many decimal points a lexeme holds.
pub open spec fn dot_count(t: Seq<char>) -> int
    decreases t.len(),
{
    if t.len() == 0 {
        0
    } else if t.last() == '.' {
        dot_count(t.drop_last()) + 1
    } else {
        dot_count(t.drop_last())
    }
}

/// The keyword that a lexeme spells, if any.
pub open spec fn keyword_kind(t: Seq<char>) -> Option<SpecTokenKind> {
    if t == "fn"@ {
        Some(SpecTokenKind::Fn)
    } else if t == "mut"@ {
        Some(SpecTokenKind::Mut)
    } else if t == "if"@ {
        Some(SpecTokenKind::If)
    } else if t == "elif"@ {
        Some(SpecTokenKind::Elif)
    } else if t == "else"@ {
        Some(SpecTokenKind::Else)
    } else if t == "for"@ {
        Some(SpecTokenKind::For)
    } else if t == "in"@ {
        Some(SpecTokenKind::In)
    } else if t == "while"@ {
        Some(SpecTokenKind::While)
    } else {
        None
    }
}

/// The symbol that a single character spells, if any.
pub open spec fn one_char_symbol(c: char) -> Option<SpecTokenKind> {
    if c == '{' {
        Some(SpecTokenKind::LeftCurly)
    } else if c == '}' {
        Some(SpecTokenKind::RightCurly)
    } else if c == '(' {
        Some(SpecTokenKind::LeftParen)
    } else if c == ')' {
        Some(SpecTokenKind::RightParen)
    } else if c == '[' {
        Some(SpecTokenKind::LeftBracket)
    } else if c == ']' {
        Some(SpecTokenKind::RightBracket)
    } else if c == ',' {
        Some(SpecTokenKind::Colon)
    } else if c == '!' {
        Some(SpecTokenKind::Not)
    } else if c == '<' {
        Some(SpecTokenKind::LowerThan)
    } else if c == '>' {
        Some(SpecTokenKind::GreaterThan)
    } else if c == '~' {
        Some(SpecTokenKind::BitNot)
    } else if c == '&' {
        Some(SpecTokenKind::BitAnd)
    } else if c == '|' {
        Some(SpecTokenKind::BitOr)
    } else if c == '^' {
        Some(SpecTokenKind::BitXor)
    } else if c == '=' {
        Some(SpecTokenKind::Assignment)
    } else if c == '+' {
        Some(SpecTokenKind::Plus)
    } else if c == '-' {
        Some(SpecTokenKind::Minus)
    } else if c == '*' {
        Some(SpecTokenKind::Times)
    } else if c == '/' {
        Some(SpecTokenKind::DividedBy)
    } else if c == '%' {
        Some(SpecTokenKind::Modulus)
    } else {
        None
    }
}

/// The symbol that a pair of adjacent characters spells, if any.
pub open spec fn two_char_symbol(a: char, b: char) -> Option<SpecTokenKind> {
    if a == '&' && b == '&' {
        Some(SpecTokenKind::And)
    } else if a == '|' && b == '|' {
        Some(SpecTokenKind::Or)
    } else if a == '=' && b == '=' {
        Some(SpecTokenKind::Equals)
    } else if a == '!' && b == '=' {
        Some(SpecTokenKind::NotEquals)
    } else if a == '<' && b == '=' {
        Some(SpecTokenKind::LowerEquals)
    } else if a == '>' && b == '=' {
        Some(SpecTokenKind::GreaterEquals)
    } else if a == ':' && b == '=' {
        Some(SpecTokenKind::Declaratation)
    } else {
        None
    }
}

/// A character that opens a symbol lexeme: any character that is itself a
/// symbol, and `:`, which opens the two-character symbol `:=`.
pub open spec fn is_symbol_start_char(c: char) -> bool {
    one_char_symbol(c) is Some || c == ':'
}

/// The token that starts at offset `p`, and the cursor offset directly
/// after it. `p` must hold a non-whitespace character; dispatch is by that
/// character's class, in this order: digit, identifier start, `"`, `'`,
/// symbol start, and lastly a lone unrecognized character, which becomes an
/// `Invalid` token of its own.
pub open spec fn scan_token(s: Seq<char>, p: int) -> (SpecTokenKind, int)
    recommends
        0 <= p < s.len(),
        !is_whitespace_char(s[p]),
{
    let c = s[p];
    if is_digit_char(c) {
        let e = number_end(s, p + 1);
        let t = s.subrange(p, e);
        if dot_count(t) > 1 {
            (SpecTokenKind::Invalid(t), e)
        } else {
            (SpecTokenKind::Number(t), e)
        }
    } else if is_identifier_start_char(c) {
        let e = identifier_end(s, p + 1);
        let t = s.subrange(p, e);
        match keyword_kind(t) {
            Some(k) => (k, e),
            None => (SpecTokenKind::Identifier(t), e),
        }
    } else if c == '"' {
        let j = close_index(s, p + 1, '"');
        if j < s.len() {
            (SpecTokenKind::String(s.subrange(p + 1, j)), j + 1)
        } else {
            (SpecTokenKind::Invalid(s.subrange(p + 1, s.len() as int)), s.len() as int)
        }
    } else if c == '\'' {
        let j = close_index(s, p + 1, '\'');
        if j < s.len() {
            let t = s.subrange(p + 1, j);
            if t.len() == 1 {
                (SpecTokenKind::Char(t), j + 1)
            } else {
                (SpecTokenKind::Invalid(t), j + 1)
            }
        } else {
            (SpecTokenKind::Invalid(s.subrange(p + 1, s.len() as int)), s.len() as int)
        }
    } else if is_symbol_start_char(c) {
        if p + 1 < s.len() && two_char_symbol(c, s[p + 1]) is Some {
            match two_char_symbol(c, s[p + 1]) {
                Some(k) => (k, p + 2),
                None => (SpecTokenKind::Invalid(s.subrange(p, p + 1)), p + 1),
            }
        } else {
            match one_char_symbol(c) {
                Some(k) => (k, p + 1),
                None => (SpecTokenKind::Invalid(s.subrange(p, p + 1)), p + 1),
            }
        }
    } else {
        (SpecTokenKind::Invalid(s.subrange(p, p + 1)), p + 1)
    }
}

/// The next token of the text `s` when the cursor stands at offset `i`:
/// `None` when only whitespace remains, else the token's kind, the offset
/// of its first character, and the cursor offset directly after it.
pub open spec fn next_token_at(s: Seq<char>, i: int) -> Option<(SpecTokenKind, int, int)> {
    let p = skip_whitespace(s, i);
    if p >= s.len() {
        None
    } else {
        let (k, e) = scan_token(s, p);
        Some((k, p, e))
    }
}

// ---------------------------------------------------------------------------
// Bounds of the scan model
// ---------------------------------------------------------------------------

proof fn lemma_skip_whitespace_bounds(s: Seq<char>, i: int)
    requires
        0 <= i <= s.len(),
    ensures
        i <= skip_whitespace(s, i) <= s.len(),
    decreases s.len() - i,
{
    if i < s.len() && is_whitespace_char(s[i]) {
        lemma_skip_whitespace_bounds(s, i + 1);
    }
}

proof fn lemma_number_end_bounds(s: Seq<char>, i: int)
    requires
        0 <= i <= s.len(),
    ensures
        i <= number_end(s, i) <= s.len(),
    decreases s.len() - i,
{
    if i < s.len() && is_number_char(s[i]) {
        lemma_number_end_bounds(s, i + 1);
    }
}

proof fn lemma_identifier_end_bounds(s: Seq<char>, i: int)
    requires
        0 <= i <= s.len(),
    ensures
        i <= identifier_end(s, i) <= s.len(),
    decreases s.len() - i,
{
    if i < s.len() && is_identifier_char(s[i]) {
        lemma_identifier_end_bounds(s, i + 1);
    }
}

proof fn lemma_close_index_bounds(s: Seq<char>, i: int, q: char)
    requires
        0 <= i <= s.len(),
    ensures
        i <= close_index(s, i, q) <= s.len(),
    decreases s.len() - i,
{
    if i < s.len() && s[i] != q {
        lemma_close_index_bounds(s, i + 1, q);
    }
}

/// Scanning makes progress: the token that starts at `p` covers at least
/// the character at `p` and ends within the text.
pub proof fn lemma_scan_token_in_range(s: Seq<char>, p: int)
    requires
        0 <= p < s.len(),
        !is_whitespace_char(s[p]),
    ensures
        p < scan_token(s, p).1 <= s.len(),
{
    let c = s[p];
    if is_digit_char(c) {
        lemma_number_end_bounds(s, p + 1);
    } else if is_identifier_start_char(c) {
        lemma_identifier_end_bounds(s, p + 1);
    } else if c == '"' {
        lemma_close_index_bounds(s, p + 1, '"');
    } else if c == '\'' {
        lemma_close_index_bounds(s, p + 1, '\'');
    }
}

proof fn lemma_skip_whitespace_stops(s: Seq<char>, i: int)
    requires
        0 <= i <= s.len(),
    ensures
        skip_whitespace(s, i) == s.len() || !is_whitespace_char(s[skip_whitespace(s, i)]),
    decreases s.len() - i,
{
    if i < s.len() && is_whitespace_char(s[i]) {
        lemma_skip_whitespace_stops(s, i + 1);
    }
}

proof fn lemma_number_end_all(s: Seq<char>, i: int)
    requires
        0 <= i <= s.len(),
        forall|k: int| i <= k < s.len() ==> is_number_char(#[trigger] s[k]),
    ensures
        number_end(s, i) == s.len(),
    decreases s.len() - i,
{
    if i < s.len() {
        lemma_number_end_all(s, i + 1);
    }
}

proof fn lemma_dot_count_zero(t: Seq<char>)
    requires
        forall|k: int| 0 <= k < t.len() ==> #[trigger] t[k] != '.',
    ensures
        dot_count(t) == 0,
    decreases t.len(),
{
    if t.len() > 0 {
        assert forall|k: int| 0 <= k < t.drop_last().len() implies #[trigger] t.drop_last()[k]
            != '.' by {
            assert(t.drop_last()[k] == t[k]);
        }
        lemma_dot_count_zero(t.drop_last());
        assert(t.last() == t[t.len() - 1]);
    }
}

// ---------------------------------------------------------------------------
// Laws of the scan model
// ---------------------------------------------------------------------------

/// A text of whitespace alone yields no token: scanning from any position
/// within it produces nothing.
pub proof fn lemma_whitespace_only_yields_none(s: Seq<char>, i: int)
    requires
        0 <= i <= s.len(),
        forall|k: int| 0 <= k < s.len() ==> is_whitespace_char(#[trigger] s[k]),
    ensures
        next_token_at(s, i) is None,
    decreases s.len() - i,
{
    if i < s.len() {
        lemma_whitespace_only_yields_none(s, i + 1);
    }
}

/// A text that is one unbroken run of ASCII digits scans as a single
/// `Number` token carrying the whole text, found at the very start, with
/// the cursor moved past the whole run.
pub proof fn lemma_digit_run_is_number(s: Seq<char>)
    requires
        s.len() > 0,
        forall|k: int| 0 <= k < s.len() ==> is_digit_char(#[trigger] s[k]),
    ensures
        next_token_at(s, 0) == Some((SpecTokenKind::Number(s), 0int, s.len() as int)),
{
    assert(!is_whitespace_char(s[0]));
    lemma_number_end_all(s, 1);
    let t = s.subrange(0, s.len() as int);
    assert(t =~= s);
    lemma_dot_count_zero(s);
}

/// A scanned token occupies a window of the text that begins at or after
/// the cursor it was scanned from and is never empty.
pub proof fn lemma_token_window(s: Seq<char>, i: int)
    requires
        0 <= i <= s.len(),
    ensures
        (match next_token_at(s, i) {
            Some((k, p, e)) => i <= p < e <= s.len(),
            None => true,
        }),
{
    lemma_skip_whitespace_bounds(s, i);
    let p = skip_whitespace(s, i);
    if p < s.len() {
        lemma_skip_whitespace_stops(s, i);
        lemma_scan_token_in_range(s, p);
    }
}

/// Tokens come out in strictly advancing positions: a token scanned from
/// the end of another starts only where the first has ended, so no two
/// tokens of one pass overlap.
pub proof fn lemma_tokens_strictly_ordered(s: Seq<char>, i: int)
    requires
        0 <= i <= s.len(),
    ensures
        (match next_token_at(s, i) {
            Some((k1, p1, e1)) => match next_token_at(s, e1) {
                Some((k2, p2, e2)) => p1 < e1 <= p2 < e2,
                None => true,
            },
            None => true,
        }),
{
    lemma_token_window(s, i);
    match next_token_at(s, i) {
        Some((k1, p1, e1)) => {
            lemma_token_window(s, e1);
        },
        None => {},
    }
}

proof fn lemma_position_advances(s: Seq<char>, i: int, j: int)
    requires
        0 <= i < j <= s.len(),
    ensures
        line_at(s, i) <= line_at(s, j),
        line_at(s, i) == line_at(s, j) ==> column_at(s, i) < column_at(s, j),
    decreases j - i,
{
    if i < j - 1 {
        lemma_position_advances(s, i, j - 1);
    }
    lemma_line_at_bounds(s, i);
    lemma_line_at_bounds(s, j);
}

/// The positions reported for successive tokens advance: the token scanned
/// from the end of another stands on a later line, or further right on the
/// same line.
pub proof fn lemma_token_positions_advance(s: Seq<char>, i: int)
    requires
        0 <= i <= s.len(),
    ensures
        (match next_token_at(s, i) {
            Some((k1, p1, e1)) => match next_token_at(s, e1) {
                Some((k2, p2, e2)) => {
                    &&& line_at(s, p1) <= line_at(s, p2)
                    &&& (line_at(s, p1) == line_at(s, p2) ==> column_at(s, p1) < column_at(
                        s,
                        p2,
                    ))
                },
                None => true,
            },
            None => true,
        }),
{
    lemma_token_window(s, i);
    match next_token_at(s, i) {
        Some((k1, p1, e1)) => {
            lemma_token_window(s, e1);
            match next_token_at(s, e1) {
                Some((k2, p2, e2)) => {
                    lemma_position_advances(s, p1, p2);
                },
                None => {},
            }
        },
        None => {},
    }
}

/// Scanning is deterministic: the token stream is a function of the text
/// alone, so two scanners over equal texts are owed identical results at
/// every cursor position.
pub proof fn lemma_scan_deterministic(s1: Seq<char>, s2: Seq<char>, i: int)
    requires
        s1 == s2,
    ensures
        next_token_at(s1, i) == next_token_at(s2, i),
{
}

// ---------------------------------------------------------------------------
// The scanner
// ---------------------------------------------------------------------------

/// The scanning engine. It owns one source unit's name and full text and a
/// forward-only cursor into the text, and yields the text's tokens one by
/// one through [`Lexer::next`].
pub struct Lexer {
    source_file: String,
    content: String,
    /// The number of characters in `content`.
    length: usize,
    /// The number of characters consumed so far.
    offset: usize,
    /// The number of line feeds among the consumed characters. The cursor
    /// stands on 1-based line `newlines + 1`.
    newlines: usize,
    /// The number of characters consumed since the last line feed.
    column: usize,
}

impl Lexer {
    /// The name of the source unit, as given at construction.
    pub closed spec fn source_name(self) -> Seq<char> {
        self.source_file@
    }

    /// The full source text, as given at construction.
    pub closed spec fn src(self) -> Seq<char> {
        self.content@
    }

    /// The cursor: how many characters have been consumed.
    pub closed spec fn pos(self) -> int {
        self.offset as int
    }

    /// Well-formedness: the cached length and the line/column bookkeeping
    /// agree with the text and the cursor. Construction establishes this and
    /// every operation preserves it.
    pub closed spec fn wf(self) -> bool {
        &&& self.length == self.content@.len()
        &&& self.offset <= self.length
        &&& self.newlines + 1 == line_at(self.content@, self.offset as int)
        &&& self.column == column_at(self.content@, self.offset as int)
    }

    /// Makes a scanner over one source unit, with the cursor at the start of
    /// the text: offset 0, line 1, column 0.
    pub fn new(source_file: String, content: String) -> (l: Lexer)
        ensures
            l.wf(),
            l.source_name() == source_file@,
            l.src() == content@,
            l.pos() == 0,
    {
        let length = content.as_str().unicode_len();
        Lexer { source_file, content, length, offset: 0, newlines: 0, column: 0 }
    }

    /// The character under the cursor, without consuming it, or `None` at
    /// the end of the text.
    fn peek(&self) -> (c: Option<char>)
        requires
            self.wf(),
        ensures
            c == (if self.pos() < self.src().len() {
                Some(self.src()[self.pos()])
            } else {
                None::<char>
            }),
    {
        if self.offset < self.length {
            Some(self.content.as_str().get_char(self.offset))
        } else {
            None
        }
    }

    /// Consumes one character and returns it, or returns `None` at the end
    /// of the text. Consuming a line feed moves the cursor to the start of
    /// the next line; consuming any other character moves it one column on.
    fn advance(&mut self) -> (c: Option<char>)
        requires
            old(self).wf(),
        ensures
            final(self).wf(),
            final(self).source_name() == old(self).source_name(),
            final(self).src() == old(self).src(),
            old(self).pos() < old(self).src().len() ==> {
                &&& c == Some(old(self).src()[old(self).pos()])
                &&& final(self).pos() == old(self).pos() + 1
            },
            old(self).pos() == old(self).src().len() ==> {
                &&& c is None
                &&& final(self).pos() == old(self).pos()
            },
    {
        if self.offset < self.length {
            let c = self.content.as_str().get_char(self.offset);
            proof {
                lemma_line_at_bounds(self.content@, self.offset as int);
                lemma_column_at_bounds(self.content@, self.offset as int);
            }
            if c == '\n' {
                self.newlines = self.newlines + 1;
                self.column = 0;
            } else {
                self.column = self.column + 1;
            }
            self.offset = self.offset + 1;
            Some(c)
        } else {
            None
        }
    }

    /// Scans the number lexeme that starts under the cursor: the maximal run
    /// of ASCII digits, `_` separators and decimal points. A run with more
    /// than one decimal point is malformed and comes back as `Invalid`,
    /// carrying the whole run.
    fn tokenize_number(&mut self) -> (k: TokenKind)
        requires
            old(self).wf(),
            old(self).pos() < old(self).src().len(),
            is_digit_char(old(self).src()[old(self).pos()]),
        ensures
            final(self).wf(),
            final(self).source_name() == old(self).source_name(),
            final(self).src() == old(self).src(),
            k@ == scan_token(old(self).src(), old(self).pos()).0,
            final(self).pos() == scan_token(old(self).src(), old(self).pos()).1,
    {
        let ghost s = self.content@;
        let ghost start_pos = self.offset as int;
        let start = self.offset;
        let mut dots: usize = 0;
        self.advance();
        proof {
            assert(s.subrange(start_pos, start_pos + 1).drop_last() =~= Seq::<char>::empty());
            assert(s.subrange(start_pos, start_pos + 1).last() == s[start_pos]);
            assert(dot_count(Seq::<char>::empty()) == 0);
            assert(dot_count(s.subrange(start_pos, start_pos + 1)) == 0);
        }
        loop
            invariant
                self.wf(),
                self.src() == s,
                self.source_name() == old(self).source_name(),
                start_pos == start as int,
                start_pos < self.pos() <= s.len(),
                number_end(s, start_pos + 1) == number_end(s, self.pos()),
                dots == dot_count(s.subrange(start_pos, self.pos())),
                dots <= self.pos() - start_pos,
            ensures
                self.wf(),
                self.src() == s,
                self.source_name() == old(self).source_name(),
                start_pos < self.pos() <= s.len(),
                self.pos() == number_end(s, start_pos + 1),
                dots == dot_count(s.subrange(start_pos, self.pos())),
            decreases s.len() - self.pos(),
        {
            match self.peek() {
                Some(c) => {
                    if ('0' <= c && c <= '9') || c == '_' || c == '.' {
                        let ghost p = self.pos();
                        if c == '.' {
                            dots = dots + 1;
                        }
                        self.advance();
                        proof {
                            assert(s.subrange(start_pos, p + 1).drop_last() =~= s.subrange(
                                start_pos,
                                p,
                            ));
                            assert(s.subrange(start_pos, p + 1).last() == s[p]);
                        }
                    } else {
                        break ;
                    }
                },
                None => {
                    break ;
                },
            }
        }
        let text = self.content.as_str().substring_char(start, self.offset).to_owned();
        if dots > 1 {
            TokenKind::Invalid(text)
        } else {
            TokenKind::Number(text)
        }
    }

    /// The keyword token that `text` spells, or `Identifier` carrying `text`
    /// where it spells none.
    fn keyword_token(text: String) -> (k: TokenKind)
        ensures
            k@ == (match keyword_kind(text@) {
                Some(kk) => kk,
                None => SpecTokenKind::Identifier(text@),
            }),
    {
        if text == "fn".to_owned() {
            TokenKind::Fn
        } else if text == "mut".to_owned() {
            TokenKind::Mut
        } else if text == "if".to_owned() {
            TokenKind::If
        } else if text == "elif".to_owned() {
            TokenKind::Elif
        } else if text == "else".to_owned() {
            TokenKind::Else
        } else if text == "for".to_owned() {
            TokenKind::For
        } else if text == "in".to_owned() {
            TokenKind::In
        } else if text == "while".to_owned() {
            TokenKind::While
        } else {
            TokenKind::Identifier(text)
        }
    }

    /// Scans the identifier or keyword lexeme that starts under the cursor:
    /// the maximal run of ASCII letters, digits and underscores. A run that
    /// spells a reserved word becomes that keyword's token; any other run
    /// becomes `Identifier`.
    fn tokenize_identifier(&mut self) -> (k: TokenKind)
        requires
            old(self).wf(),
            old(self).pos() < old(self).src().len(),
            is_identifier_start_char(old(self).src()[old(self).pos()]),
        ensures
            final(self).wf(),
            final(self).source_name() == old(self).source_name(),
            final(self).src() == old(self).src(),
            k@ == scan_token(old(self).src(), old(self).pos()).0,
            final(self).pos() == scan_token(old(self).src(), old(self).pos()).1,
    {
        let ghost s = self.content@;
        let ghost start_pos = self.offset as int;
        let start = self.offset;
        self.advance();
        loop
            invariant
                self.wf(),
                self.src() == s,
                self.source_name() == old(self).source_name(),
                start_pos == start as int,
                start_pos < self.pos() <= s.len(),
                identifier_end(s, start_pos + 1) == identifier_end(s, self.pos()),
            ensures
                self.wf(),
                self.src() == s,
                self.source_name() == old(self).source_name(),
                start_pos < self.pos() <= s.len(),
                self.pos() == identifier_end(s, start_pos + 1),
            decreases s.len() - self.pos(),
        {
            match self.peek() {
                Some(c) => {
                    if ('a' <= c && c <= 'z') || ('A' <= c && c <= 'Z') || ('0' <= c && c <= '9')
                        || c == '_' {
                        self.advance();
                    } else {
                        break ;
                    }
                },
                None => {
                    break ;
                },
            }
        }
        let text = self.content.as_str().substring_char(start, self.offset).to_owned();
        Self::keyword_token(text)
    }

    /// Scans the string literal that opens under the cursor. The text between
    /// the two `"` delimiters comes back as `String`, with both delimiters
    /// consumed and neither kept; no escape processing is done, a backslash
    /// is an ordinary character. Where the text ends before a closing `"`,
    /// everything after the opening delimiter comes back as `Invalid`.
    fn tokenize_string(&mut self) -> (k: TokenKind)
        requires
            old(self).wf(),
            old(self).pos() < old(self).src().len(),
            old(self).src()[old(self).pos()] == '"',
        ensures
            final(self).wf(),
            final(self).source_name() == old(self).source_name(),
            final(self).src() == old(self).src(),
            k@ == scan_token(old(self).src(), old(self).pos()).0,
            final(self).pos() == scan_token(old(self).src(), old(self).pos()).1,
    {
        let ghost s = self.content@;
        self.advance();
        let ghost start_pos = self.offset as int;
        let start = self.offset;
        loop
            invariant
                self.wf(),
                self.src() == s,
                self.source_name() == old(self).source_name(),
                start_pos == start as int,
                start_pos <= self.pos() <= s.len(),
                close_index(s, start_pos, '"') == close_index(s, self.pos(), '"'),
            ensures
                self.wf(),
                self.src() == s,
                self.source_name() == old(self).source_name(),
                start_pos <= self.pos() <= s.len(),
                self.pos() == close_index(s, start_pos, '"'),
                self.pos() == s.len() || s[self.pos()] == '"',
            decreases s.len() - self.pos(),
        {
            match self.peek() {
                Some(c) => {
                    if c == '"' {
                        break ;
                    } else {
                        self.advance();
                    }
                },
                None => {
                    break ;
                },
            }
        }
        let text = self.content.as_str().substring_char(start, self.offset).to_owned();
        match self.peek() {
            Some(_) => {
                self.advance();
                TokenKind::String(text)
            },
            None => TokenKind::Invalid(text),
        }
    }

    /// Scans the character literal that opens under the cursor. The text
    /// between the two `'` delimiters comes back as `Char` when it is
    /// exactly one character long, and as `Invalid` otherwise; both
    /// delimiters are consumed and neither kept. Where the text ends before
    /// a closing `'`, everything after the opening delimiter comes back as
    /// `Invalid`.
    fn tokenize_character(&mut self) -> (k: TokenKind)
        requires
            old(self).wf(),
            old(self).pos() < old(self).src().len(),
            old(self).src()[old(self).pos()] == '\'',
        ensures
            final(self).wf(),
            final(self).source_name() == old(self).source_name(),
            final(self).src() == old(self).src(),
            k@ == scan_token(old(self).src(), old(self).pos()).0,
            final(self).pos() == scan_token(old(self).src(), old(self).pos()).1,
    {
        let ghost s = self.content@;
        self.advance();
        let ghost start_pos = self.offset as int;
        let start = self.offset;
        loop
            invariant
                self.wf(),
                self.src() == s,
                self.source_name() == old(self).source_name(),
                start_pos == start as int,
                start_pos <= self.pos() <= s.len(),
                close_index(s, start_pos, '\'') == close_index(s, self.pos(), '\''),
            ensures
                self.wf(),
                self.src() == s,
                self.source_name() == old(self).source_name(),
                start_pos <= self.pos() <= s.len(),
                self.pos() == close_index(s, start_pos, '\''),
                self.pos() == s.len() || s[self.pos()] == '\'',
            decreases s.len() - self.pos(),
        {
            match self.peek() {
                Some(c) => {
                    if c == '\'' {
                        break ;
                    } else {
                        self.advance();
                    }
                },
                None => {
                    break ;
                },
            }
        }
        let text = self.content.as_str().substring_char(start, self.offset).to_owned();
        match self.peek() {
            Some(_) => {
                let single = self.offset - start == 1;
                self.advance();
                if single {
                    TokenKind::Char(text)
                } else {
                    TokenKind::Invalid(text)
                }
            },
            None => TokenKind::Invalid(text),
        }
    }

    /// The symbol token that a single character spells, if any.
    fn symbol_char_token(c: char) -> (k: Option<TokenKind>)
        ensures
            (match k {
                Some(kk) => one_char_symbol(c) == Some(kk@),
                None => one_char_symbol(c) is None,
            }),
    {
        if c == '{' {
            Some(TokenKind::LeftCurly)
        } else if c == '}' {
            Some(TokenKind::RightCurly)
        } else if c == '(' {
            Some(TokenKind::LeftParen)
        } else if c == ')' {
            Some(TokenKind::RightParen)
        } else if c == '[' {
            Some(TokenKind::LeftBracket)
        } else if c == ']' {
            Some(TokenKind::RightBracket)
        } else if c == ',' {
            Some(TokenKind::Colon)
        } else if c == '!' {
            Some(TokenKind::Not)
        } else if c == '<' {
            Some(TokenKind::LowerThan)
        } else if c == '>' {
            Some(TokenKind::GreaterThan)
        } else if c == '~' {
            Some(TokenKind::BitNot)
        } else if c == '&' {
            Some(TokenKind::BitAnd)
        } else if c == '|' {
            Some(TokenKind::BitOr)
        } else if c == '^' {
            Some(TokenKind::BitXor)
        } else if c == '=' {
            Some(TokenKind::Assignment)
        } else if c == '+' {
            Some(TokenKind::Plus)
        } else if c == '-' {
            Some(TokenKind::Minus)
        } else if c == '*' {
            Some(TokenKind::Times)
        } else if c == '/' {
            Some(TokenKind::DividedBy)
        } else if c == '%' {
            Some(TokenKind::Modulus)
        } else {
            None
        }
    }

    /// The symbol token that a pair of adjacent characters spells, if any.
    fn symbol_pair_token(a: char, b: char) -> (k: Option<TokenKind>)
        ensures
            (match k {
                Some(kk) => two_char_symbol(a, b) == Some(kk@),
                None => two_char_symbol(a, b) is None,
            }),
    {
        if a == '&' && b == '&' {
            Some(TokenKind::And)
        } else if a == '|' && b == '|' {
            Some(TokenKind::Or)
        } else if a == '=' && b == '=' {
            Some(TokenKind::Equals)
        } else if a == '!' && b == '=' {
            Some(TokenKind::NotEquals)
        } else if a == '<' && b == '=' {
            Some(TokenKind::LowerEquals)
        } else if a == '>' && b == '=' {
            Some(TokenKind::GreaterEquals)
        } else if a == ':' && b == '=' {
            Some(TokenKind::Declaratation)
        } else {
            None
        }
    }

    /// Scans the symbol that opens under the cursor, by maximal munch: where
    /// the opening character and its successor spell a two-character symbol
    /// that pair is the token, else the opening character alone spells it. A
    /// `:` followed by anything but `=` spells no symbol at all and comes
    /// back as `Invalid`, carrying the `:` alone.
    pub fn tokenize_symbol(&mut self) -> (k: TokenKind)
        requires
            old(self).wf(),
            old(self).pos() < old(self).src().len(),
            is_symbol_start_char(old(self).src()[old(self).pos()]),
        ensures
            final(self).wf(),
            final(self).source_name() == old(self).source_name(),
            final(self).src() == old(self).src(),
            k@ == scan_token(old(self).src(), old(self).pos()).0,
            final(self).pos() == scan_token(old(self).src(), old(self).pos()).1,
    {
        let start = self.offset;
        let c1 = self.content.as_str().get_char(start);
        self.advance();
        match self.peek() {
            Some(c2) => {
                match Self::symbol_pair_token(c1, c2) {
                    Some(k) => {
                        self.advance();
                        return k;
                    },
                    None => {},
                }
            },
            None => {},
        }
        match Self::symbol_char_token(c1) {
            Some(k) => k,
            None => {
                let text = self.content.as_str().substring_char(start, start + 1).to_owned();
                TokenKind::Invalid(text)
            },
        }
    }

    /// The positional metadata of a token whose first character stands under
    /// the cursor: the source unit's name, the cursor's line, and the
    /// character's 1-based column.
    fn token_context(&self) -> (ctx: TokenContext)
        requires
            self.wf(),
            self.pos() < self.src().len(),
        ensures
            ctx.source_file@ == self.source_name(),
            ctx.line as int == line_at(self.src(), self.pos()),
            ctx.column as int == column_at(self.src(), self.pos()) + 1,
    {
        proof {
            lemma_line_at_bounds(self.content@, self.offset as int);
            lemma_column_at_bounds(self.content@, self.offset as int);
        }
        TokenContext {
            source_file: self.source_file.clone(),
            line: self.newlines + 1,
            column: self.column + 1,
        }
    }

    /// Produces the next token, or `None` once only whitespace remains; in
    /// the latter case the cursor stands at the end of the text. A produced
    /// token is the one that [`scan_token`] gives at the first
    /// non-whitespace position `p` at or after the old cursor, the cursor
    /// moves to the end of that token, and the token's context names the
    /// source unit and `p`'s 1-based line and column. Every token's context
    /// is captured this way at its first character, the context of an
    /// unrecognized lone character no differently from the rest.
    pub fn next(&mut self) -> (t: Option<Token>)
        requires
            old(self).wf(),
        ensures
            final(self).wf(),
            final(self).source_name() == old(self).source_name(),
            final(self).src() == old(self).src(),
            old(self).pos() <= final(self).pos() <= old(self).src().len(),
            (match t {
                None => {
                    &&& next_token_at(old(self).src(), old(self).pos()) is None
                    &&& final(self).pos() == old(self).src().len()
                },
                Some(tok) => {
                    let s = old(self).src();
                    let p = skip_whitespace(s, old(self).pos());
                    &&& p < s.len()
                    &&& next_token_at(s, old(self).pos()) == Some(
                        (tok.kind@, p, final(self).pos()),
                    )
                    &&& tok.kind@ == scan_token(s, p).0
                    &&& final(self).pos() == scan_token(s, p).1
                    &&& p < final(self).pos()
                    &&& tok.context.source_file@ == old(self).source_name()
                    &&& tok.context.line as int == line_at(s, p)
                    &&& tok.context.column as int == column_at(s, p) + 1
                },
            }),
    {
        let ghost s = self.content@;
        loop
            invariant
                self.wf(),
                self.src() == s,
                self.source_name() == old(self).source_name(),
                old(self).pos() <= self.pos() <= s.len(),
                skip_whitespace(s, old(self).pos()) == skip_whitespace(s, self.pos()),
            ensures
                self.wf(),
                self.src() == s,
                self.source_name() == old(self).source_name(),
                old(self).pos() <= self.pos() <= s.len(),
                self.pos() == skip_whitespace(s, old(self).pos()),
                self.pos() == s.len() || !is_whitespace_char(s[self.pos()]),
            decreases s.len() - self.pos(),
        {
            match self.peek() {
                Some(c) => {
                    if c == ' ' || c == '\t' || c == '\n' || c == '\r' || c == '\x0c' {
                        self.advance();
                    } else {
                        break ;
                    }
                },
                None => {
                    break ;
                },
            }
        }
        match self.peek() {
            None => None,
            Some(c) => {
                proof {
                    lemma_scan_token_in_range(s, self.pos());
                }
                let context = self.token_context();
                let kind = if '0' <= c && c <= '9' {
                    self.tokenize_number()
                } else if ('a' <= c && c <= 'z') || ('A' <= c && c <= 'Z') || c == '_' {
                    self.tokenize_identifier()
                } else if c == '"' {
                    self.tokenize_string()
                } else if c == '\'' {
                    self.tokenize_character()
                } else if Self::symbol_char_token(c).is_some() || c == ':' {
                    self.tokenize_symbol()
                } else {
                    let start = self.offset;
                    let text = self.content.as_str().substring_char(start, start + 1).to_owned();
                    self.advance();
                    TokenKind::Invalid(text)
                };
                Some(Token { kind, context })
            },
        }
    }
}

} // verus!

