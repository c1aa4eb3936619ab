//! The scanner: source characters in, tokens out.
//!
//! The lexical rules are stated once, as the spec functions `scan_step`
//! (one lexeme) and `scan_from` (a whole suffix of the input); the
//! executable `Scanner` is verified to produce exactly `scan_from` of
//! its source.

use vstd::prelude::*;
use crate::token::{Token, TokenType, TokenTypeV, TokenV, tokens_view};

verus! {

broadcast use vstd::std_specs::vec::group_vec_axioms;

/// Why scanning failed.
pub enum LexErrorKind {
    /// A character outside the lexical alphabet, outside any string literal.
    UnexpectedChar(char),
    /// End of input reached before the closing quote of a string literal.
    UnterminatedString,
    /// A number literal whose integer part does not fit the numeric domain.
    NumberTooLarge,
}

/// A fatal scanning error with the 1-based line it occurred on.
pub struct LexError {
    pub line: usize,
    pub kind: LexErrorKind,
}

/// A decimal digit.
pub open spec fn is_digit(c: char) -> bool {
    '0' <= c && c <= '9'
}

/// A character that may begin an identifier.
pub open spec fn is_alpha(c: char) -> bool {
    ('a' <= c && c <= 'z') || ('A' <= c && c <= 'Z') || c == '_'
}

/// A character that may continue an identifier.
pub open spec fn is_alnum(c: char) -> bool {
    is_alpha(c) || is_digit(c)
}

/// The numeric value of a decimal digit.
pub open spec fn digit_val(c: char) -> int {
    c as int - '0' as int
}

/// The line counter after one more newline; it saturates rather than wraps.
pub open spec fn next_line(line: usize) -> usize {
    if line < usize::MAX {
        (line + 1) as usize
    } else {
        line
    }
}

/// The first position at or after `i` that does not hold a digit.
pub open spec fn digits_end(s: Seq<char>, i: int) -> int
    decreases s.len() - i,
{
    if 0 <= i < s.len() && is_digit(s[i]) {
        digits_end(s, i + 1)
    } else {
        i
    }
}

/// The first position at or after `i` that does not hold an identifier character.
pub open spec fn ident_end(s: Seq<char>, i: int) -> int
    decreases s.len() - i,
{
    if 0 <= i < s.len() && is_alnum(s[i]) {
        ident_end(s, i + 1)
    } else {
        i
    }
}

/// The position of the next newline at or after `i`, or the end of input.
pub open spec fn line_end(s: Seq<char>, i: int) -> int
    decreases s.len() - i,
{
    if 0 <= i < s.len() && s[i] != '\n' {
        line_end(s, i + 1)
    } else {
        i
    }
}

/// Scans the body of a string literal from `i`: returns the position of
/// the closing quote (or the end of input if there is none) and the line
/// counter after the newlines consumed on the way.
pub open spec fn string_body_end(s: Seq<char>, i: int, line: usize) -> (int, usize)
    decreases s.len() - i,
{
    if 0 <= i < s.len() {
        if s[i] == '"' {
            (i, line)
        } else {
            string_body_end(s, i + 1, if s[i] == '\n' { next_line(line) } else { line })
        }
    } else {
        (i, line)
    }
}

/// The value of a run of decimal digits, most significant first.
pub open spec fn dec_val(s: Seq<char>) -> int
    decreases s.len(),
{
    if s.len() == 0 {
        0
    } else {
        dec_val(s.drop_last()) * 10 + digit_val(s.last())
    }
}

/// The keyword token for a piece of identifier text, if it is one.
pub open spec fn keyword_of(s: Seq<char>) -> Option<TokenTypeV> {
    if s == "and"@ {
        Some(TokenTypeV::And)
    } else if s == "class"@ {
        Some(TokenTypeV::Class)
    } else if s == "else"@ {
        Some(TokenTypeV::Else)
    } else if s == "false"@ {
        Some(TokenTypeV::False)
    } else if s == "for"@ {
        Some(TokenTypeV::For)
    } else if s == "fun"@ {
        Some(TokenTypeV::Fun)
    } else if s == "if"@ {
        Some(TokenTypeV::If)
    } else if s == "nil"@ {
        Some(TokenTypeV::Nil)
    } else if s == "or"@ {
        Some(TokenTypeV::Or)
    } else if s == "print"@ {
        Some(TokenTypeV::Print)
    } else if s == "return"@ {
        Some(TokenTypeV::Return)
    } else if s == "super"@ {
        Some(TokenTypeV::Super)
    } else if s == "this"@ {
        Some(TokenTypeV::This)
    } else if s == "true"@ {
        Some(TokenTypeV::True)
    } else if s == "var"@ {
        Some(TokenTypeV::Var)
    } else if s == "while"@ {
        Some(TokenTypeV::While)
    } else {
        None
    }
}

/// One step of the scanner at position `i`: the token emitted (none for
/// whitespace and comments), the position after the lexeme, and the new
/// line counter — or the fatal lexical error.  This is the lexical table
/// of the language.
pub open spec fn scan_step(s: Seq<char>, i: int, line: usize) -> Result<
    (Option<TokenV>, int, usize),
    LexError,
>
    recommends
        0 <= i < s.len(),
{
    let c = s[i];
    if c == '(' {
        Ok((Some(TokenV { token_type: TokenTypeV::LeftParen, line }), i + 1, line))
    } else if c == ')' {
        Ok((Some(TokenV { token_type: TokenTypeV::RightParen, line }), i + 1, line))
    } else if c == '{' {
        Ok((Some(TokenV { token_type: TokenTypeV::LeftBrace, line }), i + 1, line))
    } else if c == '}' {
        Ok((Some(TokenV { token_type: TokenTypeV::RightBrace, line }), i + 1, line))
    } else if c == ',' {
        Ok((Some(TokenV { token_type: TokenTypeV::Comma, line }), i + 1, line))
    } else if c == '.' {
        Ok((Some(TokenV { token_type: TokenTypeV::Dot, line }), i + 1, line))
    } else if c == '-' {
        Ok((Some(TokenV { token_type: TokenTypeV::Minus, line }), i + 1, line))
    } else if c == '+' {
        Ok((Some(TokenV { token_type: TokenTypeV::Plus, line }), i + 1, line))
    } else if c == ';' {
        Ok((Some(TokenV { token_type: TokenTypeV::Semicolon, line }), i + 1, line))
    } else if c == '*' {
        Ok((Some(TokenV { token_type: TokenTypeV::Star, line }), i + 1, line))
    } else if c == '\n' {
        Ok((None, i + 1, next_line(line)))
    } else if c == ' ' || c == '\r' || c == '\t' {
        Ok((None, i + 1, line))
    } else if c == '!' {
        if i + 1 < s.len() && s[i + 1] == '=' {
            Ok((Some(TokenV { token_type: TokenTypeV::BangEq, line }), i + 2, line))
        } else {
            Ok((Some(TokenV { token_type: TokenTypeV::Bang, line }), i + 1, line))
        }
    } else if c == '=' {
        if i + 1 < s.len() && s[i + 1] == '=' {
            Ok((Some(TokenV { token_type: TokenTypeV::EqEq, line }), i + 2, line))
        } else {
            Ok((Some(TokenV { token_type: TokenTypeV::Eq, line }), i + 1, line))
        }
    } else if c == '<' {
        if i + 1 < s.len() && s[i + 1] == '=' {
            Ok((Some(TokenV { token_type: TokenTypeV::LessEq, line }), i + 2, line))
        } else {
            Ok((Some(TokenV { token_type: TokenTypeV::Less, line }), i + 1, line))
        }
    } else if c == '>' {
        if i + 1 < s.len() && s[i + 1] == '=' {
            Ok((Some(TokenV { token_type: TokenTypeV::GreaterEq, line }), i + 2, line))
        } else {
            Ok((Some(TokenV { token_type: TokenTypeV::Greater, line }), i + 1, line))
        }
    } else if c == '/' {
        if i + 1 < s.len() && s[i + 1] == '/' {
            // A line comment runs to the end of the line; the newline itself
            // is left for the next step.
            Ok((None, line_end(s, i + 2), line))
        } else {
            Ok((Some(TokenV { token_type: TokenTypeV::Slash, line }), i + 1, line))
        }
    } else if c == '"' {
        let (j, l2) = string_body_end(s, i + 1, line);
        if j >= s.len() {
            Err(LexError { line: l2, kind: LexErrorKind::UnterminatedString })
        } else {
            Ok(
                (
                    Some(TokenV { token_type: TokenTypeV::Str(s.subrange(i + 1, j)), line: l2 }),
                    j + 1,
                    l2,
                ),
            )
        }
    } else if is_digit(c) {
        let j = digits_end(s, i);
        let end = if j < s.len() && s[j] == '.' && j + 1 < s.len() && is_digit(s[j + 1]) {
            digits_end(s, j + 1)
        } else {
            j
        };
        let v = dec_val(s.subrange(i, j));
        if v > i64::MAX as int {
            Err(LexError { line, kind: LexErrorKind::NumberTooLarge })
        } else {
            Ok((Some(TokenV { token_type: TokenTypeV::Num(v as i64), line }), end, line))
        }
    } else if is_alpha(c) {
        let j = ident_end(s, i);
        let text = s.subrange(i, j);
        let kind = match keyword_of(text) {
            Some(k) => k,
            None => TokenTypeV::Identifier(text),
        };
        Ok((Some(TokenV { token_type: kind, line }), j, line))
    } else {
        Err(LexError { line, kind: LexErrorKind::UnexpectedChar(c) })
    }
}

/// The tokens of the whole suffix of `s` that starts at `i`, ending in
/// exactly one end-of-stream token — or the first fatal lexical error.
pub open spec fn scan_from(s: Seq<char>, i: int, line: usize) -> Result<Seq<TokenV>, LexError>
    decreases s.len() - i,
{
    if !(0 <= i < s.len()) {
        Ok(seq![TokenV { token_type: TokenTypeV::Eof, line }])
    } else {
        match scan_step(s, i, line) {
            Err(e) => Err(e),
            Ok((ot, i2, l2)) => if i < i2 <= s.len() {
                match scan_from(s, i2, l2) {
                    Err(e) => Err(e),
                    Ok(rest) => Ok(
                        match ot {
                            Some(t) => seq![t] + rest,
                            None => rest,
                        },
                    ),
                }
            } else {
                // Never reached: every step consumes at least one character
                // (`lemma_scan_step_progress`).
                Err(LexError { line, kind: LexErrorKind::UnexpectedChar(s[i]) })
            },
        }
    }
}

/// Bounds of a digit run: `digits_end` never moves backwards and never
/// passes the end of the input.
pub proof fn lemma_digits_end_bounds(s: Seq<char>, i: int)
    requires
        0 <= i <= s.len(),
    ensures
        i <= digits_end(s, i) <= s.len(),
    decreases s.len() - i,
{
    if i < s.len() && is_digit(s[i]) {
        lemma_digits_end_bounds(s, i + 1);
    }
}

/// Bounds of an identifier run.
pub proof fn lemma_ident_end_bounds(s: Seq<char>, i: int)
    requires
        0 <= i <= s.len(),
    ensures
        i <= ident_end(s, i) <= s.len(),
    decreases s.len() - i,
{
    if i < s.len() && is_alnum(s[i]) {
        lemma_ident_end_bounds(s, i + 1);
    }
}

/// Bounds of a comment run.
pub proof fn lemma_line_end_bounds(s: Seq<char>, i: int)
    requires
        0 <= i <= s.len(),
    ensures
        i <= line_end(s, i) <= s.len(),
    decreases s.len() - i,
{
    if i < s.len() && s[i] != '\n' {
        lemma_line_end_bounds(s, i + 1);
    }
}

/// Bounds of a string literal body.
pub proof fn lemma_string_body_end_bounds(s: Seq<char>, i: int, line: usize)
    requires
        0 <= i <= s.len(),
    ensures
        i <= string_body_end(s, i, line).0 <= s.len(),
    decreases s.len() - i,
{
    if i < s.len() && s[i] != '"' {
        lemma_string_body_end_bounds(s, i + 1, if s[i] == '\n' { next_line(line) } else { line });
    }
}

/// Every successful step of the scanner consumes at least one character
/// and stays inside the input.
pub proof fn lemma_scan_step_progress(s: Seq<char>, i: int, line: usize)
    requires
        0 <= i < s.len(),
        scan_step(s, i, line) is Ok,
    ensures
        i < scan_step(s, i, line)->Ok_0.1 <= s.len(),
{
    let c = s[i];
    if c == '/' && i + 1 < s.len() && s[i + 1] == '/' {
        lemma_line_end_bounds(s, i + 2);
    } else if c == '"' {
        lemma_string_body_end_bounds(s, i + 1, line);
    } else if is_digit(c) {
        lemma_digits_end_bounds(s, i + 1);
        assert(digits_end(s, i) == digits_end(s, i + 1));
        let j = digits_end(s, i);
        if j < s.len() && s[j] == '.' && j + 1 < s.len() && is_digit(s[j + 1]) {
            lemma_digits_end_bounds(s, j + 1);
        }
    } else if is_alpha(c) {
        lemma_ident_end_bounds(s, i + 1);
        assert(ident_end(s, i) == ident_end(s, i + 1));
    }
}

/// For every token sequence the scanner produces, the final token is
/// the end-of-stream token and no other token is.
pub proof fn lemma_scan_ends_in_eof(s: Seq<char>, i: int, line: usize)
    ensures
        scan_from(s, i, line) matches Ok(toks) ==> {
            &&& toks.len() >= 1
            &&& toks.last().token_type == TokenTypeV::Eof
            &&& forall|k: int| 0 <= k < toks.len() - 1 ==> toks[k].token_type != TokenTypeV::Eof
        },
    decreases s.len() - i,
{
    if !(0 <= i < s.len()) {
    } else {
        match scan_step(s, i, line) {
            Err(_) => {},
            Ok((ot, i2, l2)) => {
                if i < i2 <= s.len() {
                    lemma_scan_ends_in_eof(s, i2, l2);
                    if scan_from(s, i2, l2) is Ok && ot is Some {
                        let rest = scan_from(s, i2, l2)->Ok_0;
                        let t = ot->0;
                        assert(t.token_type != TokenTypeV::Eof);
                        assert((seq![t] + rest).last() == rest.last());
                        assert(forall|k: int|
                            1 <= k < (seq![t] + rest).len() ==> (seq![t] + rest)[k] == rest[k - 1]);
                    }
                }
            },
        }
    }
}

/// Whether the input from `i` on holds nothing but whitespace and line
/// comments.
pub open spec fn blank_from(s: Seq<char>, i: int) -> bool
    decreases s.len() - i,
{
    if !(0 <= i < s.len()) {
        true
    } else if s[i] == ' ' || s[i] == '\r' || s[i] == '\t' || s[i] == '\n' {
        blank_from(s, i + 1)
    } else if s[i] == '/' && i + 1 < s.len() && s[i + 1] == '/' {
        let j = line_end(s, i + 2);
        if i + 2 <= j <= s.len() {
            blank_from(s, j)
        } else {
            false
        }
    } else {
        false
    }
}

/// An input of nothing but whitespace and comments scans to the
/// end-of-stream token alone.
pub proof fn lemma_blank_scans_to_eof(s: Seq<char>, i: int, line: usize)
    requires
        blank_from(s, i),
    ensures
        scan_from(s, i, line) matches Ok(toks) && toks.len() == 1 && toks[0].token_type
            == TokenTypeV::Eof,
    decreases s.len() - i,
{
    if 0 <= i < s.len() {
        if s[i] == '\n' {
            lemma_blank_scans_to_eof(s, i + 1, next_line(line));
        } else if s[i] == ' ' || s[i] == '\r' || s[i] == '\t' {
            lemma_blank_scans_to_eof(s, i + 1, line);
        } else {
            lemma_line_end_bounds(s, i + 2);
            lemma_blank_scans_to_eof(s, line_end(s, i + 2), line);
        }
    }
}

/// The digits of a run never pass its `digits_end`.
pub proof fn lemma_digits_end_digits(s: Seq<char>, i: int)
    requires
        0 <= i <= s.len(),
    ensures
        forall|k: int| i <= k < digits_end(s, i) ==> is_digit(s[k]),
    decreases s.len() - i,
{
    if i < s.len() && is_digit(s[i]) {
        lemma_digits_end_digits(s, i + 1);
    }
}

/// A run that holds digits alone ends only at the end of the input.
pub proof fn lemma_digits_end_all_digits(s: Seq<char>, i: int)
    requires
        0 <= i <= s.len(),
        forall|k: int| i <= k < s.len() ==> is_digit(#[trigger] s[k]),
    ensures
        digits_end(s, i) == s.len(),
    decreases s.len() - i,
{
    if i < s.len() {
        lemma_digits_end_all_digits(s, i + 1);
    }
}

/// The value of a digit run is never negative.
pub proof fn lemma_dec_val_nonneg(s: Seq<char>)
    requires
        forall|k: int| 0 <= k < s.len() ==> is_digit(s[k]),
    ensures
        dec_val(s) >= 0,
    decreases s.len(),
{
    if s.len() > 0 {
        lemma_dec_val_nonneg(s.drop_last());
    }
}

/// Extending a digit run to the right never lowers its value.
pub proof fn lemma_dec_val_extend(s: Seq<char>, i0: int, a: int, b: int)
    requires
        0 <= i0 <= a <= b <= s.len(),
        forall|k: int| i0 <= k < b ==> is_digit(s[k]),
    ensures
        dec_val(s.subrange(i0, b)) >= dec_val(s.subrange(i0, a)),
    decreases b - a,
{
    if a < b {
        let shorter = s.subrange(i0, b - 1);
        assert(s.subrange(i0, b).drop_last() =~= shorter);
        assert(s.subrange(i0, b).last() == s[b - 1]);
        assert(forall|k: int| 0 <= k < shorter.len() ==> is_digit(#[trigger] shorter[k]));
        lemma_dec_val_nonneg(shorter);
        lemma_dec_val_extend(s, i0, a, b - 1);
    }
}

/// The model of an optional token.
pub open spec fn opt_token_view(o: Option<Token>) -> Option<TokenV> {
    match o {
        Some(t) => Some(t@),
        None => None,
    }
}

/// A decimal digit, decided executably.
fn is_digit_char(c: char) -> (r: bool)
    ensures
        r == is_digit(c),
{
    '0' <= c && c <= '9'
}

/// An identifier-starting character, decided executably.
fn is_alpha_char(c: char) -> (r: bool)
    ensures
        r == is_alpha(c),
{
    ('a' <= c && c <= 'z') || ('A' <= c && c <= 'Z') || c == '_'
}

/// An identifier-continuing character, decided executably.
fn is_alnum_char(c: char) -> (r: bool)
    ensures
        r == is_alnum(c),
{
    is_alpha_char(c) || is_digit_char(c)
}

/// The keyword token for a piece of identifier text, or an identifier
/// token carrying the text itself.
fn keyword_or_identifier(text: String) -> (t: TokenType)
    ensures
        t@ == match keyword_of(text@) {
            Some(k) => k,
            None => TokenTypeV::Identifier(text@),
        },
{
    if String::eq(&text, &String::from_str("and")) {
        TokenType::And
    } else if String::eq(&text, &String::from_str("class")) {
        TokenType::Class
    } else if String::eq(&text, &String::from_str("else")) {
        TokenType::Else
    } else if String::eq(&text, &String::from_str("false")) {
        TokenType::False
    } else if String::eq(&text, &String::from_str("for")) {
        TokenType::For
    } else if String::eq(&text, &String::from_str("fun")) {
        TokenType::Fun
    } else if String::eq(&text, &String::from_str("if")) {
        TokenType::If
    } else if String::eq(&text, &String::from_str("nil")) {
        TokenType::Nil
    } else if String::eq(&text, &String::from_str("or")) {
        TokenType::Or
    } else if String::eq(&text, &String::from_str("print")) {
        TokenType::Print
    } else if String::eq(&text, &String::from_str("return")) {
        TokenType::Return
    } else if String::eq(&text, &String::from_str("super")) {
        TokenType::Super
    } else if String::eq(&text, &String::from_str("this")) {
        TokenType::This
    } else if String::eq(&text, &String::from_str("true")) {
        TokenType::True
    } else if String::eq(&text, &String::from_str("var")) {
        TokenType::Var
    } else if String::eq(&text, &String::from_str("while")) {
        TokenType::While
    } else {
        TokenType::Identifier(text)
    }
}

/// The scanner: three cursors over an owned character buffer, and the
/// tokens collected so far.
pub struct Scanner {
    pub source: Vec<char>,
    pub tokens: Vec<Token>,
    pub start: usize,
    pub current: usize,
    pub line: usize,
}

impl Scanner {
    /// A fresh scanner over the characters of `source`, positioned at the
    /// start with the line counter at 1 and no tokens yet.
    pub fn new(source: String) -> (r: Scanner)
        ensures
            r.source@ == source@,
            r.tokens@.len() == 0,
            r.start == 0,
            r.current == 0,
            r.line == 1,
    {
        let n = source.as_str().unicode_len();
        let mut chars: Vec<char> = Vec::new();
        let mut i: usize = 0;
        while i < n
            invariant
                i <= n,
                n == source@.len(),
                chars@ =~= source@.subrange(0, i as int),
            decreases n - i,
        {
            chars.push(source.as_str().get_char(i));
            i = i + 1;
        }
        assert(chars@ =~= source@);
        Scanner { source: chars, tokens: Vec::new(), start: 0, current: 0, line: 1 }
    }

    fn is_at_end(&self) -> (r: bool)
        ensures
            r == (self.current >= self.source@.len()),
    {
        self.current >= self.source.len()
    }

    fn _char_at(&self, index: usize) -> (c: char)
        requires
            index < self.source@.len(),
        ensures
            c == self.source@[index as int],
    {
        self.source[index]
    }

    fn peek(&self) -> (c: char)
        ensures
            c == if self.current < self.source@.len() {
                self.source@[self.current as int]
            } else {
                '\0'
            },
    {
        if self.is_at_end() {
            '\0'
        } else {
            self._char_at(self.current)
        }
    }

    fn peek_next(&self) -> (c: char)
        ensures
            c == if self.current + 1 < self.source@.len() {
                self.source@[self.current as int + 1]
            } else {
                '\0'
            },
    {
        if self.current >= self.source.len() {
            '\0'
        } else if self.current + 1 >= self.source.len() {
            '\0'
        } else {
            self._char_at(self.current + 1)
        }
    }

    fn advance(&mut self) -> (c: char)
        requires
            old(self).current < old(self).source@.len(),
        ensures
            c == old(self).source@[old(self).current as int],
            final(self).current == old(self).current + 1,
            final(self).source@ == old(self).source@,
            final(self).tokens@ == old(self).tokens@,
            final(self).start == old(self).start,
            final(self).line == old(self).line,
    {
        proof {
            assert(self.current < self.source.len());
        }
        let curr = self.current;
        self.current = self.current + 1;
        self._char_at(curr)
    }

    fn match_(&mut self, expected: char) -> (r: bool)
        ensures
            final(self).source@ == old(self).source@,
            final(self).tokens@ == old(self).tokens@,
            final(self).start == old(self).start,
            final(self).line == old(self).line,
            if old(self).current < old(self).source@.len() && old(self).source@[old(
                self,
            ).current as int] == expected {
                r && final(self).current == old(self).current + 1
            } else {
                !r && final(self).current == old(self).current
            },
    {
        if self.is_at_end() {
            false
        } else if self._char_at(self.current) != expected {
            false
        } else {
            proof {
                assert(self.current < self.source.len());
            }
            self.current = self.current + 1;
            true
        }
    }

    /// Scans a string literal: `current` stands on the opening quote.
    /// Returns the text between the quotes, or the unterminated-string
    /// error with the line reached.
    fn parse_string(&mut self) -> (r: Result<String, LexError>)
        requires
            old(self).current < old(self).source@.len(),
            old(self).source@[old(self).current as int] == '"',
        ensures
            final(self).source@ == old(self).source@,
            final(self).tokens@ == old(self).tokens@,
            final(self).start == old(self).start,
            ({
                let (j, l2) = string_body_end(
                    old(self).source@,
                    old(self).current + 1,
                    old(self).line,
                );
                if j >= old(self).source@.len() {
                    r matches Err(e) && e == (LexError {
                        line: l2,
                        kind: LexErrorKind::UnterminatedString,
                    })
                } else {
                    &&& r matches Ok(text) && text@ == old(self).source@.subrange(
                        old(self).current + 1,
                        j,
                    )
                    &&& final(self).current == j + 1
                    &&& final(self).line == l2
                }
            }),
    {
        let ghost s = self.source@;
        let ghost i0 = self.current as int + 1;
        let ghost line0 = self.line;
        let mut string = String::new();

        // Opening "
        self.advance();
        proof {
            assert(string@ =~= s.subrange(i0, self.current as int));
        }

        while self.current < self.source.len() && self.source[self.current] != '"'
            invariant
                self.source@ == s,
                self.tokens@ == old(self).tokens@,
                self.start == old(self).start,
                0 <= i0 <= self.current as int <= s.len(),
                string@ == s.subrange(i0, self.current as int),
                string_body_end(s, i0, line0) == string_body_end(
                    s,
                    self.current as int,
                    self.line,
                ),
            decreases s.len() - self.current,
        {
            if self.peek() == '\n' {
                self.line = self.line.saturating_add(1);
            }
            let c = self.advance();
            crate::text::push_char(&mut string, c);
            proof {
                assert(string@ =~= s.subrange(i0, self.current as int));
            }
        }

        if self.is_at_end() {
            return Err(LexError { line: self.line, kind: LexErrorKind::UnterminatedString });
        }

        // Closing "
        self.advance();

        Ok(string)
    }

    /// Scans a number literal: `current` stands on its first digit.
    /// The value is the integer part of the literal; a fractional part is
    /// consumed as the grammar asks but contributes nothing to the value.
    fn parse_number(&mut self) -> (r: Result<i64, LexError>)
        requires
            old(self).current < old(self).source@.len(),
            is_digit(old(self).source@[old(self).current as int]),
        ensures
            final(self).source@ == old(self).source@,
            final(self).tokens@ == old(self).tokens@,
            final(self).start == old(self).start,
            final(self).line == old(self).line,
            ({
                let s = old(self).source@;
                let i0 = old(self).current as int;
                let j = digits_end(s, i0);
                let end = if j < s.len() && s[j] == '.' && j + 1 < s.len() && is_digit(
                    s[j + 1],
                ) {
                    digits_end(s, j + 1)
                } else {
                    j
                };
                let v = dec_val(s.subrange(i0, j));
                if v > i64::MAX as int {
                    r matches Err(e) && e == (LexError {
                        line: old(self).line,
                        kind: LexErrorKind::NumberTooLarge,
                    })
                } else {
                    &&& r matches Ok(n) && n as int == v
                    &&& final(self).current as int == end
                }
            }),
    {
        let ghost s = self.source@;
        let ghost i0 = self.current as int;
        let ghost j = digits_end(s, i0);
        proof {
            lemma_digits_end_bounds(s, i0);
            lemma_digits_end_digits(s, i0);
        }

        let mut v: i64 = 0;
        proof {
            assert(s.subrange(i0, i0) =~= Seq::<char>::empty());
        }
        while self.current < self.source.len() && is_digit_char(self.source[self.current])
            invariant
                self.source@ == s,
                s == old(self).source@,
                i0 == old(self).current as int,
                self.tokens@ == old(self).tokens@,
                self.start == old(self).start,
                self.line == old(self).line,
                0 <= i0 <= self.current as int <= s.len(),
                j == digits_end(s, i0),
                digits_end(s, i0) == digits_end(s, self.current as int),
                v >= 0,
                v as int == dec_val(s.subrange(i0, self.current as int)),
            decreases s.len() - self.current,
        {
            let ghost cur = self.current as int;
            let c = self.advance();
            let d: i64 = ((c as u32) - ('0' as u32)) as i64;
            proof {
                assert(s.subrange(i0, cur + 1).drop_last() =~= s.subrange(i0, cur));
                assert(s.subrange(i0, cur + 1).last() == s[cur]);
                lemma_digits_end_bounds(s, cur + 1);
            }
            let m = match v.checked_mul(10) {
                Some(m) => m,
                None => {
                    proof {
                        lemma_digits_end_digits(s, i0);
                        lemma_dec_val_extend(s, i0, cur + 1, j);
                    }
                    return Err(LexError { line: self.line, kind: LexErrorKind::NumberTooLarge });
                },
            };
            v = match m.checked_add(d) {
                Some(nv) => nv,
                None => {
                    proof {
                        lemma_digits_end_digits(s, i0);
                        lemma_dec_val_extend(s, i0, cur + 1, j);
                    }
                    return Err(LexError { line: self.line, kind: LexErrorKind::NumberTooLarge });
                },
            };
        }

        if self.peek() == '.' && is_digit_char(self.peek_next()) {
            // Consume "."
            self.advance();
            proof {
                lemma_digits_end_bounds(s, self.current as int);
            }
            while self.current < self.source.len() && is_digit_char(self.source[self.current])
                invariant
                    self.source@ == s,
                    s == old(self).source@,
                    i0 == old(self).current as int,
                    j == digits_end(s, i0),
                    dec_val(s.subrange(i0, j)) <= i64::MAX as int,
                    self.tokens@ == old(self).tokens@,
                    self.start == old(self).start,
                    self.line == old(self).line,
                    0 <= j,
                    j + 1 <= self.current as int <= s.len(),
                    digits_end(s, j + 1) == digits_end(s, self.current as int),
                decreases s.len() - self.current,
            {
                self.advance();
            }
        }

        Ok(v)
    }

    /// Scans an identifier: `current` stands on its first character.
    fn parse_identifier(&mut self) -> (r: String)
        requires
            old(self).current < old(self).source@.len(),
            is_alnum(old(self).source@[old(self).current as int]),
        ensures
            final(self).source@ == old(self).source@,
            final(self).tokens@ == old(self).tokens@,
            final(self).start == old(self).start,
            final(self).line == old(self).line,
            r@ == old(self).source@.subrange(
                old(self).current as int,
                ident_end(old(self).source@, old(self).current as int),
            ),
            final(self).current as int == ident_end(old(self).source@, old(self).current as int),
    {
        let ghost s = self.source@;
        let ghost i0 = self.current as int;
        let mut identifier = String::new();
        proof {
            assert(identifier@ =~= s.subrange(i0, i0));
        }
        while self.current < self.source.len() && is_alnum_char(self.source[self.current])
            invariant
                self.source@ == s,
                self.tokens@ == old(self).tokens@,
                self.start == old(self).start,
                self.line == old(self).line,
                0 <= i0 <= self.current as int <= s.len(),
                identifier@ == s.subrange(i0, self.current as int),
                ident_end(s, i0) == ident_end(s, self.current as int),
            decreases s.len() - self.current,
        {
            let c = self.advance();
            crate::text::push_char(&mut identifier, c);
            proof {
                assert(identifier@ =~= s.subrange(i0, self.current as int));
            }
        }
        identifier
    }

    /// One step of the scanner, exactly as `scan_step` describes it.
    fn scan_token(&mut self) -> (r: Result<Option<Token>, LexError>)
        requires
            old(self).current < old(self).source@.len(),
        ensures
            final(self).source@ == old(self).source@,
            final(self).tokens@ == old(self).tokens@,
            match scan_step(old(self).source@, old(self).current as int, old(self).line) {
                Ok((ot, i2, l2)) => {
                    &&& r matches Ok(o) && opt_token_view(o) == ot
                    &&& final(self).current as int == i2
                    &&& final(self).line == l2
                },
                Err(e) => r matches Err(e2) && e2 == e,
            },
    {
        let c = self.peek();

        if c == '(' {
            self.advance();
            Ok(Some(Token::new(TokenType::LeftParen, self.line)))
        } else if c == ')' {
            self.advance();
            Ok(Some(Token::new(TokenType::RightParen, self.line)))
        } else if c == '{' {
            self.advance();
            Ok(Some(Token::new(TokenType::LeftBrace, self.line)))
        } else if c == '}' {
            self.advance();
            Ok(Some(Token::new(TokenType::RightBrace, self.line)))
        } else if c == ',' {
            self.advance();
            Ok(Some(Token::new(TokenType::Comma, self.line)))
        } else if c == '.' {
            self.advance();
            Ok(Some(Token::new(TokenType::Dot, self.line)))
        } else if c == '-' {
            self.advance();
            Ok(Some(Token::new(TokenType::Minus, self.line)))
        } else if c == '+' {
            self.advance();
            Ok(Some(Token::new(TokenType::Plus, self.line)))
        } else if c == ';' {
            self.advance();
            Ok(Some(Token::new(TokenType::Semicolon, self.line)))
        } else if c == '*' {
            self.advance();
            Ok(Some(Token::new(TokenType::Star, self.line)))
        } else if c == '\n' {
            self.line = self.line.saturating_add(1);
            self.advance();
            Ok(None)
        } else if c == ' ' || c == '\r' || c == '\t' {
            self.advance();
            Ok(None)
        } else if c == '!' {
            self.advance();
            if self.match_('=') {
                Ok(Some(Token::new(TokenType::BangEq, self.line)))
            } else {
                Ok(Some(Token::new(TokenType::Bang, self.line)))
            }
        } else if c == '=' {
            self.advance();
            if self.match_('=') {
                Ok(Some(Token::new(TokenType::EqEq, self.line)))
            } else {
                Ok(Some(Token::new(TokenType::Eq, self.line)))
            }
        } else if c == '<' {
            self.advance();
            if self.match_('=') {
                Ok(Some(Token::new(TokenType::LessEq, self.line)))
            } else {
                Ok(Some(Token::new(TokenType::Less, self.line)))
            }
        } else if c == '>' {
            self.advance();
            if self.match_('=') {
                Ok(Some(Token::new(TokenType::GreaterEq, self.line)))
            } else {
                Ok(Some(Token::new(TokenType::Greater, self.line)))
            }
        } else if c == '/' {
            let ghost s = self.source@;
            let ghost i0 = self.current as int;
            self.advance();
            if self.match_('/') {
                // Skip over comments
                while self.current < self.source.len() && self.source[self.current] != '\n'
                    invariant
                        self.source@ == s,
                        self.tokens@ == old(self).tokens@,
                        self.line == old(self).line,
                        0 <= i0,
                        i0 + 2 <= self.current as int <= s.len(),
                        line_end(s, i0 + 2) == line_end(s, self.current as int),
                    decreases s.len() - self.current,
                {
                    self.advance();
                }
                Ok(None)
            } else {
                Ok(Some(Token::new(TokenType::Slash, self.line)))
            }
        } else if c == '"' {
            match self.parse_string() {
                Ok(text) => Ok(Some(Token::new(TokenType::Str(text), self.line))),
                Err(e) => Err(e),
            }
        } else if is_digit_char(c) {
            match self.parse_number() {
                Ok(n) => Ok(Some(Token::new(TokenType::Num(n), self.line))),
                Err(e) => Err(e),
            }
        } else if is_alpha_char(c) {
            let text = self.parse_identifier();
            Ok(Some(Token::new(keyword_or_identifier(text), self.line)))
        } else {
            Err(LexError { line: self.line, kind: LexErrorKind::UnexpectedChar(c) })
        }
    }

    /// Scans the whole source: on success the token list is exactly the
    /// model `scan_from` gives for the source, ending in the one
    /// end-of-stream token; on failure the error is the first fatal
    /// lexical error of the model.
    pub fn scan_tokens(&mut self) -> (r: Result<(), LexError>)
        requires
            old(self).current == 0,
            old(self).line == 1,
            old(self).tokens@.len() == 0,
        ensures
            final(self).source@ == old(self).source@,
            match scan_from(old(self).source@, 0, 1) {
                Ok(toks) => r is Ok && tokens_view(final(self).tokens@) == toks,
                Err(e) => r matches Err(e2) && e2 == e,
            },
    {
        let ghost s = self.source@;
        proof {
            assert(tokens_view(self.tokens@) =~= Seq::<TokenV>::empty());
        }

        while self.current < self.source.len()
            invariant
                self.source@ == s,
                s == old(self).source@,
                self.current as int <= s.len(),
                match scan_from(s, self.current as int, self.line) {
                    Ok(rest) => scan_from(s, 0, 1) == Ok::<Seq<TokenV>, LexError>(
                        tokens_view(self.tokens@) + rest,
                    ),
                    Err(e) => scan_from(s, 0, 1) == Err::<Seq<TokenV>, LexError>(e),
                },
            decreases s.len() - self.current,
        {
            let ghost cur = self.current as int;
            let ghost line = self.line;
            self.start = self.current;
            let token = match self.scan_token() {
                Ok(t) => t,
                Err(e) => {
                    return Err(e);
                },
            };
            proof {
                lemma_scan_step_progress(s, cur, line);
            }
            if let Some(t) = token {
                let ghost toks_before = self.tokens@;
                self.tokens.push(t);
                proof {
                    let step = scan_step(s, cur, line)->Ok_0;
                    if scan_from(s, step.1, step.2) is Ok {
                        let rest = scan_from(s, step.1, step.2)->Ok_0;
                        assert(tokens_view(self.tokens@) =~= tokens_view(toks_before).push(t@));
                        assert(tokens_view(toks_before).push(t@) + rest =~= tokens_view(
                            toks_before,
                        ) + (seq![t@] + rest));
                    }
                }
            }
        }

        let ghost toks_before = self.tokens@;
        let ghost final_line = self.line;
        self.tokens.push(Token::new(TokenType::Eof, self.line));
        proof {
            assert(tokens_view(self.tokens@) =~= tokens_view(toks_before).push(
                TokenV { token_type: TokenTypeV::Eof, line: final_line },
            ));
            assert(tokens_view(toks_before).push(
                TokenV { token_type: TokenTypeV::Eof, line: final_line },
            ) =~= tokens_view(toks_before) + seq![
                TokenV { token_type: TokenTypeV::Eof, line: final_line },
            ]);
        }
        Ok(())
    }
}

} // verus!
