//! The tokenizer: raw text to a sequence of tokens.
//!
//! Tokenization is longest-match over a fixed token set.  A maximal run of
//! letters and digits starting with a letter becomes one keyword or
//! identifier token; a maximal run of digits with an optional single decimal
//! point becomes one number token; a backslash starts the longest matching
//! command token (`\\`, `\cdot`, `\begin`, `\end`) or stands alone.  Runs of
//! whitespace are skipped, and a character that matches no token yields no
//! token (lexical errors are dropped silently, not signaled).

use vstd::prelude::*;

use crate::token::{Token, TokenV};

verus! {

/// How many positions of `s` remain at or after position `p`.
pub open spec fn rem<T>(s: Seq<T>, p: int) -> int {
    if p <= s.len() {
        s.len() - p
    } else {
        0
    }
}

/// Whether `c` is an ASCII letter.
pub open spec fn spec_is_letter(c: char) -> bool {
    (65 <= c as u32 <= 90) || (97 <= c as u32 <= 122)
}

/// Whether `c` is an ASCII digit.
pub open spec fn spec_is_digit(c: char) -> bool {
    48 <= c as u32 <= 57
}

/// Whether `c` begins one of the single-character tokens.
pub open spec fn spec_is_simple(c: char) -> bool {
    c == '+' || c == '-' || c == '*' || c == '/' || c == '^' || c == '!' || c == '=' || c == '\''
        || c == '(' || c == ')' || c == '[' || c == ']' || c == '{' || c == '}' || c == '|'
        || c == '&' || c == ';' || c == '_' || c == ','
}

/// The single-character token beginning with `c`.
pub open spec fn spec_simple_token(c: char) -> TokenV {
    if c == '+' {
        TokenV::Plus
    } else if c == '-' {
        TokenV::Minus
    } else if c == '*' {
        TokenV::Asterisk
    } else if c == '/' {
        TokenV::Slash
    } else if c == '^' {
        TokenV::Caret
    } else if c == '!' {
        TokenV::Exclamation
    } else if c == '=' {
        TokenV::Equals
    } else if c == '\'' {
        TokenV::Prime
    } else if c == '(' {
        TokenV::LParen
    } else if c == ')' {
        TokenV::RParen
    } else if c == '[' {
        TokenV::LBracket
    } else if c == ']' {
        TokenV::RBracket
    } else if c == '{' {
        TokenV::LCurly
    } else if c == '}' {
        TokenV::RCurly
    } else if c == '|' {
        TokenV::Pipe
    } else if c == '&' {
        TokenV::Ampersand
    } else if c == ';' {
        TokenV::Semicolon
    } else if c == '_' {
        TokenV::Underscore
    } else {
        TokenV::Comma
    }
}

/// The end of the maximal run of letters and digits starting at `p`.
pub open spec fn spec_scan_word(s: Seq<char>, p: int) -> int
    decreases rem(s, p),
{
    if 0 <= p < s.len() && (spec_is_letter(s[p]) || spec_is_digit(s[p])) {
        spec_scan_word(s, p + 1)
    } else {
        p
    }
}

/// The end of the maximal run of digits starting at `p`.
pub open spec fn spec_scan_digits(s: Seq<char>, p: int) -> int
    decreases rem(s, p),
{
    if 0 <= p < s.len() && spec_is_digit(s[p]) {
        spec_scan_digits(s, p + 1)
    } else {
        p
    }
}

/// The end of the maximal number literal starting at `p`: digits, then an
/// optional decimal point with further digits.
pub open spec fn spec_scan_number(s: Seq<char>, p: int) -> int {
    let q = spec_scan_digits(s, p);
    if 0 <= q < s.len() && s[q] == '.' {
        spec_scan_digits(s, q + 1)
    } else {
        q
    }
}

/// The keyword or identifier token for the word `w`.
pub open spec fn spec_word_token(w: Seq<char>) -> TokenV {
    if w == "matrix"@ {
        TokenV::Matrix
    } else if w == "pmatrix"@ {
        TokenV::PMatrix
    } else if w == "bmatrix"@ {
        TokenV::BMatrix
    } else if w == "vmatrix"@ {
        TokenV::VMatrix
    } else if w == "Vmatrix"@ {
        TokenV::VMatrixDouble
    } else {
        TokenV::Identifier(w)
    }
}

/// Whether the characters of `w` stand in `s` at position `p`.
pub open spec fn spec_word_at(s: Seq<char>, p: int, w: Seq<char>) -> bool {
    &&& 0 <= p
    &&& p + w.len() <= s.len()
    &&& s.subrange(p, p + w.len() as int) == w
}

/// The token beginning with the backslash at `p - 1`, and its end position:
/// the longest match among `\\`, `\cdot`, `\begin` and `\end`, or the lone
/// backslash.  `p` is the position after the backslash.
pub open spec fn spec_backslash_token(s: Seq<char>, p: int) -> (TokenV, int) {
    if 0 <= p < s.len() && s[p] == '\\' {
        (TokenV::DoubleBackslash, p + 1)
    } else if spec_word_at(s, p, "cdot"@) {
        (TokenV::CDot, p + 4)
    } else if spec_word_at(s, p, "begin"@) {
        (TokenV::Begin, p + 5)
    } else if spec_word_at(s, p, "end"@) {
        (TokenV::End, p + 3)
    } else {
        (TokenV::Backslash, p)
    }
}

/// The next token of `s` at or after position `p`, with the position just
/// after it; or `None` with the length of `s` when no token remains.
/// Whitespace and unrecognized characters are skipped.
pub open spec fn spec_next_token(s: Seq<char>, p: int) -> (Option<TokenV>, int)
    decreases rem(s, p),
{
    if !(0 <= p < s.len()) {
        (None, p)
    } else {
        let c = s[p];
        if spec_is_letter(c) {
            let q = spec_scan_word(s, p);
            (Some(spec_word_token(s.subrange(p, q))), q)
        } else if spec_is_digit(c) {
            let q = spec_scan_number(s, p);
            (Some(TokenV::Number(s.subrange(p, q))), q)
        } else if c == '\\' {
            let (t, q) = spec_backslash_token(s, p + 1);
            (Some(t), q)
        } else if spec_is_simple(c) {
            (Some(spec_simple_token(c)), p + 1)
        } else {
            // whitespace, or a character that matches no token: skipped
            spec_next_token(s, p + 1)
        }
    }
}

/// All tokens of `s` from position `p` on, in order.
pub open spec fn spec_tokens(s: Seq<char>, p: int) -> Seq<TokenV>
    decreases rem(s, p),
{
    if !(0 <= p < s.len()) {
        Seq::empty()
    } else {
        let (t, q) = spec_next_token(s, p);
        match t {
            None => Seq::empty(),
            Some(tok) => {
                let q2 = if q > p {
                    q
                } else {
                    p + 1
                };
                seq![tok].add(spec_tokens(s, q2))
            }
        }
    }
}

/// The next token begins strictly after `p` and ends within `s`; when no
/// token remains the position runs to the end of `s`.
pub proof fn lemma_next_token_bounds(s: Seq<char>, p: int)
    requires
        0 <= p <= s.len(),
    ensures
        match spec_next_token(s, p) {
            (Some(_), q) => p < q <= s.len(),
            (None, q) => q == s.len(),
        },
    decreases rem(s, p),
{
    if p < s.len() {
        let c = s[p];
        if spec_is_letter(c) {
            lemma_scan_word_bounds(s, p + 1);
            assert(spec_scan_word(s, p) == spec_scan_word(s, p + 1));
            assert(p < spec_scan_word(s, p) <= s.len());
        } else if spec_is_digit(c) {
            lemma_scan_digits_bounds(s, p + 1);
            assert(spec_scan_digits(s, p) == spec_scan_digits(s, p + 1));
            let q = spec_scan_digits(s, p);
            assert(p < q <= s.len());
            if 0 <= q < s.len() && s[q] == '.' {
                lemma_scan_digits_bounds(s, q + 1);
            }
            assert(p < spec_scan_number(s, p) <= s.len());
        } else if c == '\\' {
            reveal_strlit("cdot");
            reveal_strlit("begin");
            reveal_strlit("end");
            assert(p < spec_next_token(s, p).1 <= s.len());
        } else if spec_is_simple(c) {
        } else {
            lemma_next_token_bounds(s, p + 1);
        }
    }
}

pub proof fn lemma_scan_word_bounds(s: Seq<char>, p: int)
    requires
        0 <= p <= s.len(),
    ensures
        p <= spec_scan_word(s, p) <= s.len(),
    decreases rem(s, p),
{
    if 0 <= p < s.len() && (spec_is_letter(s[p]) || spec_is_digit(s[p])) {
        lemma_scan_word_bounds(s, p + 1);
    }
}

pub proof fn lemma_scan_digits_bounds(s: Seq<char>, p: int)
    requires
        0 <= p <= s.len(),
    ensures
        p <= spec_scan_digits(s, p) <= s.len(),
    decreases rem(s, p),
{
    if 0 <= p < s.len() && spec_is_digit(s[p]) {
        lemma_scan_digits_bounds(s, p + 1);
    }
}

/// Whether `c` is an ASCII letter.
fn is_letter(c: char) -> (r: bool)
    ensures
        r == spec_is_letter(c),
{
    let u = c as u32;
    (65 <= u && u <= 90) || (97 <= u && u <= 122)
}

/// Whether `c` is an ASCII digit.
fn is_digit(c: char) -> (r: bool)
    ensures
        r == spec_is_digit(c),
{
    let u = c as u32;
    48 <= u && u <= 57
}

/// Whether `c` continues a word: a letter or a digit.
fn is_word_char(c: char) -> (r: bool)
    ensures
        r == (spec_is_letter(c) || spec_is_digit(c)),
{
    is_letter(c) || is_digit(c)
}

/// The tokenizer: the input characters and the position of the next
/// character to read.  It is stateless apart from that position, and
/// restartable: each call of `next_token` reads one token.
pub struct Lexer {
    chars: Vec<char>,
    pos: usize,
}

impl View for Lexer {
    type V = (Seq<char>, int);

    closed spec fn view(&self) -> (Seq<char>, int) {
        (self.chars@, self.pos as int)
    }
}

impl Lexer {
    /// The position lies within the input.
    pub open spec fn wf(&self) -> bool {
        0 <= self@.1 <= self@.0.len()
    }

    /// A tokenizer over `input`, positioned at its start.
    pub fn new(input: &str) -> (l: Lexer)
        ensures
            l@.0 == input@,
            l@.1 == 0,
            l.wf(),
    {
        Lexer { chars: crate::strutil::chars_of(input), pos: 0 }
    }

    /// The next token of the input, advancing past it; or `None` at the end
    /// of the input.
    pub fn next_token(&mut self) -> (r: Option<Token>)
        requires
            old(self).wf(),
        ensures
            final(self).wf(),
            final(self)@.0 == old(self)@.0,
            old(self)@.1 <= final(self)@.1,
            match r {
                Some(t) => spec_next_token(final(self)@.0, old(self)@.1) == (Some(t@), final(self)@.1)
                    && old(self)@.1 < final(self)@.1,
                None => spec_next_token(final(self)@.0, old(self)@.1).0 is None && final(self)@.1
                    == final(self)@.0.len(),
            },
    {
        let ghost s = self.chars@;
        let ghost p0 = self.pos as int;
        loop
            invariant
                self.wf(),
                self@.0 == s,
                s == old(self)@.0,
                p0 == old(self)@.1,
                0 <= p0 <= self@.1,
                spec_next_token(s, p0) == spec_next_token(s, self@.1),
            decreases s.len() - self@.1,
        {
            if self.pos >= self.chars.len() {
                return None;
            }
            let c = self.chars[self.pos];
            if is_letter(c) {
                return Some(self.read_word());
            } else if is_digit(c) {
                return Some(self.read_number());
            } else if c == '\\' {
                return Some(self.read_backslash());
            } else if c == '+' {
                self.pos = self.pos + 1;
                return Some(Token::Plus);
            } else if c == '-' {
                self.pos = self.pos + 1;
                return Some(Token::Minus);
            } else if c == '*' {
                self.pos = self.pos + 1;
                return Some(Token::Asterisk);
            } else if c == '/' {
                self.pos = self.pos + 1;
                return Some(Token::Slash);
            } else if c == '^' {
                self.pos = self.pos + 1;
                return Some(Token::Caret);
            } else if c == '!' {
                self.pos = self.pos + 1;
                return Some(Token::Exclamation);
            } else if c == '=' {
                self.pos = self.pos + 1;
                return Some(Token::Equals);
            } else if c == '\'' {
                self.pos = self.pos + 1;
                return Some(Token::Prime);
            } else if c == '(' {
                self.pos = self.pos + 1;
                return Some(Token::LParen);
            } else if c == ')' {
                self.pos = self.pos + 1;
                return Some(Token::RParen);
            } else if c == '[' {
                self.pos = self.pos + 1;
                return Some(Token::LBracket);
            } else if c == ']' {
                self.pos = self.pos + 1;
                return Some(Token::RBracket);
            } else if c == '{' {
                self.pos = self.pos + 1;
                return Some(Token::LCurly);
            } else if c == '}' {
                self.pos = self.pos + 1;
                return Some(Token::RCurly);
            } else if c == '|' {
                self.pos = self.pos + 1;
                return Some(Token::Pipe);
            } else if c == '&' {
                self.pos = self.pos + 1;
                return Some(Token::Ampersand);
            } else if c == ';' {
                self.pos = self.pos + 1;
                return Some(Token::Semicolon);
            } else if c == '_' {
                self.pos = self.pos + 1;
                return Some(Token::Underscore);
            } else if c == ',' {
                self.pos = self.pos + 1;
                return Some(Token::Comma);
            } else {
                // whitespace or a character that matches no token
                self.pos = self.pos + 1;
            }
        }
    }

    /// Reads the keyword or identifier token whose word starts at the
    /// current position.
    fn read_word(&mut self) -> (t: Token)
        requires
            old(self).wf(),
            old(self)@.1 < old(self)@.0.len(),
            spec_is_letter(old(self)@.0[old(self)@.1]),
        ensures
            final(self).wf(),
            final(self)@.0 == old(self)@.0,
            old(self)@.1 < final(self)@.1,
            spec_next_token(final(self)@.0, old(self)@.1) == (Some(t@), final(self)@.1),
    {
        let ghost s = self.chars@;
        let ghost p0 = self.pos as int;
        let mut w = String::new();
        while self.pos < self.chars.len() && is_word_char(self.chars[self.pos])
            invariant
                self.wf(),
                self@.0 == s,
                0 <= p0 <= self@.1,
                spec_scan_word(s, p0) == spec_scan_word(s, self@.1),
                w@ == s.subrange(p0, self@.1),
            decreases s.len() - self@.1,
        {
            crate::strutil::push_char(&mut w, self.chars[self.pos]);
            self.pos = self.pos + 1;
            proof {
                assert(w@ =~= s.subrange(p0, self@.1));
            }
        }
        proof {
            assert(spec_scan_word(s, self@.1) == self@.1);
            lemma_scan_word_bounds(s, p0 + 1);
            assert(p0 < spec_scan_word(s, p0));
        }
        if crate::strutil::str_lit_eq(&w, "matrix") {
            Token::Matrix
        } else if crate::strutil::str_lit_eq(&w, "pmatrix") {
            Token::PMatrix
        } else if crate::strutil::str_lit_eq(&w, "bmatrix") {
            Token::BMatrix
        } else if crate::strutil::str_lit_eq(&w, "vmatrix") {
            Token::VMatrix
        } else if crate::strutil::str_lit_eq(&w, "Vmatrix") {
            Token::VMatrixDouble
        } else {
            Token::Identifier(w)
        }
    }

    /// Reads the number token whose digits start at the current position.
    fn read_number(&mut self) -> (t: Token)
        requires
            old(self).wf(),
            old(self)@.1 < old(self)@.0.len(),
            spec_is_digit(old(self)@.0[old(self)@.1]),
        ensures
            final(self).wf(),
            final(self)@.0 == old(self)@.0,
            old(self)@.1 < final(self)@.1,
            spec_next_token(final(self)@.0, old(self)@.1) == (Some(t@), final(self)@.1),
    {
        let ghost s = self.chars@;
        let ghost p0 = self.pos as int;
        let mut w = String::new();
        while self.pos < self.chars.len() && is_digit(self.chars[self.pos])
            invariant
                self.wf(),
                self@.0 == s,
                0 <= p0 <= self@.1,
                spec_scan_digits(s, p0) == spec_scan_digits(s, self@.1),
                w@ == s.subrange(p0, self@.1),
            decreases s.len() - self@.1,
        {
            crate::strutil::push_char(&mut w, self.chars[self.pos]);
            self.pos = self.pos + 1;
            proof {
                assert(w@ =~= s.subrange(p0, self@.1));
            }
        }
        proof {
            assert(spec_scan_digits(s, self@.1) == self@.1);
            lemma_scan_digits_bounds(s, p0 + 1);
            assert(p0 < spec_scan_digits(s, p0));
        }
        if self.pos < self.chars.len() && self.chars[self.pos] == '.' {
            crate::strutil::push_char(&mut w, '.');
            self.pos = self.pos + 1;
            let ghost p1 = self.pos as int;
            proof {
                assert(w@ =~= s.subrange(p0, self@.1));
            }
            while self.pos < self.chars.len() && is_digit(self.chars[self.pos])
                invariant
                    self.wf(),
                    self@.0 == s,
                    0 <= p0 <= p1 <= self@.1,
                    spec_scan_digits(s, p0) + 1 == p1,
                    s[p1 - 1] == '.',
                    spec_scan_digits(s, p1) == spec_scan_digits(s, self@.1),
                    w@ == s.subrange(p0, self@.1),
                decreases s.len() - self@.1,
            {
                crate::strutil::push_char(&mut w, self.chars[self.pos]);
                self.pos = self.pos + 1;
                proof {
                    assert(w@ =~= s.subrange(p0, self@.1));
                }
            }
            proof {
                assert(spec_scan_digits(s, self@.1) == self@.1);
                assert(spec_scan_number(s, p0) == self@.1);
            }
        } else {
            proof {
                assert(spec_scan_number(s, p0) == self@.1);
            }
        }
        Token::Number(w)
    }

    /// Reads the token that starts with the backslash at the current
    /// position: the longest match among `\\`, `\cdot`, `\begin` and
    /// `\end`, or the lone backslash.
    fn read_backslash(&mut self) -> (t: Token)
        requires
            old(self).wf(),
            old(self)@.1 < old(self)@.0.len(),
            old(self)@.0[old(self)@.1] == '\\',
        ensures
            final(self).wf(),
            final(self)@.0 == old(self)@.0,
            old(self)@.1 < final(self)@.1,
            spec_next_token(final(self)@.0, old(self)@.1) == (Some(t@), final(self)@.1),
    {
        let ghost s = self.chars@;
        let ghost p0 = self.pos as int;
        let n = self.chars.len();
        let p1 = self.pos + 1;
        if p1 < n && self.chars[p1] == '\\' {
            self.pos = p1 + 1;
            Token::DoubleBackslash
        } else if n - p1 >= 4 && self.chars[p1] == 'c' && self.chars[p1 + 1] == 'd' && self.chars[
            p1 + 2
        ] == 'o' && self.chars[p1 + 3] == 't' {
            proof {
                reveal_strlit("cdot");
                assert(s.subrange(p1 as int, p1 + 4) =~= "cdot"@);
            }
            self.pos = p1 + 4;
            Token::CDot
        } else if n - p1 >= 5 && self.chars[p1] == 'b' && self.chars[p1 + 1] == 'e' && self.chars[
            p1 + 2
        ] == 'g' && self.chars[p1 + 3] == 'i' && self.chars[p1 + 4] == 'n' {
            proof {
                reveal_strlit("cdot");
                reveal_strlit("begin");
                assert(!spec_word_at(s, p1 as int, "cdot"@)) by {
                    if spec_word_at(s, p1 as int, "cdot"@) {
                        assert(s.subrange(p1 as int, p1 + 4) == "cdot"@);
                        assert(s.subrange(p1 as int, p1 + 4)[0] == 'c');
                        assert(s.subrange(p1 as int, p1 + 4)[1] == 'd');
                        assert(s.subrange(p1 as int, p1 + 4)[2] == 'o');
                        assert(s.subrange(p1 as int, p1 + 4)[3] == 't');
                    }
                }
                assert(s.subrange(p1 as int, p1 + 5) =~= "begin"@);
            }
            self.pos = p1 + 5;
            Token::Begin
        } else if n - p1 >= 3 && self.chars[p1] == 'e' && self.chars[p1 + 1] == 'n' && self.chars[
            p1 + 2
        ] == 'd' {
            proof {
                reveal_strlit("cdot");
                reveal_strlit("begin");
                reveal_strlit("end");
                assert(!spec_word_at(s, p1 as int, "cdot"@)) by {
                    if spec_word_at(s, p1 as int, "cdot"@) {
                        assert(s.subrange(p1 as int, p1 + 4) == "cdot"@);
                        assert(s.subrange(p1 as int, p1 + 4)[0] == 'c');
                        assert(s.subrange(p1 as int, p1 + 4)[1] == 'd');
                        assert(s.subrange(p1 as int, p1 + 4)[2] == 'o');
                        assert(s.subrange(p1 as int, p1 + 4)[3] == 't');
                    }
                }
                assert(!spec_word_at(s, p1 as int, "begin"@)) by {
                    if spec_word_at(s, p1 as int, "begin"@) {
                        assert(s.subrange(p1 as int, p1 + 5) == "begin"@);
                        assert(s.subrange(p1 as int, p1 + 5)[0] == 'b');
                        assert(s.subrange(p1 as int, p1 + 5)[1] == 'e');
                        assert(s.subrange(p1 as int, p1 + 5)[2] == 'g');
                        assert(s.subrange(p1 as int, p1 + 5)[3] == 'i');
                        assert(s.subrange(p1 as int, p1 + 5)[4] == 'n');
                    }
                }
                assert(s.subrange(p1 as int, p1 + 3) =~= "end"@);
            }
            self.pos = p1 + 3;
            Token::End
        } else {
            proof {
                reveal_strlit("cdot");
                reveal_strlit("begin");
                reveal_strlit("end");
                assert(!spec_word_at(s, p1 as int, "cdot"@)) by {
                    if spec_word_at(s, p1 as int, "cdot"@) {
                        assert(s.subrange(p1 as int, p1 + 4) == "cdot"@);
                        assert(s.subrange(p1 as int, p1 + 4)[0] == 'c');
                        assert(s.subrange(p1 as int, p1 + 4)[1] == 'd');
                        assert(s.subrange(p1 as int, p1 + 4)[2] == 'o');
                        assert(s.subrange(p1 as int, p1 + 4)[3] == 't');
                    }
                }
                assert(!spec_word_at(s, p1 as int, "begin"@)) by {
                    if spec_word_at(s, p1 as int, "begin"@) {
                        assert(s.subrange(p1 as int, p1 + 5) == "begin"@);
                        assert(s.subrange(p1 as int, p1 + 5)[0] == 'b');
                        assert(s.subrange(p1 as int, p1 + 5)[1] == 'e');
                        assert(s.subrange(p1 as int, p1 + 5)[2] == 'g');
                        assert(s.subrange(p1 as int, p1 + 5)[3] == 'i');
                        assert(s.subrange(p1 as int, p1 + 5)[4] == 'n');
                    }
                }
                assert(!spec_word_at(s, p1 as int, "end"@)) by {
                    if spec_word_at(s, p1 as int, "end"@) {
                        assert(s.subrange(p1 as int, p1 + 3) == "end"@);
                        assert(s.subrange(p1 as int, p1 + 3)[0] == 'e');
                        assert(s.subrange(p1 as int, p1 + 3)[1] == 'n');
                        assert(s.subrange(p1 as int, p1 + 3)[2] == 'd');
                    }
                }
            }
            self.pos = p1;
            Token::Backslash
        }
    }

    /// All remaining tokens of the input, in order, advancing to its end.
    pub fn tokenize(&mut self) -> (v: Vec<Token>)
        requires
            old(self).wf(),
        ensures
            final(self).wf(),
            final(self)@.0 == old(self)@.0,
            v.deep_view() == spec_tokens(final(self)@.0, old(self)@.1),
    {
        let ghost s = self.chars@;
        let ghost p0 = self.pos as int;
        let mut v: Vec<Token> = Vec::new();
        loop
            invariant
                self.wf(),
                self@.0 == s,
                s == old(self)@.0,
                p0 == old(self)@.1,
                0 <= p0 <= self@.1,
                spec_tokens(s, p0) == v.deep_view() + spec_tokens(s, self@.1),
            decreases s.len() - self@.1,
        {
            let ghost p = self@.1;
            match self.next_token() {
                None => {
                    proof {
                        assert(spec_tokens(s, p) =~= Seq::<TokenV>::empty());
                        assert(spec_tokens(s, p0) =~= v.deep_view());
                    }
                    return v;
                }
                Some(t) => {
                    let ghost q = self@.1;
                    proof {
                        assert(0 <= p < s.len());
                        assert(spec_tokens(s, p) == seq![t@].add(spec_tokens(s, q)));
                    }
                    v.push(t);
                    proof {
                        assert(spec_tokens(s, p0) =~= v.deep_view() + spec_tokens(s, q));
                    }
                }
            }
        }
    }
}

} // verus!
