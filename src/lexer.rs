//! The lexer: query text to tokens.
//!
//! The lexer is stated twice: as spec functions over the text's characters
//! (`lex`), and as the executable `Lexer`, whose every step is proved to
//! follow them.
use vstd::prelude::*;
use crate::token::{
    Keyword, Token, TokenView, fixed_text, keyword_of, keyword_text, lemma_keyword_of_text,
    string_from_chars, token_text, views,
};

verus! {

/// Whether a non-ASCII character has the Unicode `White_Space` property.
pub uninterp spec fn unicode_whitespace(c: char) -> bool;

/// Whether a non-ASCII character has the Unicode `Alphabetic` property.
pub uninterp spec fn unicode_alphabetic(c: char) -> bool;

/// Whether a non-ASCII character is alphabetic or numeric in Unicode's sense.
pub uninterp spec fn unicode_alphanumeric(c: char) -> bool;

pub open spec fn is_ascii(c: char) -> bool {
    (c as u32) < 128
}

pub open spec fn is_ascii_letter(c: char) -> bool {
    (97 <= (c as u32) <= 122) || (65 <= (c as u32) <= 90)
}

pub open spec fn is_digit(c: char) -> bool {
    48 <= (c as u32) <= 57
}

/// Whitespace: among ASCII characters, space and tab through carriage return.
pub open spec fn is_blank(c: char) -> bool {
    if is_ascii(c) {
        (c as u32) == 32 || (9 <= (c as u32) <= 13)
    } else {
        unicode_whitespace(c)
    }
}

pub open spec fn is_alpha(c: char) -> bool {
    if is_ascii(c) {
        is_ascii_letter(c)
    } else {
        unicode_alphabetic(c)
    }
}

pub open spec fn is_alnum(c: char) -> bool {
    if is_ascii(c) {
        is_ascii_letter(c) || is_digit(c)
    } else {
        unicode_alphanumeric(c)
    }
}

/// Relies on `char::is_whitespace`, the Unicode `White_Space` property.
#[verifier::external_body]
fn char_is_whitespace(c: char) -> (r: bool)
    ensures
        is_ascii(c) ==> (r <==> ((c as u32) == 32 || (9 <= (c as u32) <= 13))),
        !is_ascii(c) ==> r == unicode_whitespace(c),
{
    c.is_whitespace()
}

/// Relies on `char::is_alphabetic`, the Unicode `Alphabetic` property.
#[verifier::external_body]
fn char_is_alphabetic(c: char) -> (r: bool)
    ensures
        is_ascii(c) ==> (r <==> is_ascii_letter(c)),
        !is_ascii(c) ==> r == unicode_alphabetic(c),
{
    c.is_alphabetic()
}

/// Relies on `char::is_alphanumeric`: alphabetic or numeric.
#[verifier::external_body]
fn char_is_alphanumeric(c: char) -> (r: bool)
    ensures
        is_ascii(c) ==> (r <==> (is_ascii_letter(c) || is_digit(c))),
        !is_ascii(c) ==> r == unicode_alphanumeric(c),
{
    c.is_alphanumeric()
}

/// The sets of characters that the lexer consumes in runs.
#[derive(Clone, Copy, PartialEq, Eq, Structural)]
pub enum CharClass {
    /// ASCII digits.
    Digit,
    /// Characters of a name: alphanumeric or `_`.
    Word,
    /// Characters of a path: alphanumeric, `_` or `.`.
    Path,
    /// Whitespace.
    Blank,
    /// Anything but a line feed.
    NotNewline,
}

pub open spec fn in_class(c: char, k: CharClass) -> bool {
    match k {
        CharClass::Digit => is_digit(c),
        CharClass::Word => is_alnum(c) || c == '_',
        CharClass::Path => is_alnum(c) || c == '_' || c == '.',
        CharClass::Blank => is_blank(c),
        CharClass::NotNewline => c != '\n',
    }
}

/// The end of the run of characters of class `k` that starts at `i`.
pub open spec fn run_end(s: Seq<char>, i: int, k: CharClass) -> int
    decreases s.len() - i,
{
    if 0 <= i < s.len() && in_class(s[i], k) {
        run_end(s, i + 1, k)
    } else {
        i
    }
}

/// Where the text resumes after the whitespace and `--` comments at `i`.
pub open spec fn skip_blank(s: Seq<char>, i: int) -> int
    decreases s.len() - i, 0int,
{
    if 0 <= i < s.len() && is_blank(s[i]) {
        skip_blank(s, i + 1)
    } else if 0 <= i && i + 1 < s.len() && s[i] == '-' && s[i + 1] == '-' {
        skip_comment(s, i + 2)
    } else {
        i
    }
}

/// Where the text resumes after the rest of a `--` comment that runs at `i`.
pub open spec fn skip_comment(s: Seq<char>, i: int) -> int
    decreases s.len() - i, 1int,
{
    if 0 <= i < s.len() && s[i] != '\n' {
        skip_comment(s, i + 1)
    } else if 0 <= i <= s.len() {
        skip_blank(s, i)
    } else {
        i
    }
}

/// The end of a number whose digits start at `i`: its digits, then a `.`
/// and more digits only where a digit follows the `.`.
pub open spec fn number_end(s: Seq<char>, i: int) -> int {
    let j = run_end(s, i, CharClass::Digit);
    if 0 <= j && j + 1 < s.len() && s[j] == '.' && is_digit(s[j + 1]) {
        run_end(s, j + 1, CharClass::Digit)
    } else {
        j
    }
}

/// The outcome of scanning one token: the token and where the text resumes,
/// or a lexical error.
pub enum Scan {
    Token(TokenView, int),
    Fail,
}

/// The character that an escape `\c` in a string literal stands for.
pub open spec fn escape_of(c: char) -> Option<char> {
    if c == '"' {
        Some('"')
    } else if c == '\\' {
        Some('\\')
    } else if c == 'n' {
        Some('\n')
    } else if c == 't' {
        Some('\t')
    } else if c == 'r' {
        Some('\r')
    } else {
        None
    }
}

/// Scans the body of a string literal from `i`, `acc` holding what was read.
pub open spec fn string_from(s: Seq<char>, i: int, acc: Seq<char>) -> Scan
    decreases s.len() - i,
{
    if i < 0 || i >= s.len() {
        Scan::Fail
    } else if s[i] == '"' {
        Scan::Token(TokenView::String(acc), i + 1)
    } else if s[i] == '\\' {
        if i + 1 >= s.len() {
            Scan::Fail
        } else {
            match escape_of(s[i + 1]) {
                Some(e) => string_from(s, i + 2, acc.push(e)),
                None => Scan::Fail,
            }
        }
    } else {
        string_from(s, i + 1, acc.push(s[i]))
    }
}

/// Scans the body of a backtick-quoted name from `i`.
pub open spec fn quoted_from(s: Seq<char>, i: int, acc: Seq<char>) -> Scan
    decreases s.len() - i,
{
    if i < 0 || i >= s.len() {
        Scan::Fail
    } else if s[i] == '`' {
        if acc.len() == 0 {
            Scan::Fail
        } else {
            Scan::Token(TokenView::Ident(acc), i + 1)
        }
    } else {
        quoted_from(s, i + 1, acc.push(s[i]))
    }
}

/// One character, or two where the second extends it, at `i`.
pub open spec fn symbol_at(s: Seq<char>, i: int) -> Scan {
    let c = s[i];
    let next_is = |x: char| i + 1 < s.len() && s[i + 1] == x;
    if c == ':' {
        if next_is(':') {
            Scan::Token(TokenView::ColonColon, i + 2)
        } else {
            Scan::Token(TokenView::Colon, i + 1)
        }
    } else if c == '(' {
        Scan::Token(TokenView::OpenParen, i + 1)
    } else if c == ')' {
        Scan::Token(TokenView::CloseParen, i + 1)
    } else if c == '{' {
        Scan::Token(TokenView::OpenBrace, i + 1)
    } else if c == '}' {
        Scan::Token(TokenView::CloseBrace, i + 1)
    } else if c == '[' {
        Scan::Token(TokenView::OpenBracket, i + 1)
    } else if c == ']' {
        Scan::Token(TokenView::CloseBracket, i + 1)
    } else if c == ',' {
        Scan::Token(TokenView::Comma, i + 1)
    } else if c == '.' {
        Scan::Token(TokenView::Dot, i + 1)
    } else if c == '=' {
        Scan::Token(TokenView::Equal, i + 1)
    } else if c == '>' {
        if next_is('=') {
            Scan::Token(TokenView::GreaterThanOrEqual, i + 2)
        } else {
            Scan::Token(TokenView::GreaterThan, i + 1)
        }
    } else if c == '<' {
        if next_is('=') {
            Scan::Token(TokenView::LessThanOrEqual, i + 2)
        } else {
            Scan::Token(TokenView::LessThan, i + 1)
        }
    } else if c == '!' {
        if next_is('=') {
            Scan::Token(TokenView::NotEqual, i + 2)
        } else {
            Scan::Fail
        }
    } else if c == '+' {
        Scan::Token(TokenView::Plus, i + 1)
    } else if c == '*' {
        Scan::Token(TokenView::Asterisk, i + 1)
    } else if c == '/' {
        Scan::Token(TokenView::Slash, i + 1)
    } else if c == '%' {
        Scan::Token(TokenView::Percent, i + 1)
    } else if c == '-' {
        if i + 1 < s.len() && is_digit(s[i + 1]) {
            Scan::Token(TokenView::Number(s.subrange(i, number_end(s, i + 1))), number_end(s, i + 1))
        } else {
            Scan::Token(TokenView::Minus, i + 1)
        }
    } else {
        Scan::Fail
    }
}

/// A name run at `i` (its first character already known to start a name):
/// a keyword where it spells one, else an identifier.
pub open spec fn word_at(s: Seq<char>, i: int) -> Scan {
    let e = run_end(s, i + 1, CharClass::Word);
    let w = s.subrange(i, e);
    match keyword_of(w) {
        Some(k) => Scan::Token(TokenView::Keyword(k), e),
        None => Scan::Token(TokenView::Ident(w), e),
    }
}

/// `^path` or `^^path` at `i`.
pub open spec fn parent_ref_at(s: Seq<char>, i: int) -> Scan {
    if i + 1 < s.len() && s[i + 1] == '^' {
        let e = run_end(s, i + 2, CharClass::Path);
        if e == i + 2 {
            Scan::Fail
        } else {
            Scan::Token(TokenView::GrandparentRef(s.subrange(i + 2, e)), e)
        }
    } else {
        let e = run_end(s, i + 1, CharClass::Path);
        if e == i + 1 {
            Scan::Fail
        } else {
            Scan::Token(TokenView::ParentRef(s.subrange(i + 1, e)), e)
        }
    }
}

/// `$name` at `i`.
pub open spec fn variable_at(s: Seq<char>, i: int) -> Scan {
    let e = run_end(s, i + 1, CharClass::Word);
    if e == i + 1 {
        Scan::Fail
    } else {
        Scan::Token(TokenView::Variable(s.subrange(i + 1, e)), e)
    }
}

/// The token that starts at `i`, a position that holds a character.
pub open spec fn scan_at(s: Seq<char>, i: int) -> Scan {
    let c = s[i];
    if c == '"' {
        string_from(s, i + 1, seq![])
    } else if c == '$' {
        variable_at(s, i)
    } else if c == '^' {
        parent_ref_at(s, i)
    } else if c == '`' {
        quoted_from(s, i + 1, seq![])
    } else if is_digit(c) {
        Scan::Token(TokenView::Number(s.subrange(i, number_end(s, i))), number_end(s, i))
    } else if is_alpha(c) || c == '_' {
        word_at(s, i)
    } else {
        symbol_at(s, i)
    }
}

/// The tokens of `s` from `i` on, after those in `acc`; `None` where the
/// text holds a lexical error.
pub open spec fn lex_from(s: Seq<char>, i: int, acc: Seq<TokenView>) -> Option<Seq<TokenView>>
    decreases s.len() - i,
    via lex_from_decreases
{
    if 0 <= i <= s.len() {
        let j = skip_blank(s, i);
        if j >= s.len() {
            Some(acc)
        } else {
            match scan_at(s, j) {
                Scan::Token(t, k) => lex_from(s, k, acc.push(t)),
                Scan::Fail => None,
            }
        }
    } else {
        None
    }
}

#[via_fn]
proof fn lex_from_decreases(s: Seq<char>, i: int, acc: Seq<TokenView>) {
    if 0 <= i <= s.len() {
        lemma_skip_blank(s, i);
        let j = skip_blank(s, i);
        if j < s.len() {
            lemma_scan_at_progress(s, j);
        }
    }
}

/// The tokens of a query text, or `None` where it holds a lexical error.
pub open spec fn lex(s: Seq<char>) -> Option<Seq<TokenView>> {
    lex_from(s, 0, seq![])
}

pub proof fn lemma_run_end(s: Seq<char>, i: int, k: CharClass)
    requires
        0 <= i <= s.len(),
    ensures
        i <= run_end(s, i, k) <= s.len(),
        forall|j: int| i <= j < run_end(s, i, k) ==> in_class(#[trigger] s[j], k),
        run_end(s, i, k) < s.len() ==> !in_class(s[run_end(s, i, k)], k),
    decreases s.len() - i,
{
    if i < s.len() && in_class(s[i], k) {
        lemma_run_end(s, i + 1, k);
    }
}

pub proof fn lemma_skip_blank(s: Seq<char>, i: int)
    requires
        0 <= i <= s.len(),
    ensures
        i <= skip_blank(s, i) <= s.len(),
    decreases s.len() - i, 0int,
{
    if i < s.len() && is_blank(s[i]) {
        lemma_skip_blank(s, i + 1);
    } else if i + 1 < s.len() && s[i] == '-' && s[i + 1] == '-' {
        lemma_skip_comment(s, i + 2);
    }
}

pub proof fn lemma_skip_comment(s: Seq<char>, i: int)
    requires
        0 <= i <= s.len(),
    ensures
        i <= skip_comment(s, i) <= s.len(),
    decreases s.len() - i, 1int,
{
    if i < s.len() && s[i] != '\n' {
        lemma_skip_comment(s, i + 1);
    } else {
        lemma_skip_blank(s, i);
    }
}

pub proof fn lemma_number_end(s: Seq<char>, i: int)
    requires
        0 <= i < s.len(),
        is_digit(s[i]),
    ensures
        i < number_end(s, i) <= s.len(),
{
    lemma_run_end(s, i, CharClass::Digit);
    let j = run_end(s, i, CharClass::Digit);
    if j + 1 < s.len() && s[j] == '.' && is_digit(s[j + 1]) {
        lemma_run_end(s, j + 1, CharClass::Digit);
    }
}

pub proof fn lemma_string_from(s: Seq<char>, i: int, acc: Seq<char>)
    requires
        0 <= i,
    ensures
        string_from(s, i, acc) matches Scan::Token(_, k) ==> i < k <= s.len(),
    decreases s.len() - i,
{
    if 0 <= i < s.len() && s[i] != '"' {
        if s[i] == '\\' {
            if i + 1 < s.len() {
                if let Some(e) = escape_of(s[i + 1]) {
                    lemma_string_from(s, i + 2, acc.push(e));
                }
            }
        } else {
            lemma_string_from(s, i + 1, acc.push(s[i]));
        }
    }
}

pub proof fn lemma_quoted_from(s: Seq<char>, i: int, acc: Seq<char>)
    requires
        0 <= i,
    ensures
        quoted_from(s, i, acc) matches Scan::Token(_, k) ==> i < k <= s.len(),
    decreases s.len() - i,
{
    if 0 <= i < s.len() && s[i] != '`' {
        lemma_quoted_from(s, i + 1, acc.push(s[i]));
    }
}

/// A token scanned at `i` ends after `i` and within the text.
pub proof fn lemma_scan_at_progress(s: Seq<char>, i: int)
    requires
        0 <= i < s.len(),
    ensures
        scan_at(s, i) matches Scan::Token(_, k) ==> i < k <= s.len(),
{
    let c = s[i];
    if c == '"' {
        lemma_string_from(s, i + 1, seq![]);
    } else if c == '$' {
        lemma_run_end(s, i + 1, CharClass::Word);
    } else if c == '^' {
        if i + 1 < s.len() && s[i + 1] == '^' {
            lemma_run_end(s, i + 2, CharClass::Path);
        } else {
            lemma_run_end(s, i + 1, CharClass::Path);
        }
    } else if c == '`' {
        lemma_quoted_from(s, i + 1, seq![]);
    } else if is_digit(c) {
        lemma_number_end(s, i);
    } else if is_alpha(c) || c == '_' {
        lemma_run_end(s, i + 1, CharClass::Word);
    } else if c == '-' && i + 1 < s.len() && is_digit(s[i + 1]) {
        lemma_number_end(s, i + 1);
    }
}


/// The line and column (both from 1) of the character at position `n`.
pub open spec fn line_col(s: Seq<char>, n: int) -> (int, int)
    decreases n,
{
    if n <= 0 {
        (1, 1)
    } else {
        let p = line_col(s, n - 1);
        if s[n - 1] == '\n' {
            (p.0 + 1, 1)
        } else {
            (p.0, p.1 + 1)
        }
    }
}

pub proof fn lemma_line_col(s: Seq<char>, n: int)
    requires
        0 <= n,
    ensures
        1 <= line_col(s, n).0 <= n + 1,
        1 <= line_col(s, n).1 <= n + 1,
    decreases n,
{
    if n > 0 {
        lemma_line_col(s, n - 1);
    }
}

/// A lexical error: a message that names the offending character's line and
/// column where it has one.
#[derive(Debug, Clone, PartialEq)]
pub struct LexError(pub String);

/// Relies on `format!`: the message followed by the line and column.
#[verifier::external_body]
fn message_at(what: &str, line: usize, col: usize) -> String {
    format!("{what} at line {line}, col {col}")
}

/// Relies on `format!`: the message, the character and its line and column.
#[verifier::external_body]
fn char_message_at(what: &str, c: char, line: usize, col: usize) -> String {
    format!("{what} '{c}' at line {line}, col {col}")
}

/// Relies on `str::chars`, collected: the characters of the text, in order.
#[verifier::external_body]
pub(crate) fn chars_of(s: &str) -> (r: Vec<char>)
    ensures
        r@ == s@,
{
    s.chars().collect()
}

/// A forward scanner over query text that yields one token at a time.
pub struct Lexer {
    chars: Vec<char>,
    pos: usize,
    line: usize,
    col: usize,
}

impl Lexer {
    /// The text being scanned.
    pub closed spec fn text(&self) -> Seq<char> {
        self.chars@
    }

    /// How many characters have been consumed.
    pub closed spec fn position(&self) -> int {
        self.pos as int
    }

    pub closed spec fn wf(&self) -> bool {
        &&& self.pos <= self.chars@.len()
        &&& self.chars@.len() + 2 < usize::MAX
        &&& (self.line as int, self.col as int) == line_col(self.chars@, self.pos as int)
    }

    /// A lexer at the start of `input`.
    pub fn new(input: &str) -> (r: Lexer)
        requires
            input@.len() + 2 < usize::MAX,
        ensures
            r.wf(),
            r.text() == input@,
            r.position() == 0,
    {
        Lexer::from_chars(chars_of(input))
    }

    fn from_chars(chars: Vec<char>) -> (r: Lexer)
        requires
            chars@.len() + 2 < usize::MAX,
        ensures
            r.wf(),
            r.text() == chars@,
            r.position() == 0,
    {
        Lexer { chars, pos: 0, line: 1, col: 1 }
    }

    /// The next character, not consumed.
    fn peek(&self) -> (r: Option<char>)
        requires
            self.wf(),
        ensures
            r == (if self.pos < self.chars@.len() {
                Some(self.chars@[self.pos as int])
            } else {
                None
            }),
    {
        if self.pos < self.chars.len() {
            Some(self.chars[self.pos])
        } else {
            None
        }
    }

    /// The character after the next one, not consumed.
    fn peek_second(&self) -> (r: Option<char>)
        requires
            self.wf(),
        ensures
            r == (if self.pos + 1 < self.chars@.len() {
                Some(self.chars@[self.pos + 1])
            } else {
                None
            }),
    {
        if self.pos + 1 < self.chars.len() {
            Some(self.chars[self.pos + 1])
        } else {
            None
        }
    }

    /// Whether a `--` comment starts at the next character.
    fn at_comment(&self) -> (r: bool)
        requires
            self.wf(),
        ensures
            r == (self.pos + 1 < self.chars@.len() && self.chars@[self.pos as int] == '-'
                && self.chars@[self.pos + 1] == '-'),
    {
        match (self.peek(), self.peek_second()) {
            (Some(a), Some(b)) => a == '-' && b == '-',
            _ => false,
        }
    }

    /// Consumes the next character, advancing the line and column.
    fn next_char(&mut self) -> (r: Option<char>)
        requires
            old(self).wf(),
        ensures
            final(self).wf(),
            final(self).chars@ == old(self).chars@,
            old(self).pos < old(self).chars@.len() ==> r == Some(old(self).chars@[old(self).pos as int])
                && final(self).pos == old(self).pos + 1,
            old(self).pos >= old(self).chars@.len() ==> r is None && final(self).pos == old(self).pos,
    {
        if self.pos >= self.chars.len() {
            return None;
        }
        let c = self.chars[self.pos];
        proof {
            lemma_line_col(self.chars@, self.pos as int);
        }
        if c == '\n' {
            self.line = self.line + 1;
            self.col = 1;
        } else {
            self.col = self.col + 1;
        }
        self.pos = self.pos + 1;
        Some(c)
    }

    /// Consumes the next character only where it is of class `k`.
    fn next_if(&mut self, k: CharClass) -> (r: Option<char>)
        requires
            old(self).wf(),
        ensures
            final(self).wf(),
            final(self).chars@ == old(self).chars@,
            if old(self).pos < old(self).chars@.len() && in_class(
                old(self).chars@[old(self).pos as int],
                k,
            ) {
                r == Some(old(self).chars@[old(self).pos as int]) && final(self).pos == old(self).pos
                    + 1
            } else {
                r is None && final(self).pos == old(self).pos
            },
    {
        match self.peek() {
            Some(c) => {
                if class_contains(c, k) {
                    self.next_char()
                } else {
                    None
                }
            },
            None => None,
        }
    }

    /// Consumes the run of characters of class `k`, and returns it.
    fn take_while(&mut self, k: CharClass) -> (r: Vec<char>)
        requires
            old(self).wf(),
        ensures
            final(self).wf(),
            final(self).chars@ == old(self).chars@,
            final(self).pos == run_end(old(self).chars@, old(self).pos as int, k),
            old(self).pos <= final(self).pos,
            r@ == old(self).chars@.subrange(old(self).pos as int, final(self).pos as int),
    {
        let ghost s = self.chars@;
        let ghost start = self.pos as int;
        let mut out: Vec<char> = Vec::new();
        loop
            invariant
                self.wf(),
                self.chars@ == s,
                s == old(self).chars@,
                start == old(self).pos,
                start <= self.pos,
                run_end(s, start, k) == run_end(s, self.pos as int, k),
                out@ == s.subrange(start, self.pos as int),
            decreases s.len() - self.pos,
        {
            match self.next_if(k) {
                Some(c) => {
                    out.push(c);
                    assert(out@ =~= s.subrange(start, self.pos as int));
                },
                None => {
                    return out;
                },
            }
        }
    }

    /// Consumes whitespace and `--` line comments.
    fn skip_whitespace(&mut self)
        requires
            old(self).wf(),
        ensures
            final(self).wf(),
            final(self).chars@ == old(self).chars@,
            final(self).pos == skip_blank(old(self).chars@, old(self).pos as int),
    {
        let ghost s = self.chars@;
        let ghost start = self.pos as int;
        loop
            invariant
                self.wf(),
                self.chars@ == s,
                s == old(self).chars@,
                start == old(self).pos,
                skip_blank(s, start) == skip_blank(s, self.pos as int),
            decreases s.len() - self.pos,
        {
            let ghost head = self.pos;
            while self.next_if(CharClass::Blank).is_some()
                invariant
                    head <= self.pos,
                    self.wf(),
                    self.chars@ == s,
                    s == old(self).chars@,
                    start == old(self).pos,
                    skip_blank(s, start) == skip_blank(s, self.pos as int),
                decreases s.len() - self.pos,
            {
            }
            if self.at_comment() {
                self.next_char();
                self.next_char();
                while self.next_if(CharClass::NotNewline).is_some()
                    invariant
                        head + 2 <= self.pos,
                        self.wf(),
                        self.chars@ == s,
                        s == old(self).chars@,
                        start == old(self).pos,
                        skip_blank(s, start) == skip_comment(s, self.pos as int),
                    decreases s.len() - self.pos,
                {
                }
                continue;
            }
            return;
        }
    }
}

/// Whether `c` is of class `k`.
pub(crate) fn class_contains(c: char, k: CharClass) -> (r: bool)
    ensures
        r == in_class(c, k),
{
    match k {
        CharClass::Digit => c >= '0' && c <= '9',
        CharClass::Word => char_is_alphanumeric(c) || c == '_',
        CharClass::Path => char_is_alphanumeric(c) || c == '_' || c == '.',
        CharClass::Blank => char_is_whitespace(c),
        CharClass::NotNewline => c != '\n',
    }
}


/// Whether a scanner's result is the one that the scan `sc` gives, with the
/// lexer left at `pos`.
pub open spec fn agrees(sc: Scan, r: Result<Option<Token>, LexError>, pos: int) -> bool {
    match sc {
        Scan::Token(t, k) => r matches Ok(Some(tok)) && tok@ == t && pos == k,
        Scan::Fail => r is Err,
    }
}

/// The character that an escape `\c` stands for.
fn unescape(c: char) -> (r: Option<char>)
    ensures
        r == escape_of(c),
{
    if c == '"' {
        Some('"')
    } else if c == '\\' {
        Some('\\')
    } else if c == 'n' {
        Some('\n')
    } else if c == 't' {
        Some('\t')
    } else if c == 'r' {
        Some('\r')
    } else {
        None
    }
}

impl Lexer {
    /// A lexical error at the current line and column.
    fn error(&self, what: &str) -> LexError {
        LexError(message_at(what, self.line, self.col))
    }

    /// Whether a `.` and a digit come next.
    fn at_fraction(&self) -> (r: bool)
        requires
            self.wf(),
        ensures
            r == (self.pos + 1 < self.chars@.len() && self.chars@[self.pos as int] == '.'
                && is_digit(self.chars@[self.pos + 1])),
    {
        match (self.peek(), self.peek_second()) {
            (Some(a), Some(b)) => a == '.' && class_contains(b, CharClass::Digit),
            _ => false,
        }
    }

    /// Consumes a number's digits, and its fraction where a digit follows
    /// the `.`; returns the characters consumed.
    fn take_number_body(&mut self) -> (r: Vec<char>)
        requires
            old(self).wf(),
        ensures
            final(self).wf(),
            final(self).chars@ == old(self).chars@,
            final(self).pos == number_end(old(self).chars@, old(self).pos as int),
            old(self).pos <= final(self).pos,
            r@ == old(self).chars@.subrange(old(self).pos as int, final(self).pos as int),
    {
        let ghost s = self.chars@;
        let ghost start = self.pos as int;
        let mut text = self.take_while(CharClass::Digit);
        let ghost j = self.pos as int;
        proof {
            lemma_run_end(s, start, CharClass::Digit);
        }
        if self.at_fraction() {
            self.next_char();
            text.push('.');
            let mut more = self.take_while(CharClass::Digit);
            proof {
                lemma_run_end(s, j + 1, CharClass::Digit);
            }
            text.append(&mut more);
            assert(text@ =~= s.subrange(start, self.pos as int));
        }
        text
    }

    /// Scans a number that starts with a digit.
    fn scan_number(&mut self) -> (r: Result<Option<Token>, LexError>)
        requires
            old(self).wf(),
            old(self).pos < old(self).chars@.len(),
            is_digit(old(self).chars@[old(self).pos as int]),
        ensures
            final(self).wf(),
            final(self).chars@ == old(self).chars@,
            agrees(scan_at(old(self).chars@, old(self).pos as int), r, final(self).pos as int),
    {
        let text = self.take_number_body();
        Ok(Some(Token::Number(string_from_chars(text.as_slice()))))
    }

    /// Scans a negative number, whose `-` was just consumed.
    fn scan_negative_number(&mut self) -> (r: Result<Option<Token>, LexError>)
        requires
            old(self).wf(),
            1 <= old(self).pos < old(self).chars@.len(),
            old(self).chars@[old(self).pos - 1] == '-',
            is_digit(old(self).chars@[old(self).pos as int]),
        ensures
            final(self).wf(),
            final(self).chars@ == old(self).chars@,
            agrees(symbol_at(old(self).chars@, old(self).pos - 1), r, final(self).pos as int),
    {
        let ghost s = self.chars@;
        let ghost start = self.pos as int;
        let mut text = vec!['-'];
        let mut body = self.take_number_body();
        text.append(&mut body);
        assert(text@ =~= s.subrange(start - 1, self.pos as int));
        Ok(Some(Token::Number(string_from_chars(text.as_slice()))))
    }

    /// Scans a double-quoted string literal.
    fn scan_string(&mut self) -> (r: Result<Option<Token>, LexError>)
        requires
            old(self).wf(),
            old(self).pos < old(self).chars@.len(),
            old(self).chars@[old(self).pos as int] == '"',
        ensures
            final(self).wf(),
            final(self).chars@ == old(self).chars@,
            agrees(scan_at(old(self).chars@, old(self).pos as int), r, final(self).pos as int),
    {
        let ghost s = self.chars@;
        let ghost start = self.pos as int;
        self.next_char();
        let mut buf: Vec<char> = Vec::new();
        loop
            invariant
                self.wf(),
                self.chars@ == s,
                s == old(self).chars@,
                start == old(self).pos,
                scan_at(s, start) == string_from(s, self.pos as int, buf@),
            decreases s.len() - self.pos,
        {
            match self.next_char() {
                None => return Err(self.error("unterminated string literal")),
                Some(c) => {
                    if c == '"' {
                        return Ok(Some(Token::String(string_from_chars(buf.as_slice()))));
                    } else if c == '\\' {
                        match self.next_char() {
                            None => return Err(self.error("unterminated string escape")),
                            Some(e) => match unescape(e) {
                                Some(x) => buf.push(x),
                                None => {
                                    return Err(
                                        LexError(
                                            char_message_at(
                                                "invalid string escape",
                                                e,
                                                self.line,
                                                self.col,
                                            ),
                                        ),
                                    );
                                },
                            },
                        }
                    } else {
                        buf.push(c);
                    }
                },
            }
        }
    }

    /// Scans `$name`.
    fn scan_variable(&mut self) -> (r: Result<Option<Token>, LexError>)
        requires
            old(self).wf(),
            old(self).pos < old(self).chars@.len(),
            old(self).chars@[old(self).pos as int] == '$',
        ensures
            final(self).wf(),
            final(self).chars@ == old(self).chars@,
            agrees(scan_at(old(self).chars@, old(self).pos as int), r, final(self).pos as int),
    {
        self.next_char();
        let name = self.take_while(CharClass::Word);
        if name.len() == 0 {
            return Err(self.error("expected variable name after $"));
        }
        Ok(Some(Token::Variable(string_from_chars(name.as_slice()))))
    }

    /// Scans `^path` or `^^path`.
    fn scan_parent_ref(&mut self) -> (r: Result<Option<Token>, LexError>)
        requires
            old(self).wf(),
            old(self).pos < old(self).chars@.len(),
            old(self).chars@[old(self).pos as int] == '^',
        ensures
            final(self).wf(),
            final(self).chars@ == old(self).chars@,
            agrees(scan_at(old(self).chars@, old(self).pos as int), r, final(self).pos as int),
    {
        self.next_char();
        let is_grandparent = match self.peek() {
            Some(c) => c == '^',
            None => false,
        };
        if is_grandparent {
            self.next_char();
        }
        let name = self.take_while(CharClass::Path);
        if name.len() == 0 {
            return Err(self.error("expected field name after ^"));
        }
        if is_grandparent {
            Ok(Some(Token::GrandparentRef(string_from_chars(name.as_slice()))))
        } else {
            Ok(Some(Token::ParentRef(string_from_chars(name.as_slice()))))
        }
    }

    /// Scans a backtick-quoted name, which is never a keyword.
    fn scan_quoted_ident(&mut self) -> (r: Result<Option<Token>, LexError>)
        requires
            old(self).wf(),
            old(self).pos < old(self).chars@.len(),
            old(self).chars@[old(self).pos as int] == '`',
        ensures
            final(self).wf(),
            final(self).chars@ == old(self).chars@,
            agrees(scan_at(old(self).chars@, old(self).pos as int), r, final(self).pos as int),
    {
        let ghost s = self.chars@;
        let ghost start = self.pos as int;
        self.next_char();
        let mut name: Vec<char> = Vec::new();
        loop
            invariant
                self.wf(),
                self.chars@ == s,
                s == old(self).chars@,
                start == old(self).pos,
                scan_at(s, start) == quoted_from(s, self.pos as int, name@),
            decreases s.len() - self.pos,
        {
            match self.next_char() {
                None => return Err(self.error("unterminated quoted identifier")),
                Some(c) => {
                    if c == '`' {
                        if name.len() == 0 {
                            return Err(self.error("empty quoted identifier"));
                        }
                        return Ok(Some(Token::Ident(string_from_chars(name.as_slice()))));
                    }
                    name.push(c);
                },
            }
        }
    }

    /// Scans a name: a keyword where it spells one, else an identifier.
    fn scan_ident_or_keyword(&mut self) -> (r: Result<Option<Token>, LexError>)
        requires
            old(self).wf(),
            old(self).pos < old(self).chars@.len(),
            ({
                let c = old(self).chars@[old(self).pos as int];
                !is_digit(c) && c != '"' && c != '$' && c != '^' && c != '`' && (is_alpha(c) || c
                    == '_')
            }),
        ensures
            final(self).wf(),
            final(self).chars@ == old(self).chars@,
            agrees(scan_at(old(self).chars@, old(self).pos as int), r, final(self).pos as int),
    {
        let ghost s = self.chars@;
        let ghost start = self.pos as int;
        let mut word = vec![self.chars[self.pos]];
        self.next_char();
        let mut rest = self.take_while(CharClass::Word);
        word.append(&mut rest);
        assert(word@ =~= s.subrange(start, self.pos as int));
        match Keyword::from_chars(word.as_slice()) {
            Some(k) => Ok(Some(Token::Keyword(k))),
            None => Ok(Some(Token::Ident(string_from_chars(word.as_slice())))),
        }
    }
}

impl Lexer {
    /// Whether the next character is `x`.
    fn next_is(&self, x: char) -> (r: bool)
        requires
            self.wf(),
        ensures
            r == (self.pos < self.chars@.len() && self.chars@[self.pos as int] == x),
    {
        match self.peek() {
            Some(c) => c == x,
            None => false,
        }
    }

    /// Scans an operator or a punctuation mark, two characters long where
    /// the second extends the first (`::`, `>=`, `<=`, `!=`).
    fn scan_symbol(&mut self) -> (r: Result<Option<Token>, LexError>)
        requires
            old(self).wf(),
            old(self).pos < old(self).chars@.len(),
        ensures
            final(self).wf(),
            final(self).chars@ == old(self).chars@,
            agrees(symbol_at(old(self).chars@, old(self).pos as int), r, final(self).pos as int),
    {
        let line = self.line;
        let col = self.col;
        let c = self.chars[self.pos];
        self.next_char();
        let token = if c == ':' {
            if self.next_is(':') {
                self.next_char();
                Token::ColonColon
            } else {
                Token::Colon
            }
        } else if c == '(' {
            Token::OpenParen
        } else if c == ')' {
            Token::CloseParen
        } else if c == '{' {
            Token::OpenBrace
        } else if c == '}' {
            Token::CloseBrace
        } else if c == '[' {
            Token::OpenBracket
        } else if c == ']' {
            Token::CloseBracket
        } else if c == ',' {
            Token::Comma
        } else if c == '.' {
            Token::Dot
        } else if c == '=' {
            Token::Equal
        } else if c == '>' {
            if self.next_is('=') {
                self.next_char();
                Token::GreaterThanOrEqual
            } else {
                Token::GreaterThan
            }
        } else if c == '<' {
            if self.next_is('=') {
                self.next_char();
                Token::LessThanOrEqual
            } else {
                Token::LessThan
            }
        } else if c == '!' {
            if self.next_is('=') {
                self.next_char();
                Token::NotEqual
            } else {
                return Err(
                    LexError(
                        message_at("unexpected character '!' (did you mean '!='?)", line, col),
                    ),
                );
            }
        } else if c == '+' {
            Token::Plus
        } else if c == '*' {
            Token::Asterisk
        } else if c == '/' {
            Token::Slash
        } else if c == '%' {
            Token::Percent
        } else if c == '-' {
            let digit_follows = match self.peek() {
                Some(d) => class_contains(d, CharClass::Digit),
                None => false,
            };
            if digit_follows {
                return self.scan_negative_number();
            }
            Token::Minus
        } else {
            return Err(LexError(char_message_at("unexpected character", c, line, col)));
        };
        Ok(Some(token))
    }

    /// Skips whitespace and comments, then scans the token that follows;
    /// `Ok(None)` at the end of the text.
    fn scan(&mut self) -> (r: Result<Option<Token>, LexError>)
        requires
            old(self).wf(),
        ensures
            final(self).wf(),
            final(self).chars@ == old(self).chars@,
            ({
                let s = old(self).chars@;
                let j = skip_blank(s, old(self).pos as int);
                if j >= s.len() {
                    r matches Ok(None) && final(self).pos == j
                } else {
                    agrees(scan_at(s, j), r, final(self).pos as int)
                }
            }),
    {
        proof {
            lemma_skip_blank(self.chars@, self.pos as int);
        }
        self.skip_whitespace();
        let c = match self.peek() {
            Some(c) => c,
            None => return Ok(None),
        };
        if c == '"' {
            self.scan_string()
        } else if c == '$' {
            self.scan_variable()
        } else if c == '^' {
            self.scan_parent_ref()
        } else if c == '`' {
            self.scan_quoted_ident()
        } else if class_contains(c, CharClass::Digit) {
            self.scan_number()
        } else if char_is_alphabetic(c) || c == '_' {
            self.scan_ident_or_keyword()
        } else {
            self.scan_symbol()
        }
    }

    /// The next token, an error, or `None` at the end of the text.
    pub fn next_token(&mut self) -> (r: Option<Result<Token, LexError>>)
        requires
            old(self).wf(),
        ensures
            final(self).wf(),
            final(self).text() == old(self).text(),
            ({
                let s = old(self).text();
                let j = skip_blank(s, old(self).position());
                match r {
                    None => j >= s.len(),
                    Some(Ok(t)) => j < s.len() && scan_at(s, j) == Scan::Token(
                        t@,
                        final(self).position(),
                    ),
                    Some(Err(_)) => j < s.len() && scan_at(s, j) is Fail,
                }
            }),
    {
        match self.scan() {
            Ok(Some(t)) => Some(Ok(t)),
            Ok(None) => None,
            Err(e) => Some(Err(e)),
        }
    }
}

/// Splits query text into tokens.
///
/// Fails with the first lexical error, or where the text is too long for
/// its positions to be counted.
pub fn tokenize(input: &str) -> (r: Result<Vec<Token>, LexError>)
    ensures
        r is Ok <==> (lex(input@) is Some && input@.len() + 2 < usize::MAX),
        r matches Ok(v) ==> lex(input@) == Some(views(v@)),
{
    let chars = chars_of(input);
    if chars.len() >= usize::MAX - 2 {
        return Err(LexError("query text too long".to_string()));
    }
    let mut lexer = Lexer::from_chars(chars);
    let ghost s = input@;
    let mut tokens: Vec<Token> = Vec::new();
    assert(views(tokens@) =~= seq![]);
    loop
        invariant
            lexer.wf(),
            lexer.chars@ == s,
            s == input@,
            lex(s) == lex_from(s, lexer.pos as int, views(tokens@)),
        decreases s.len() - lexer.pos,
    {
        proof {
            lemma_skip_blank(s, lexer.pos as int);
            let j = skip_blank(s, lexer.pos as int);
            if j < s.len() {
                lemma_scan_at_progress(s, j);
            }
        }
        match lexer.scan() {
            Ok(Some(t)) => {
                let ghost acc = views(tokens@);
                tokens.push(t);
                assert(views(tokens@) =~= acc.push(t@));
            },
            Ok(None) => return Ok(tokens),
            Err(e) => return Err(e),
        }
    }
}


/// A run over characters that all belong to the class reaches the end.
pub proof fn lemma_run_end_to_end(s: Seq<char>, i: int, k: CharClass)
    requires
        0 <= i <= s.len(),
        forall|j: int| i <= j < s.len() ==> in_class(#[trigger] s[j], k),
    ensures
        run_end(s, i, k) == s.len(),
    decreases s.len() - i,
{
    if i < s.len() {
        lemma_run_end_to_end(s, i + 1, k);
    }
}

/// Every keyword is spelled in ASCII letters.
pub proof fn lemma_keyword_letters(k: Keyword)
    ensures
        keyword_text(k).len() > 0,
        forall|j: int|
            0 <= j < keyword_text(k).len() ==> is_ascii_letter(#[trigger] keyword_text(k)[j]),
{
}

/// Rendering a keyword, an operator or a punctuation mark and scanning the
/// text again gives back that one token.
pub proof fn lemma_fixed_token_relexes(t: TokenView)
    requires
        fixed_text(t) is Some,
    ensures
        lex(token_text(t)) == Some(seq![t]),
{
    let s = token_text(t);
    reveal_with_fuel(lex_from, 3);
    reveal_with_fuel(skip_blank, 2);
    if let TokenView::Keyword(k) = t {
        lemma_keyword_letters(k);
        lemma_keyword_of_text(k);
        lemma_run_end_to_end(s, 1, CharClass::Word);
        assert(s.subrange(0, s.len() as int) =~= s);
        assert(skip_blank(s, 0) == 0);
        assert(scan_at(s, 0) == Scan::Token(t, s.len() as int));
    } else {
        assert(skip_blank(s, 0) == 0);
    }
}

/// A token sequence is no longer than the text it was scanned from.
pub proof fn lemma_lex_from_len(s: Seq<char>, i: int, acc: Seq<TokenView>)
    requires
        0 <= i <= s.len(),
        lex_from(s, i, acc) is Some,
    ensures
        lex_from(s, i, acc)->0.len() <= acc.len() + s.len() - i,
    decreases s.len() - i,
{
    lemma_skip_blank(s, i);
    let j = skip_blank(s, i);
    if j < s.len() {
        lemma_scan_at_progress(s, j);
        if let Scan::Token(t, k) = scan_at(s, j) {
            lemma_lex_from_len(s, k, acc.push(t));
        }
    }
}

} // verus!
