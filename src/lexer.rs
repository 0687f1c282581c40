use vstd::prelude::*;
use crate::token::{Keyword, Operator, Token, TokenV};

verus! {

/// Characters that std's `char::is_whitespace` accepts (the Unicode `White_Space` set).
pub open spec fn is_whitespace(c: char) -> bool {
    ('\t' <= c && c <= '\r') || c == ' ' || c == '\u{85}' || c == '\u{a0}' || c == '\u{1680}'
        || ('\u{2000}' <= c && c <= '\u{200a}') || c == '\u{2028}' || c == '\u{2029}'
        || c == '\u{202f}' || c == '\u{205f}' || c == '\u{3000}'
}

pub open spec fn is_digit(c: char) -> bool {
    '0' <= c && c <= '9'
}

pub open spec fn is_word_start(c: char) -> bool {
    ('a' <= c && c <= 'z') || ('A' <= c && c <= 'Z') || c == '_'
}

pub open spec fn is_word_char(c: char) -> bool {
    is_word_start(c) || is_digit(c)
}

/// The first index at or after `i` that holds no whitespace.
pub open spec fn skip_front(s: Seq<char>, i: int) -> int
    decreases s.len() - i,
{
    if 0 <= i < s.len() && is_whitespace(s[i]) {
        skip_front(s, i + 1)
    } else {
        i
    }
}

/// The end of `s[lo..j]` once trailing whitespace is dropped.
pub open spec fn skip_back(s: Seq<char>, lo: int, j: int) -> int
    decreases j - lo,
{
    if lo < j && j <= s.len() && is_whitespace(s[j - 1]) {
        skip_back(s, lo, j - 1)
    } else {
        j
    }
}

/// `s` without leading and trailing whitespace.
pub open spec fn trimmed(s: Seq<char>) -> Seq<char> {
    let lo = skip_front(s, 0);
    s.subrange(lo, skip_back(s, lo, s.len() as int))
}

/// The character at `i`, or `'\0'` past the end.
pub open spec fn char_at(s: Seq<char>, i: int) -> char {
    if 0 <= i < s.len() {
        s[i]
    } else {
        '\0'
    }
}

/// The end of a numeric literal whose digits continue at `j`; at most one `.` is taken in.
pub open spec fn number_end(s: Seq<char>, j: int, seen_dot: bool) -> int
    decreases s.len() - j,
{
    if j < 0 || j >= s.len() {
        j
    } else if is_digit(s[j]) {
        number_end(s, j + 1, seen_dot)
    } else if s[j] == '.' && !seen_dot {
        number_end(s, j + 1, true)
    } else {
        j
    }
}

/// The end of a word whose characters continue at `j`.
pub open spec fn word_end(s: Seq<char>, j: int) -> int
    decreases s.len() - j,
{
    if 0 <= j < s.len() && is_word_char(s[j]) {
        word_end(s, j + 1)
    } else {
        j
    }
}

/// The index of the first `quote` at or after `j`, or the end of `s`.
pub open spec fn string_end(s: Seq<char>, j: int, quote: char) -> int
    decreases s.len() - j,
{
    if 0 <= j < s.len() && s[j] != quote {
        string_end(s, j + 1, quote)
    } else {
        j
    }
}

/// The token of a word: a keyword, a boolean, `not`, or an identifier.
pub open spec fn word_token(w: Seq<char>) -> TokenV {
    if w == seq!['l', 'e', 't'] {
        TokenV::Keyword(Keyword::Let)
    } else if w == seq!['f', 'u', 'n', 'c', 't', 'i', 'o', 'n'] {
        TokenV::Keyword(Keyword::Function)
    } else if w == seq!['a', 'n', 'd'] {
        TokenV::Keyword(Keyword::And)
    } else if w == seq!['o', 'r'] {
        TokenV::Keyword(Keyword::Or)
    } else if w == seq!['n', 'o', 'n', 'e'] {
        TokenV::Keyword(Keyword::NoValue)
    } else if w == seq!['t', 'r', 'u', 'e'] {
        TokenV::Boolean(true)
    } else if w == seq!['f', 'a', 'l', 's', 'e'] {
        TokenV::Boolean(false)
    } else if w == seq!['n', 'o', 't'] {
        TokenV::Operator(Operator::Not)
    } else {
        TokenV::Identifier(w)
    }
}

/// An operator of one character, or of two when the next character is `second`.
pub open spec fn op_pair(s: Seq<char>, i: int, second: char, matched: Operator, unmatched: Operator) -> (Option<TokenV>, int) {
    if char_at(s, i + 1) == second {
        (Some(TokenV::Operator(matched)), i + 2)
    } else {
        (Some(TokenV::Operator(unmatched)), i + 1)
    }
}

/// One step of the scanner at `i`: the token found there, if any, and where scanning resumes.
pub open spec fn scan_step(s: Seq<char>, i: int) -> (Option<TokenV>, int) {
    let c = s[i];
    if is_digit(c) {
        let j = number_end(s, i + 1, false);
        (Some(TokenV::Number(s.subrange(i, j))), j)
    } else if is_word_start(c) {
        let j = word_end(s, i + 1);
        (Some(word_token(s.subrange(i, j))), j)
    } else if c == '"' || c == '\'' {
        let j = string_end(s, i + 1, c);
        (Some(TokenV::Str(s.subrange(i + 1, j))), if j < s.len() { j + 1 } else { j })
    } else if c == '*' {
        if char_at(s, i + 1) == '*' {
            if char_at(s, i + 2) == '=' {
                (Some(TokenV::Operator(Operator::ExponentEqual)), i + 3)
            } else {
                (Some(TokenV::Operator(Operator::Exponent)), i + 2)
            }
        } else {
            op_pair(s, i, '=', Operator::MulEqual, Operator::Mul)
        }
    } else if c == '+' {
        op_pair(s, i, '=', Operator::PlusEqual, Operator::Plus)
    } else if c == '-' {
        op_pair(s, i, '=', Operator::MinusEqual, Operator::Minus)
    } else if c == '/' {
        op_pair(s, i, '=', Operator::DivEqual, Operator::Div)
    } else if c == '%' {
        op_pair(s, i, '=', Operator::ModulusEqual, Operator::Modulus)
    } else if c == '>' {
        op_pair(s, i, '=', Operator::GreaterThanOrEqual, Operator::GreaterThan)
    } else if c == '<' {
        op_pair(s, i, '=', Operator::LessThanOrEqual, Operator::LessThan)
    } else if c == '=' {
        op_pair(s, i, '=', Operator::DoubleEqual, Operator::Equal)
    } else if c == '|' {
        op_pair(s, i, '|', Operator::DoublePipe, Operator::Pipe)
    } else if c == '!' {
        if char_at(s, i + 1) == '=' {
            (Some(TokenV::Operator(Operator::NotEqual)), i + 2)
        } else {
            (Some(TokenV::Unknown), i + 1)
        }
    } else if c == '(' {
        (Some(TokenV::LParen), i + 1)
    } else if c == ')' {
        (Some(TokenV::RParen), i + 1)
    } else if c == '{' {
        (Some(TokenV::LBrace), i + 1)
    } else if c == '}' {
        (Some(TokenV::RBrace), i + 1)
    } else if c == ',' {
        (Some(TokenV::Comma), i + 1)
    } else if c == ';' {
        (Some(TokenV::Semicolon), i + 1)
    } else {
        (None, i + 1)
    }
}

/// The tokens of `s` from index `i` on, ending with `EndOfFile`.
pub open spec fn lex_from(s: Seq<char>, i: int) -> Seq<TokenV>
    decreases s.len() - i,
{
    if i < 0 || i >= s.len() {
        seq![TokenV::EndOfFile]
    } else {
        let (t, j) = scan_step(s, i);
        if j <= i || j > s.len() {
            seq![]
        } else {
            match t {
                Some(t) => seq![t] + lex_from(s, j),
                None => lex_from(s, j),
            }
        }
    }
}

/// The token sequence of a source text.
pub open spec fn lex_text(text: Seq<char>) -> Seq<TokenV> {
    lex_from(trimmed(text), 0)
}

pub open spec fn views(ts: Seq<Token>) -> Seq<TokenV> {
    ts.map_values(|t: Token| t@)
}

} // verus!

verus! {

/// The characters of `text`, in order.
pub fn chars_of(text: &str) -> (r: Vec<char>)
    ensures
        r@ == text@,
{
    let mut v: Vec<char> = Vec::new();
    for c in it: text.chars()
        invariant
            v@ == it.seq().take(it.index() as int),
            it.seq() == text@,
    {
        v.push(c);
    }
    assert(v@ =~= text@);
    v
}

} // verus!

verus! {

/// Relies on `String: FromIterator<char>` (`collect`): the string holds the given characters in order.
#[verifier::external_body]
pub(crate) fn string_of(v: &Vec<char>, start: usize, end: usize) -> (r: String)
    requires
        start <= end <= v@.len(),
    ensures
        r@ == v@.subrange(start as int, end as int),
{
    v[start..end].iter().collect()
}

pub fn is_whitespace_char(c: char) -> (r: bool)
    ensures
        r == is_whitespace(c),
{
    ('\t' <= c && c <= '\r') || c == ' ' || c == '\u{85}' || c == '\u{a0}' || c == '\u{1680}'
        || ('\u{2000}' <= c && c <= '\u{200a}') || c == '\u{2028}' || c == '\u{2029}'
        || c == '\u{202f}' || c == '\u{205f}' || c == '\u{3000}'
}

/// The characters of `text` without leading and trailing whitespace.
pub fn trimmed_chars(text: &str) -> (r: Vec<char>)
    ensures
        r@ == trimmed(text@),
{
    let all = chars_of(text);
    let ghost s = all@;
    let n = all.len();
    let mut lo: usize = 0;
    while lo < n && is_whitespace_char(all[lo])
        invariant
            lo <= n,
            n == s.len(),
            all@ == s,
            skip_front(s, 0) == skip_front(s, lo as int),
        decreases n - lo,
    {
        lo = lo + 1;
    }
    let mut hi: usize = n;
    while hi > lo && is_whitespace_char(all[hi - 1])
        invariant
            lo <= hi <= n,
            n == s.len(),
            all@ == s,
            skip_back(s, lo as int, n as int) == skip_back(s, lo as int, hi as int),
        decreases hi,
    {
        hi = hi - 1;
    }
    let mut r: Vec<char> = Vec::new();
    let mut k: usize = lo;
    while k < hi
        invariant
            lo <= k <= hi <= n,
            n == s.len(),
            all@ == s,
            r@ == s.subrange(lo as int, k as int),
        decreases hi - k,
    {
        r.push(all[k]);
        k = k + 1;
        assert(r@ =~= s.subrange(lo as int, k as int));
    }
    r
}

/// Scans a source text into tokens.
#[derive(Debug)]
pub struct Lexer {
    /// The tokens found by `lex`, ending with `EndOfFile`.
    pub tokens: Vec<Token>,
    /// How many tokens `next` has handed out.
    pub position: usize,
    /// The characters being scanned.
    pub text: Vec<char>,
}

impl Lexer {
    /// A lexer over `text` without its surrounding whitespace; nothing is scanned yet.
    pub fn new(text: &str) -> (r: Self)
        ensures
            r.text@ == trimmed(text@),
            r.tokens@.len() == 0,
            r.position == 0,
    {
        Lexer { tokens: Vec::new(), position: 0, text: trimmed_chars(text) }
    }

    /// The token at `index` past the ones handed out, or `Unknown` past the end.
    pub fn get_index(&self, index: usize) -> (r: Token)
        ensures
            self.position + index < self.tokens@.len() ==> r == self.tokens@[self.position + index as int],
            self.position + index >= self.tokens@.len() ==> r == Token::Unknown,
    {
        if index < self.tokens.len() && self.position < self.tokens.len() - index {
            self.tokens[self.position + index].copied()
        } else {
            Token::Unknown
        }
    }

    /// The next token, without consuming it.
    pub fn peek(&self) -> (r: Token)
        ensures
            self.position < self.tokens@.len() ==> r == self.tokens@[self.position as int],
            self.position >= self.tokens@.len() ==> r == Token::Unknown,
    {
        self.get_index(0)
    }

    /// Consumes and returns the next token; past the end, `Unknown`.
    pub fn next(&mut self) -> (r: Token)
        ensures
            final(self).tokens == old(self).tokens,
            final(self).text@ == old(self).text@,
            old(self).position < old(self).tokens@.len() ==> r == old(self).tokens@[old(self).position as int]
                && final(self).position == old(self).position + 1,
            old(self).position >= old(self).tokens@.len() ==> r == Token::Unknown
                && final(self).position == old(self).position,
    {
        if self.position < self.tokens.len() {
            let t = self.tokens[self.position].copied();
            self.position = self.position + 1;
            t
        } else {
            Token::Unknown
        }
    }
}


fn is_digit_char(c: char) -> (r: bool)
    ensures
        r == is_digit(c),
{
    '0' <= c && c <= '9'
}

fn is_word_start_char(c: char) -> (r: bool)
    ensures
        r == is_word_start(c),
{
    ('a' <= c && c <= 'z') || ('A' <= c && c <= 'Z') || c == '_'
}

fn is_word_char_exec(c: char) -> (r: bool)
    ensures
        r == is_word_char(c),
{
    is_word_start_char(c) || is_digit_char(c)
}

/// Whether `v[start..end]` spells `word`.
pub(crate) fn spells(v: &Vec<char>, start: usize, end: usize, word: &Vec<char>) -> (r: bool)
    requires
        start <= end <= v@.len(),
    ensures
        r == (v@.subrange(start as int, end as int) == word@),
{
    if end - start != word.len() {
        proof {
            assert(v@.subrange(start as int, end as int).len() != word@.len());
        }
        return false;
    }
    let mut k: usize = 0;
    while k < word.len()
        invariant
            start <= end <= v@.len(),
            end - start == word@.len(),
            k <= word@.len(),
            forall|m: int| 0 <= m < k ==> v@[start + m] == word@[m],
        decreases word@.len() - k,
    {
        if v[start + k] != word[k] {
            proof {
                assert(v@.subrange(start as int, end as int)[k as int] != word@[k as int]);
            }
            return false;
        }
        k = k + 1;
    }
    assert(v@.subrange(start as int, end as int) =~= word@);
    true
}

impl Lexer {
    fn char_at_exec(&self, i: usize) -> (r: char)
        ensures
            r == char_at(self.text@, i as int),
    {
        if i < self.text.len() {
            self.text[i]
        } else {
            '\0'
        }
    }

    fn number_end_exec(&self, start: usize) -> (r: usize)
        requires
            start <= self.text@.len(),
        ensures
            r == number_end(self.text@, start as int, false),
            start <= r <= self.text@.len(),
    {
        let ghost s = self.text@;
        let n = self.text.len();
        let mut k = start;
        let mut dot = false;
        let mut done = false;
        while k < n && !done
            invariant
                start <= k <= n,
                n == s.len(),
                s == self.text@,
                done ==> number_end(s, start as int, false) == k,
                !done ==> number_end(s, start as int, false) == number_end(s, k as int, dot),
            decreases n - k, if done { 0int } else { 1int },
        {
            let c = self.text[k];
            if is_digit_char(c) {
                k = k + 1;
            } else if c == '.' && !dot {
                dot = true;
                k = k + 1;
            } else {
                done = true;
            }
        }
        k
    }

    fn word_end_exec(&self, start: usize) -> (r: usize)
        requires
            start <= self.text@.len(),
        ensures
            r == word_end(self.text@, start as int),
            start <= r <= self.text@.len(),
    {
        let n = self.text.len();
        let mut k = start;
        while k < n && is_word_char_exec(self.text[k])
            invariant
                start <= k <= n,
                n == self.text@.len(),
                word_end(self.text@, start as int) == word_end(self.text@, k as int),
            decreases n - k,
        {
            k = k + 1;
        }
        k
    }

    fn string_end_exec(&self, start: usize, quote: char) -> (r: usize)
        requires
            start <= self.text@.len(),
        ensures
            r == string_end(self.text@, start as int, quote),
            start <= r <= self.text@.len(),
    {
        let n = self.text.len();
        let mut k = start;
        while k < n && self.text[k] != quote
            invariant
                start <= k <= n,
                n == self.text@.len(),
                string_end(self.text@, start as int, quote) == string_end(self.text@, k as int, quote),
            decreases n - k,
        {
            k = k + 1;
        }
        k
    }

    fn word_token_exec(&self, start: usize, end: usize) -> (r: Token)
        requires
            start <= end <= self.text@.len(),
        ensures
            r@ == word_token(self.text@.subrange(start as int, end as int)),
    {
        let t = &self.text;
        if spells(t, start, end, &vec!['l', 'e', 't']) {
            Token::Keyword(Keyword::Let)
        } else if spells(t, start, end, &vec!['f', 'u', 'n', 'c', 't', 'i', 'o', 'n']) {
            Token::Keyword(Keyword::Function)
        } else if spells(t, start, end, &vec!['a', 'n', 'd']) {
            Token::Keyword(Keyword::And)
        } else if spells(t, start, end, &vec!['o', 'r']) {
            Token::Keyword(Keyword::Or)
        } else if spells(t, start, end, &vec!['n', 'o', 'n', 'e']) {
            Token::Keyword(Keyword::NoValue)
        } else if spells(t, start, end, &vec!['t', 'r', 'u', 'e']) {
            Token::Boolean(true)
        } else if spells(t, start, end, &vec!['f', 'a', 'l', 's', 'e']) {
            Token::Boolean(false)
        } else if spells(t, start, end, &vec!['n', 'o', 't']) {
            Token::Operator(Operator::Not)
        } else {
            Token::Identifier(string_of(t, start, end))
        }
    }

    fn op_pair_exec(&self, i: usize, second: char, matched: Operator, unmatched: Operator) -> (r: (Option<Token>, usize))
        requires
            i < self.text@.len(),
            second != '\0',
        ensures
            (token_views(r.0), r.1 as int) == op_pair(self.text@, i as int, second, matched, unmatched),
            i < r.1 <= self.text@.len(),
    {
        let _n = self.text.len();
        if self.char_at_exec(i + 1) == second {
            (Some(Token::Operator(matched)), i + 2)
        } else {
            (Some(Token::Operator(unmatched)), i + 1)
        }
    }

    /// Scans the token that starts at `i`.
    fn scan_token(&self, i: usize) -> (r: (Option<Token>, usize))
        requires
            i < self.text@.len(),
        ensures
            (token_views(r.0), r.1 as int) == scan_step(self.text@, i as int),
            i < r.1 <= self.text@.len(),
    {
        let _n = self.text.len();
        let c = self.text[i];
        if is_digit_char(c) {
            let j = self.number_end_exec(i + 1);
            (Some(Token::Number(string_of(&self.text, i, j))), j)
        } else if is_word_start_char(c) {
            let j = self.word_end_exec(i + 1);
            (Some(self.word_token_exec(i, j)), j)
        } else if c == '"' || c == '\'' {
            let j = self.string_end_exec(i + 1, c);
            let content = string_of(&self.text, i + 1, j);
            (Some(Token::String(content)), if j < self.text.len() { j + 1 } else { j })
        } else if c == '*' {
            if self.char_at_exec(i + 1) == '*' {
                if self.char_at_exec(i + 2) == '=' {
                    (Some(Token::Operator(Operator::ExponentEqual)), i + 3)
                } else {
                    (Some(Token::Operator(Operator::Exponent)), i + 2)
                }
            } else {
                self.op_pair_exec(i, '=', Operator::MulEqual, Operator::Mul)
            }
        } else if c == '+' {
            self.op_pair_exec(i, '=', Operator::PlusEqual, Operator::Plus)
        } else if c == '-' {
            self.op_pair_exec(i, '=', Operator::MinusEqual, Operator::Minus)
        } else if c == '/' {
            self.op_pair_exec(i, '=', Operator::DivEqual, Operator::Div)
        } else if c == '%' {
            self.op_pair_exec(i, '=', Operator::ModulusEqual, Operator::Modulus)
        } else if c == '>' {
            self.op_pair_exec(i, '=', Operator::GreaterThanOrEqual, Operator::GreaterThan)
        } else if c == '<' {
            self.op_pair_exec(i, '=', Operator::LessThanOrEqual, Operator::LessThan)
        } else if c == '=' {
            self.op_pair_exec(i, '=', Operator::DoubleEqual, Operator::Equal)
        } else if c == '|' {
            self.op_pair_exec(i, '|', Operator::DoublePipe, Operator::Pipe)
        } else if c == '!' {
            if self.char_at_exec(i + 1) == '=' {
                (Some(Token::Operator(Operator::NotEqual)), i + 2)
            } else {
                (Some(Token::Unknown), i + 1)
            }
        } else if c == '(' {
            (Some(Token::LParen), i + 1)
        } else if c == ')' {
            (Some(Token::RParen), i + 1)
        } else if c == '{' {
            (Some(Token::LBrace), i + 1)
        } else if c == '}' {
            (Some(Token::RBrace), i + 1)
        } else if c == ',' {
            (Some(Token::Comma), i + 1)
        } else if c == ';' {
            (Some(Token::Semicolon), i + 1)
        } else {
            (None, i + 1)
        }
    }

    /// Scans the whole text; the tokens then are those of `lex_from` over the text.
    pub fn lex(&mut self) -> (r: &Vec<Token>)
        requires
            old(self).tokens@.len() == 0,
        ensures
            final(self).text == old(self).text,
            final(self).position == old(self).position,
            views(final(self).tokens@) == lex_from(old(self).text@, 0),
            r == final(self).tokens,
    {
        let ghost s = self.text@;
        let n = self.text.len();
        let mut i: usize = 0;
        while i < n
            invariant
                i <= n,
                n == s.len(),
                self.text@ == s,
                self.text == old(self).text,
                self.position == old(self).position,
                views(self.tokens@) + lex_from(s, i as int) == lex_from(s, 0),
            decreases n - i,
        {
            let (t, j) = self.scan_token(i);
            let ghost before = self.tokens@;
            match t {
                Some(t) => {
                    self.tokens.push(t);
                    proof {
                        assert(views(self.tokens@) =~= views(before) + seq![t@]);
                    }
                },
                None => {},
            }
            i = j;
        }
        let ghost before = self.tokens@;
        self.tokens.push(Token::EndOfFile);
        proof {
            assert(views(self.tokens@) =~= views(before) + seq![TokenV::EndOfFile]);
        }
        &self.tokens
    }
}

pub open spec fn token_views(t: Option<Token>) -> Option<TokenV> {
    match t {
        Some(t) => Some(t@),
        None => None,
    }
}
} // verus!

verus! {

/// Digits with at most one `.`, starting with a digit: the text of a numeric literal.
pub open spec fn is_decimal_literal(t: Seq<char>) -> bool {
    &&& t.len() > 0
    &&& is_digit(t[0])
    &&& forall|i: int| 0 <= i < t.len() ==> is_digit(#[trigger] t[i]) || t[i] == '.'
    &&& forall|i: int, j: int| 0 <= i < j < t.len() && #[trigger] t[i] == '.' ==> #[trigger] t[j] != '.'
}

proof fn lemma_number_end(s: Seq<char>, j: int, seen_dot: bool)
    requires
        0 <= j <= s.len(),
    ensures
        j <= number_end(s, j, seen_dot) <= s.len(),
        forall|m: int| j <= m < number_end(s, j, seen_dot) ==> is_digit(#[trigger] s[m]) || s[m] == '.',
        seen_dot ==> forall|m: int| j <= m < number_end(s, j, seen_dot) ==> #[trigger] s[m] != '.',
        forall|m1: int, m2: int| j <= m1 < m2 < number_end(s, j, seen_dot) && #[trigger] s[m1] == '.' ==> #[trigger] s[m2] != '.',
    decreases s.len() - j,
{
    if j < s.len() {
        if is_digit(s[j]) {
            lemma_number_end(s, j + 1, seen_dot);
        } else if s[j] == '.' && !seen_dot {
            lemma_number_end(s, j + 1, true);
        }
    }
}

proof fn lemma_word_end(s: Seq<char>, j: int)
    requires
        0 <= j <= s.len(),
    ensures
        j <= word_end(s, j) <= s.len(),
    decreases s.len() - j,
{
    if j < s.len() && is_word_char(s[j]) {
        lemma_word_end(s, j + 1);
    }
}

proof fn lemma_scan_numbers(s: Seq<char>, i: int)
    requires
        0 <= i,
    ensures
        forall|k: int| 0 <= k < lex_from(s, i).len() && #[trigger] lex_from(s, i)[k] is Number ==> exists|a: int, b: int|
            i <= a < b <= s.len() && lex_from(s, i)[k]->Number_0 == s.subrange(a, b)
                && is_decimal_literal(#[trigger] s.subrange(a, b)),
    decreases s.len() - i,
{
    if i < s.len() {
        let (t, j) = scan_step(s, i);
        if j > i && j <= s.len() {
            lemma_scan_numbers(s, j);
            let rest = lex_from(s, j);
            if is_digit(s[i]) {
                lemma_number_end(s, i + 1, false);
                let e = number_end(s, i + 1, false);
                let w = s.subrange(i, e);
                assert(is_decimal_literal(w)) by {
                    assert forall|x: int| 0 <= x < w.len() implies is_digit(#[trigger] w[x]) || w[x] == '.' by {
                        if x > 0 {
                            assert(w[x] == s[i + x]);
                        }
                    }
                    assert forall|x: int, y: int| 0 <= x < y < w.len() && #[trigger] w[x] == '.' implies #[trigger] w[y] != '.' by {
                        assert(w[x] == s[i + x]);
                        assert(w[y] == s[i + y]);
                    }
                }
                assert forall|k: int| 0 <= k < lex_from(s, i).len() && #[trigger] lex_from(s, i)[k] is Number implies exists|a: int, b: int|
                    i <= a < b <= s.len() && lex_from(s, i)[k]->Number_0 == s.subrange(a, b)
                        && is_decimal_literal(#[trigger] s.subrange(a, b)) by {
                    if k == 0 {
                        assert(lex_from(s, i)[k]->Number_0 == s.subrange(i, e));
                    } else {
                        assert(lex_from(s, i)[k] == rest[k - 1]);
                    }
                }
            } else {
                if is_word_start(s[i]) {
                    lemma_word_end(s, i + 1);
                }
                assert forall|k: int| 0 <= k < lex_from(s, i).len() && #[trigger] lex_from(s, i)[k] is Number implies exists|a: int, b: int|
                    i <= a < b <= s.len() && lex_from(s, i)[k]->Number_0 == s.subrange(a, b)
                        && is_decimal_literal(#[trigger] s.subrange(a, b)) by {
                    match t {
                        Some(tok) => {
                            if k > 0 {
                                assert(lex_from(s, i)[k] == rest[k - 1]);
                            } else {
                                assert(!(tok is Number));
                            }
                        },
                        None => {
                            assert(lex_from(s, i)[k] == rest[k]);
                        },
                    }
                }
            }
        }
    }
}

proof fn lemma_trimmed_bounds(s: Seq<char>)
    ensures
        0 <= skip_front(s, 0) <= skip_back(s, skip_front(s, 0), s.len() as int) <= s.len(),
{
    lemma_skip_front(s, 0);
    lemma_skip_back(s, skip_front(s, 0), s.len() as int);
}

proof fn lemma_skip_front(s: Seq<char>, i: int)
    requires
        0 <= i <= s.len(),
    ensures
        i <= skip_front(s, i) <= s.len(),
    decreases s.len() - i,
{
    if i < s.len() && is_whitespace(s[i]) {
        lemma_skip_front(s, i + 1);
    }
}

proof fn lemma_skip_back(s: Seq<char>, lo: int, j: int)
    requires
        0 <= lo <= j <= s.len(),
    ensures
        lo <= skip_back(s, lo, j) <= j,
    decreases j - lo,
{
    if lo < j && is_whitespace(s[j - 1]) {
        lemma_skip_back(s, lo, j - 1);
    }
}

/// Every numeric token of a text is a stretch of that text that reads as a decimal literal
/// (digits with at most one `.`, starting with a digit), so its number is the literal's value.
pub proof fn lemma_number_tokens_are_literals(text: Seq<char>)
    ensures
        forall|k: int| 0 <= k < lex_text(text).len() && #[trigger] lex_text(text)[k] is Number ==> exists|a: int, b: int|
            0 <= a < b <= text.len() && lex_text(text)[k]->Number_0 == text.subrange(a, b)
                && is_decimal_literal(#[trigger] text.subrange(a, b)),
{
    let s = trimmed(text);
    let lo = skip_front(text, 0);
    lemma_trimmed_bounds(text);
    lemma_scan_numbers(s, 0);
    assert forall|k: int| 0 <= k < lex_text(text).len() && #[trigger] lex_text(text)[k] is Number implies exists|a: int, b: int|
        0 <= a < b <= text.len() && lex_text(text)[k]->Number_0 == text.subrange(a, b)
            && is_decimal_literal(#[trigger] text.subrange(a, b)) by {
        let (a, b) = choose|a: int, b: int| 0 <= a < b <= s.len() && lex_from(s, 0)[k]->Number_0 == s.subrange(a, b)
            && is_decimal_literal(#[trigger] s.subrange(a, b));
        assert(s.subrange(a, b) =~= text.subrange(lo + a, lo + b));
    }
}

} // verus!
