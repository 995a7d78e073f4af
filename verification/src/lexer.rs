use vstd::prelude::*;
use vstd::std_specs::iter::IteratorSpec;

use crate::error::LoxError;
use crate::token::{Literal, LiteralV, Token, TokenType, TokenV};

verus! {

// ---------------------------------------------------------------------------
// The token grammar of Lox, over the characters of one line.
// ---------------------------------------------------------------------------

pub open spec fn is_alpha(c: char) -> bool {
    ('a' <= c && c <= 'z') || ('A' <= c && c <= 'Z')
}

pub open spec fn is_digit(c: char) -> bool {
    '0' <= c && c <= '9'
}

/// The characters that may follow the first letter of an identifier.
pub open spec fn is_ident_char(c: char) -> bool {
    is_alpha(c) || is_digit(c) || c == '_'
}

/// The characters that separate tokens and are skipped.
pub open spec fn is_blank(c: char) -> bool {
    c == ' ' || c == '\t' || c == '\n' || c == '\x0c'
}

/// The end of the run of identifier characters that starts at `i`.
pub open spec fn ident_end(line: Seq<char>, i: int) -> int
    decreases line.len() - i,
{
    if i < line.len() && i >= 0 && is_ident_char(line[i]) {
        ident_end(line, i + 1)
    } else {
        i
    }
}

/// The end of the run of digits that starts at `i`.
pub open spec fn digits_end(line: Seq<char>, i: int) -> int
    decreases line.len() - i,
{
    if i < line.len() && i >= 0 && is_digit(line[i]) {
        digits_end(line, i + 1)
    } else {
        i
    }
}

/// The position of the first double quote at or after `i`, or the length of
/// the line where there is none.
pub open spec fn quote_at(line: Seq<char>, i: int) -> int
    decreases line.len() - i,
{
    if i < line.len() && i >= 0 && line[i] != '"' {
        quote_at(line, i + 1)
    } else {
        i
    }
}

/// The end of the body of a comment that starts at `i` (just after `//`):
/// a comment runs over any character but `"` and `\`, and over `\` followed
/// by any character.
pub open spec fn comment_end(line: Seq<char>, i: int) -> int
    decreases line.len() - i,
{
    if i < 0 || i >= line.len() {
        i
    } else if line[i] == '"' {
        i
    } else if line[i] == '\\' {
        if i + 1 < line.len() {
            comment_end(line, i + 2)
        } else {
            i
        }
    } else {
        comment_end(line, i + 1)
    }
}

/// The keyword that a word spells, if any.
pub open spec fn keyword(w: Seq<char>) -> Option<TokenType> {
    if w == seq!['a', 'n', 'd'] {
        Some(TokenType::AND)
    } else if w == seq!['c', 'l', 'a', 's', 's'] {
        Some(TokenType::CLASS)
    } else if w == seq!['e', 'l', 's', 'e'] {
        Some(TokenType::ELSE)
    } else if w == seq!['f', 'a', 'l', 's', 'e'] {
        Some(TokenType::FALSE)
    } else if w == seq!['f', 'u', 'n'] {
        Some(TokenType::FUN)
    } else if w == seq!['f', 'o', 'r'] {
        Some(TokenType::FOR)
    } else if w == seq!['i', 'f'] {
        Some(TokenType::IF)
    } else if w == seq!['n', 'i', 'l'] {
        Some(TokenType::NIL)
    } else if w == seq!['o', 'r'] {
        Some(TokenType::OR)
    } else if w == seq!['p', 'r', 'i', 'n', 't'] {
        Some(TokenType::PRINT)
    } else if w == seq!['r', 'e', 't', 'u', 'r', 'n'] {
        Some(TokenType::RETURN)
    } else if w == seq!['s', 'u', 'p', 'e', 'r'] {
        Some(TokenType::SUPER)
    } else if w == seq!['t', 'h', 'i', 's'] {
        Some(TokenType::THIS)
    } else if w == seq!['t', 'r', 'u', 'e'] {
        Some(TokenType::TRUE)
    } else if w == seq!['v', 'a', 'r'] {
        Some(TokenType::VAR)
    } else if w == seq!['w', 'h', 'i', 'l', 'e'] {
        Some(TokenType::WHILE)
    } else if w == seq!['b', 'r', 'e', 'a', 'k'] {
        Some(TokenType::BREAK)
    } else if w == seq!['c', 'o', 'n', 't', 'i', 'n', 'u', 'e'] {
        Some(TokenType::CONTINUE)
    } else {
        None
    }
}

/// The kind of a one-character token.
pub open spec fn single_char_token(c: char) -> Option<TokenType> {
    if c == '(' {
        Some(TokenType::LeftParen)
    } else if c == ')' {
        Some(TokenType::RightParen)
    } else if c == '{' {
        Some(TokenType::LeftBrace)
    } else if c == '}' {
        Some(TokenType::RightBrace)
    } else if c == ',' {
        Some(TokenType::COMMA)
    } else if c == '.' {
        Some(TokenType::DOT)
    } else if c == '-' {
        Some(TokenType::MINUS)
    } else if c == '+' {
        Some(TokenType::PLUS)
    } else if c == ';' {
        Some(TokenType::SEMICOLON)
    } else if c == '/' {
        Some(TokenType::SLASH)
    } else if c == '*' {
        Some(TokenType::STAR)
    } else {
        None
    }
}

/// The kinds of the tokens `c` and `c=` for the four characters that may be
/// followed by `=`.
pub open spec fn operator_pair(c: char) -> Option<(TokenType, TokenType)> {
    if c == '!' {
        Some((TokenType::BANG, TokenType::BangEqual))
    } else if c == '=' {
        Some((TokenType::EQUAL, TokenType::EqualEqual))
    } else if c == '>' {
        Some((TokenType::GREATER, TokenType::GreaterEqual))
    } else if c == '<' {
        Some((TokenType::LESS, TokenType::LessEqual))
    } else {
        None
    }
}

/// The token that starts at `i` (a position that holds no blank) and where
/// it ends: the longest match among the patterns of Lox, a keyword winning
/// over an identifier of the same length. Where no pattern matches, an
/// `Error` token of one character; where a string is not closed on its line,
/// an `Error` token that runs to the end of the line.
pub open spec fn scan_token(line: Seq<char>, i: int) -> (TokenType, int) {
    let c = line[i];
    if is_alpha(c) {
        let e = ident_end(line, i + 1);
        match keyword(line.subrange(i, e)) {
            Some(k) => (k, e),
            None => (TokenType::IDENTIFIER, e),
        }
    } else if is_digit(c) {
        (TokenType::NUMBER, digits_end(line, i + 1))
    } else if c == '"' {
        let q = quote_at(line, i + 1);
        if q < line.len() {
            (TokenType::STRING, q + 1)
        } else {
            (TokenType::Error, line.len() as int)
        }
    } else if c == '/' && i + 1 < line.len() && line[i + 1] == '/' {
        (TokenType::COMMENTS, comment_end(line, i + 2))
    } else if let Some((one, two)) = operator_pair(c) {
        if i + 1 < line.len() && line[i + 1] == '=' {
            (two, i + 2)
        } else {
            (one, i + 1)
        }
    } else if let Some(t) = single_char_token(c) {
        (t, i + 1)
    } else {
        (TokenType::Error, i + 1)
    }
}

/// The literal value that a token of the given kind and text carries.
pub open spec fn literal_of(t: TokenType, lexeme: Seq<char>) -> Option<LiteralV> {
    match t {
        TokenType::TRUE => Some(LiteralV::BOOL(true)),
        TokenType::FALSE => Some(LiteralV::BOOL(false)),
        TokenType::STRING => Some(LiteralV::STRING(lexeme.subrange(1, lexeme.len() - 1))),
        TokenType::NUMBER => Some(LiteralV::NUM(lexeme)),
        _ => None,
    }
}

pub open spec fn make_token(t: TokenType, lexeme: Seq<char>, line_no: u32) -> TokenV {
    TokenV { token_type: t, line_no, literal: literal_of(t, lexeme), lexeme, scope: None }
}

pub proof fn lemma_ends(line: Seq<char>, i: int)
    requires
        0 <= i <= line.len(),
    ensures
        i <= ident_end(line, i) <= line.len(),
        i <= digits_end(line, i) <= line.len(),
        i <= quote_at(line, i) <= line.len(),
        i <= comment_end(line, i) <= line.len(),
    decreases line.len() - i,
{
    if i < line.len() {
        lemma_ends(line, i + 1);
        if i + 2 <= line.len() {
            lemma_ends(line, i + 2);
        }
    }
}

pub proof fn lemma_scan_token_advances(line: Seq<char>, i: int)
    requires
        0 <= i < line.len(),
    ensures
        i < scan_token(line, i).1 <= line.len(),
{
    lemma_ends(line, i + 1);
    if i + 2 <= line.len() {
        lemma_ends(line, i + 2);
    }
}

/// The tokens of a line from position `i` on, each stamped with `line_no`.
/// Blanks and comments give no token.
pub open spec fn scan_from(line: Seq<char>, i: int, line_no: u32) -> Seq<TokenV>
    decreases line.len() - i,
{
    if i < 0 || i >= line.len() {
        Seq::empty()
    } else if is_blank(line[i]) {
        scan_from(line, i + 1, line_no)
    } else {
        let (t, e) = scan_token(line, i);
        proof {
            lemma_scan_token_advances(line, i);
        }
        if t == TokenType::COMMENTS {
            scan_from(line, e, line_no)
        } else {
            seq![make_token(t, line.subrange(i, e), line_no)] + scan_from(line, e, line_no)
        }
    }
}

/// The position of the first newline at or after `i`, or the end.
pub open spec fn newline_at(s: Seq<char>, i: int) -> int
    decreases s.len() - i,
{
    if 0 <= i < s.len() && s[i] != '\n' {
        newline_at(s, i + 1)
    } else {
        i
    }
}

pub proof fn lemma_newline_at(s: Seq<char>, i: int)
    requires
        0 <= i <= s.len(),
    ensures
        i <= newline_at(s, i) <= s.len(),
        newline_at(s, i) < s.len() ==> s[newline_at(s, i)] == '\n',
        forall|k: int| i <= k < newline_at(s, i) ==> s[k] != '\n',
    decreases s.len() - i,
{
    if i < s.len() && s[i] != '\n' {
        lemma_newline_at(s, i + 1);
    }
}

/// The number of lines of a script from position `i` on: one more than the
/// number of newlines there.
pub open spec fn line_count(s: Seq<char>, i: int) -> nat
    decreases s.len() - i,
{
    if 0 <= i <= s.len() {
        let nl = newline_at(s, i);
        proof {
            lemma_newline_at(s, i);
        }
        if nl < s.len() {
            1 + line_count(s, nl + 1)
        } else {
            1
        }
    } else {
        0
    }
}

/// The tokens of a script from position `i` on, the line that starts there
/// being numbered `line_no`; lines are separated by newlines.
pub open spec fn scan_lines(s: Seq<char>, i: int, line_no: int) -> Seq<TokenV>
    decreases s.len() - i,
{
    if 0 <= i <= s.len() {
        let nl = newline_at(s, i);
        proof {
            lemma_newline_at(s, i);
        }
        let here = scan_from(s.subrange(i, nl), 0, line_no as u32);
        if nl < s.len() {
            here + scan_lines(s, nl + 1, line_no + 1)
        } else {
            here
        }
    } else {
        Seq::empty()
    }
}

/// The tokens of a whole script whose first line is numbered `first_line`:
/// those of its lines, then `EOF` on the line after the last.
pub open spec fn scan_script(s: Seq<char>, first_line: int) -> Seq<TokenV> {
    scan_lines(s, 0, first_line) + seq![
        TokenV {
            token_type: TokenType::EOF,
            line_no: (first_line + line_count(s, 0)) as u32,
            literal: None,
            lexeme: Seq::empty(),
            scope: None,
        },
    ]
}

pub open spec fn token_views(v: Seq<Token>) -> Seq<TokenV> {
    v.map_values(|t: Token| t@)
}

// ---------------------------------------------------------------------------
// Executable scanner.
// ---------------------------------------------------------------------------

/// `String::push`: std documents that it appends the character to the end
/// of the string.
#[verifier::external_body]
pub(crate) fn push_char(s: &mut String, c: char)
    ensures
        final(s)@ == old(s)@.push(c),
{
    s.push(c)
}

/// The characters of a string.
fn chars_of(s: &String) -> (r: Vec<char>)
    ensures
        r@ == s@,
{
    let mut out: Vec<char> = Vec::new();
    let mut it = s.as_str().chars();
    proof {
        broadcast use vstd::string::group_string_axioms;
    }
    loop
        invariant
            out@ + it.remaining() == s@,
            it.decrease() is Some,
            it.obeys_prophetic_iter_laws(),
        ensures
            out@ == s@,
        decreases it.decrease()->0,
    {
        match it.next() {
            Some(c) => {
                out.push(c);
            },
            None => {
                assert(out@ =~= s@);
                break ;
            },
        }
    }
    out
}

/// The string spelled by `chars[from..to]`.
fn string_of(chars: &Vec<char>, from: usize, to: usize) -> (r: String)
    requires
        from <= to <= chars@.len(),
    ensures
        r@ == chars@.subrange(from as int, to as int),
{
    let mut s = String::new();
    let mut k = from;
    while k < to
        invariant
            from <= k <= to <= chars@.len(),
            s@ == chars@.subrange(from as int, k as int),
        decreases to - k,
    {
        push_char(&mut s, chars[k]);
        k += 1;
        assert(s@ =~= chars@.subrange(from as int, k as int));
    }
    s
}

fn is_alpha_exec(c: char) -> (b: bool)
    ensures
        b == is_alpha(c),
{
    ('a' <= c && c <= 'z') || ('A' <= c && c <= 'Z')
}

fn is_digit_exec(c: char) -> (b: bool)
    ensures
        b == is_digit(c),
{
    '0' <= c && c <= '9'
}

fn is_blank_exec(c: char) -> (b: bool)
    ensures
        b == is_blank(c),
{
    c == ' ' || c == '\t' || c == '\n' || c == '\x0c'
}

fn ident_end_exec(line: &Vec<char>, i: usize) -> (e: usize)
    requires
        i <= line@.len(),
    ensures
        e == ident_end(line@, i as int),
{
    let mut k = i;
    while k < line.len() && (is_alpha_exec(line[k]) || is_digit_exec(line[k]) || line[k] == '_')
        invariant
            i <= k <= line@.len(),
            ident_end(line@, i as int) == ident_end(line@, k as int),
        decreases line@.len() - k,
    {
        k += 1;
    }
    k
}

fn digits_end_exec(line: &Vec<char>, i: usize) -> (e: usize)
    requires
        i <= line@.len(),
    ensures
        e == digits_end(line@, i as int),
{
    let mut k = i;
    while k < line.len() && is_digit_exec(line[k])
        invariant
            i <= k <= line@.len(),
            digits_end(line@, i as int) == digits_end(line@, k as int),
        decreases line@.len() - k,
    {
        k += 1;
    }
    k
}

fn quote_at_exec(line: &Vec<char>, i: usize) -> (e: usize)
    requires
        i <= line@.len(),
    ensures
        e == quote_at(line@, i as int),
{
    let mut k = i;
    while k < line.len() && line[k] != '"'
        invariant
            i <= k <= line@.len(),
            quote_at(line@, i as int) == quote_at(line@, k as int),
        decreases line@.len() - k,
    {
        k += 1;
    }
    k
}

fn comment_end_exec(line: &Vec<char>, i: usize) -> (e: usize)
    requires
        i <= line@.len(),
    ensures
        e == comment_end(line@, i as int),
{
    let mut k = i;
    loop
        invariant
            i <= k <= line@.len(),
            comment_end(line@, i as int) == comment_end(line@, k as int),
        decreases line@.len() - k,
    {
        if k >= line.len() || line[k] == '"' {
            return k;
        }
        if line[k] == '\\' {
            if k + 1 < line.len() {
                k += 2;
            } else {
                return k;
            }
        } else {
            k += 1;
        }
    }
}

/// Whether `chars[from..to]` spells `w`.
fn segment_is(chars: &Vec<char>, from: usize, to: usize, w: &[char]) -> (b: bool)
    requires
        from <= to <= chars@.len(),
    ensures
        b == (chars@.subrange(from as int, to as int) == w@),
{
    if to - from != w.len() {
        return false;
    }
    let mut k: usize = 0;
    while k < w.len()
        invariant
            to - from == w@.len(),
            from <= to <= chars@.len(),
            k <= w@.len(),
            forall|j: int| 0 <= j < k ==> chars@[from + j] == w@[j],
        decreases w@.len() - k,
    {
        if chars[from + k] != w[k] {
            assert(chars@.subrange(from as int, to as int)[k as int] != w@[k as int]);
            return false;
        }
        k += 1;
    }
    assert(chars@.subrange(from as int, to as int) =~= w@);
    true
}

fn keyword_exec(chars: &Vec<char>, from: usize, to: usize) -> (r: Option<TokenType>)
    requires
        from <= to <= chars@.len(),
    ensures
        r == keyword(chars@.subrange(from as int, to as int)),
{
    let kw = ['a', 'n', 'd'];
    assert(kw@ =~= seq!['a', 'n', 'd']);
    if segment_is(chars, from, to, &kw) {
        return Some(TokenType::AND);
    }
    let kw = ['c', 'l', 'a', 's', 's'];
    assert(kw@ =~= seq!['c', 'l', 'a', 's', 's']);
    if segment_is(chars, from, to, &kw) {
        return Some(TokenType::CLASS);
    }
    let kw = ['e', 'l', 's', 'e'];
    assert(kw@ =~= seq!['e', 'l', 's', 'e']);
    if segment_is(chars, from, to, &kw) {
        return Some(TokenType::ELSE);
    }
    let kw = ['f', 'a', 'l', 's', 'e'];
    assert(kw@ =~= seq!['f', 'a', 'l', 's', 'e']);
    if segment_is(chars, from, to, &kw) {
        return Some(TokenType::FALSE);
    }
    let kw = ['f', 'u', 'n'];
    assert(kw@ =~= seq!['f', 'u', 'n']);
    if segment_is(chars, from, to, &kw) {
        return Some(TokenType::FUN);
    }
    let kw = ['f', 'o', 'r'];
    assert(kw@ =~= seq!['f', 'o', 'r']);
    if segment_is(chars, from, to, &kw) {
        return Some(TokenType::FOR);
    }
    let kw = ['i', 'f'];
    assert(kw@ =~= seq!['i', 'f']);
    if segment_is(chars, from, to, &kw) {
        return Some(TokenType::IF);
    }
    let kw = ['n', 'i', 'l'];
    assert(kw@ =~= seq!['n', 'i', 'l']);
    if segment_is(chars, from, to, &kw) {
        return Some(TokenType::NIL);
    }
    let kw = ['o', 'r'];
    assert(kw@ =~= seq!['o', 'r']);
    if segment_is(chars, from, to, &kw) {
        return Some(TokenType::OR);
    }
    let kw = ['p', 'r', 'i', 'n', 't'];
    assert(kw@ =~= seq!['p', 'r', 'i', 'n', 't']);
    if segment_is(chars, from, to, &kw) {
        return Some(TokenType::PRINT);
    }
    let kw = ['r', 'e', 't', 'u', 'r', 'n'];
    assert(kw@ =~= seq!['r', 'e', 't', 'u', 'r', 'n']);
    if segment_is(chars, from, to, &kw) {
        return Some(TokenType::RETURN);
    }
    let kw = ['s', 'u', 'p', 'e', 'r'];
    assert(kw@ =~= seq!['s', 'u', 'p', 'e', 'r']);
    if segment_is(chars, from, to, &kw) {
        return Some(TokenType::SUPER);
    }
    let kw = ['t', 'h', 'i', 's'];
    assert(kw@ =~= seq!['t', 'h', 'i', 's']);
    if segment_is(chars, from, to, &kw) {
        return Some(TokenType::THIS);
    }
    let kw = ['t', 'r', 'u', 'e'];
    assert(kw@ =~= seq!['t', 'r', 'u', 'e']);
    if segment_is(chars, from, to, &kw) {
        return Some(TokenType::TRUE);
    }
    let kw = ['v', 'a', 'r'];
    assert(kw@ =~= seq!['v', 'a', 'r']);
    if segment_is(chars, from, to, &kw) {
        return Some(TokenType::VAR);
    }
    let kw = ['w', 'h', 'i', 'l', 'e'];
    assert(kw@ =~= seq!['w', 'h', 'i', 'l', 'e']);
    if segment_is(chars, from, to, &kw) {
        return Some(TokenType::WHILE);
    }
    let kw = ['b', 'r', 'e', 'a', 'k'];
    assert(kw@ =~= seq!['b', 'r', 'e', 'a', 'k']);
    if segment_is(chars, from, to, &kw) {
        return Some(TokenType::BREAK);
    }
    let kw = ['c', 'o', 'n', 't', 'i', 'n', 'u', 'e'];
    assert(kw@ =~= seq!['c', 'o', 'n', 't', 'i', 'n', 'u', 'e']);
    if segment_is(chars, from, to, &kw) {
        return Some(TokenType::CONTINUE);
    }
    None
}


fn single_char_token_exec(c: char) -> (r: Option<TokenType>)
    ensures
        r == single_char_token(c),
{
    if c == '(' {
        Some(TokenType::LeftParen)
    } else if c == ')' {
        Some(TokenType::RightParen)
    } else if c == '{' {
        Some(TokenType::LeftBrace)
    } else if c == '}' {
        Some(TokenType::RightBrace)
    } else if c == ',' {
        Some(TokenType::COMMA)
    } else if c == '.' {
        Some(TokenType::DOT)
    } else if c == '-' {
        Some(TokenType::MINUS)
    } else if c == '+' {
        Some(TokenType::PLUS)
    } else if c == ';' {
        Some(TokenType::SEMICOLON)
    } else if c == '/' {
        Some(TokenType::SLASH)
    } else if c == '*' {
        Some(TokenType::STAR)
    } else {
        None
    }
}

fn operator_pair_exec(c: char) -> (r: Option<(TokenType, TokenType)>)
    ensures
        r == operator_pair(c),
{
    if c == '!' {
        Some((TokenType::BANG, TokenType::BangEqual))
    } else if c == '=' {
        Some((TokenType::EQUAL, TokenType::EqualEqual))
    } else if c == '>' {
        Some((TokenType::GREATER, TokenType::GreaterEqual))
    } else if c == '<' {
        Some((TokenType::LESS, TokenType::LessEqual))
    } else {
        None
    }
}

fn scan_token_exec(line: &Vec<char>, i: usize) -> (r: (TokenType, usize))
    requires
        i < line@.len(),
    ensures
        r.0 == scan_token(line@, i as int).0,
        r.1 == scan_token(line@, i as int).1,
{
    proof {
        lemma_scan_token_advances(line@, i as int);
        lemma_ends(line@, i as int + 1);
    }
    let n = line.len();
    let c = line[i];
    if is_alpha_exec(c) {
        let e = ident_end_exec(line, i + 1);
        match keyword_exec(line, i, e) {
            Some(k) => (k, e),
            None => (TokenType::IDENTIFIER, e),
        }
    } else if is_digit_exec(c) {
        (TokenType::NUMBER, digits_end_exec(line, i + 1))
    } else if c == '"' {
        let q = quote_at_exec(line, i + 1);
        if q < line.len() {
            (TokenType::STRING, q + 1)
        } else {
            (TokenType::Error, line.len())
        }
    } else if c == '/' && i + 1 < line.len() && line[i + 1] == '/' {
        (TokenType::COMMENTS, comment_end_exec(line, i + 2))
    } else if let Some((one, two)) = operator_pair_exec(c) {
        if i + 1 < line.len() && line[i + 1] == '=' {
            (two, i + 2)
        } else {
            (one, i + 1)
        }
    } else if let Some(t) = single_char_token_exec(c) {
        (t, i + 1)
    } else {
        (TokenType::Error, i + 1)
    }
}

fn make_token_exec(t: TokenType, line: &Vec<char>, i: usize, e: usize, line_no: u32) -> (r: Token)
    requires
        i < e <= line@.len(),
        t == scan_token(line@, i as int).0,
        e == scan_token(line@, i as int).1,
    ensures
        r@ == make_token(t, line@.subrange(i as int, e as int), line_no),
{
    let ghost lex = line@.subrange(i as int, e as int);
    let literal = match t {
        TokenType::TRUE => Some(Literal::BOOL(true)),
        TokenType::FALSE => Some(Literal::BOOL(false)),
        TokenType::STRING => {
            proof {
                lemma_ends(line@, i as int + 1);
            }
            let body = string_of(line, i + 1, e - 1);
            assert(body@ =~= lex.subrange(1, lex.len() - 1));
            Some(Literal::STRING(body))
        },
        TokenType::NUMBER => Some(Literal::NUM(string_of(line, i, e))),
        _ => None,
    };
    let r = Token::new(t, line_no, literal, string_of(line, i, e));
    assert(r@.literal == literal_of(t, lex));
    r
}

/// Appends to `out` the tokens of `line`, numbered `line_no`.
fn scan_line(line: &Vec<char>, line_no: u32, out: &mut Vec<Token>)
    ensures
        token_views(final(out)@) == token_views(old(out)@) + scan_from(line@, 0, line_no),
{
    let mut i: usize = 0;
    while i < line.len()
        invariant
            i <= line@.len(),
            token_views(old(out)@) + scan_from(line@, 0, line_no) == token_views(out@) + scan_from(
                line@,
                i as int,
                line_no,
            ),
        decreases line@.len() - i,
    {
        if is_blank_exec(line[i]) {
            i += 1;
        } else {
            let (t, e) = scan_token_exec(line, i);
            proof {
                lemma_scan_token_advances(line@, i as int);
            }
            if t != TokenType::COMMENTS {
                let tok = make_token_exec(t, line, i, e, line_no);
                let ghost before = out@;
                out.push(tok);
                assert(token_views(out@) =~= token_views(before) + seq![tok@]);
            }
            i = e;
        }
    }
    assert(scan_from(line@, i as int, line_no) =~= Seq::<TokenV>::empty());
    assert(token_views(out@) + Seq::<TokenV>::empty() =~= token_views(out@));
}

fn newline_at_exec(s: &Vec<char>, i: usize) -> (r: usize)
    requires
        i <= s@.len(),
    ensures
        r == newline_at(s@, i as int),
{
    let mut k = i;
    while k < s.len() && s[k] != '\n'
        invariant
            i <= k <= s@.len(),
            newline_at(s@, i as int) == newline_at(s@, k as int),
        decreases s@.len() - k,
    {
        k += 1;
    }
    k
}

fn copy_range(s: &Vec<char>, from: usize, to: usize) -> (r: Vec<char>)
    requires
        from <= to <= s@.len(),
    ensures
        r@ == s@.subrange(from as int, to as int),
{
    let mut r: Vec<char> = Vec::new();
    let mut k = from;
    while k < to
        invariant
            from <= k <= to <= s@.len(),
            r@ == s@.subrange(from as int, k as int),
        decreases to - k,
    {
        r.push(s[k]);
        k += 1;
        assert(r@ =~= s@.subrange(from as int, k as int));
    }
    r
}

/// The scanner of Lox: it turns source text into tokens, line by line,
/// counting lines from where it stands.
pub struct Lexer {
    curr: u32,
}

impl View for Lexer {
    type V = u32;

    /// The number of the line that the scanner reads next.
    closed spec fn view(&self) -> u32 {
        self.curr
    }
}

impl Lexer {
    /// A scanner that starts at line 1.
    pub fn new() -> (r: Self)
        ensures
            r@ == 1,
    {
        Lexer { curr: 1 }
    }

    /// The number of the line the scanner stands on.
    pub fn current_line(&self) -> (r: u32)
        ensures
            r == self@,
    {
        self.curr
    }

    /// The tokens of a script: those of each of its lines in turn (lines
    /// are separated by `'\n'`), then `EOF`. The line numbers run on from
    /// where the scanner stands, and it stands after the last line when done.
    pub fn parse(&mut self, script: &String) -> (r: Result<Vec<Token>, LoxError>)
        requires
            old(self)@ + line_count(script@, 0) <= u32::MAX,
        ensures
            r is Ok,
            token_views(r->Ok_0@) == scan_script(script@, old(self)@ as int),
            final(self)@ == old(self)@ + line_count(script@, 0),
    {
        let chars = chars_of(script);
        let ghost s = chars@;
        let ghost c0 = self.curr;
        let mut tokens: Vec<Token> = Vec::new();
        let mut start: usize = 0;
        loop
            invariant_except_break
                self.curr + line_count(s, start as int) == c0 + line_count(s, 0),
                token_views(tokens@) + scan_lines(s, start as int, self.curr as int) == scan_lines(
                    s,
                    0,
                    c0 as int,
                ),
            invariant
                start <= s.len(),
                chars@ == s,
                s == script@,
                c0 + line_count(s, 0) <= u32::MAX,
            ensures
                self.curr == c0 + line_count(s, 0),
                token_views(tokens@) == scan_lines(s, 0, c0 as int),
            decreases s.len() - start,
        {
            let nl = newline_at_exec(&chars, start);
            proof {
                lemma_newline_at(s, start as int);
            }
            let line = copy_range(&chars, start, nl);
            let ghost before = token_views(tokens@);
            scan_line(&line, self.curr, &mut tokens);
            if nl < chars.len() {
                assert(token_views(tokens@) + scan_lines(s, nl + 1, self.curr + 1) =~= before
                    + scan_lines(s, start as int, self.curr as int));
                self.curr = self.curr + 1;
                start = nl + 1;
            } else {
                assert(token_views(tokens@) =~= before + scan_lines(s, start as int, self.curr as int));
                self.curr = self.curr + 1;
                break ;
            }
        }
        let ghost before = token_views(tokens@);
        let eof = Token::new(TokenType::EOF, self.curr, None, String::new());
        tokens.push(eof);
        assert(token_views(tokens@) =~= before + seq![eof@]);
        Ok(tokens)
    }

    /// The tokens of one line, numbered with the line where the scanner stands.
    pub fn read_line(&mut self, line: &String) -> (r: Result<Vec<Token>, LoxError>)
        ensures
            r is Ok,
            token_views(r->Ok_0@) == scan_from(line@, 0, old(self)@),
            final(self)@ == old(self)@,
    {
        let chars = chars_of(line);
        let mut tokens: Vec<Token> = Vec::new();
        scan_line(&chars, self.curr, &mut tokens);
        assert(token_views(tokens@) =~= scan_from(line@, 0, self.curr));
        Ok(tokens)
    }
}

// ---------------------------------------------------------------------------
// What the scanner's output always satisfies.
// ---------------------------------------------------------------------------

/// A token that the scanner gives for the text of a line: neither a comment
/// nor the end, and a number or string carries its literal.
pub open spec fn scanned_ok(t: TokenV) -> bool {
    &&& t.token_type != TokenType::COMMENTS
    &&& t.token_type != TokenType::EOF
    &&& (t.token_type == TokenType::NUMBER || t.token_type == TokenType::STRING) ==> t.literal is Some
}

proof fn lemma_scan_from_ok(line: Seq<char>, i: int, line_no: u32)
    ensures
        forall|k: int| 0 <= k < scan_from(line, i, line_no).len() ==> #[trigger] scanned_ok(scan_from(line, i, line_no)[k]),
    decreases line.len() - i,
{
    if 0 <= i < line.len() {
        if is_blank(line[i]) {
            lemma_scan_from_ok(line, i + 1, line_no);
        } else {
            let (t, e) = scan_token(line, i);
            lemma_scan_token_advances(line, i);
            lemma_scan_from_ok(line, e, line_no);
            if t != TokenType::COMMENTS {
                let tok = make_token(t, line.subrange(i, e), line_no);
                let rest = scan_from(line, e, line_no);
                assert(scanned_ok(tok));
                assert forall|k: int| 0 <= k < (seq![tok] + rest).len() implies #[trigger] scanned_ok((seq![tok] + rest)[k]) by {
                    if k > 0 {
                        assert((seq![tok] + rest)[k] == rest[k - 1]);
                    }
                }
            }
        }
    }
}

proof fn lemma_scan_lines_ok(s: Seq<char>, i: int, line_no: int)
    ensures
        forall|k: int| 0 <= k < scan_lines(s, i, line_no).len() ==> #[trigger] scanned_ok(scan_lines(s, i, line_no)[k]),
    decreases s.len() - i,
{
    if 0 <= i <= s.len() {
        let nl = newline_at(s, i);
        lemma_newline_at(s, i);
        let here = scan_from(s.subrange(i, nl), 0, line_no as u32);
        lemma_scan_from_ok(s.subrange(i, nl), 0, line_no as u32);
        if nl < s.len() {
            let rest = scan_lines(s, nl + 1, line_no + 1);
            lemma_scan_lines_ok(s, nl + 1, line_no + 1);
            assert forall|k: int| 0 <= k < (here + rest).len() implies #[trigger] scanned_ok((here + rest)[k]) by {
                if k >= here.len() {
                    assert((here + rest)[k] == rest[k - here.len()]);
                } else {
                    assert((here + rest)[k] == here[k]);
                }
            }
        }
    }
}

/// Whatever the scanner gives for a script, the parser takes: the tokens end
/// with the one `EOF`, no comment is among them, and every number and string
/// carries its literal.
pub proof fn law_scanned_script_is_parseable(v: Seq<Token>, s: Seq<char>, first_line: int)
    requires
        token_views(v) == scan_script(s, first_line),
    ensures
        crate::parser::grammar::wf_tokens(v),
        forall|i: int| 0 <= i < v.len() - 1 ==> #[trigger] v[i].token_type != TokenType::EOF
            && v[i].token_type != TokenType::COMMENTS,
{
    let body = scan_lines(s, 0, first_line);
    lemma_scan_lines_ok(s, 0, first_line);
    let all = scan_script(s, first_line);
    assert(v.len() == all.len());
    assert forall|i: int| 0 <= i < v.len() implies #[trigger] v[i]@ == all[i] by {
        assert(token_views(v)[i] == v[i]@);
    }
    assert forall|i: int| 0 <= i < v.len() - 1 implies scanned_ok(#[trigger] all[i]) by {
        assert(all[i] == body[i]);
    }
    assert(v.last()@ == all[all.len() - 1]);
    assert forall|i: int|
        0 <= i < v.len() && (#[trigger] v[i].token_type == TokenType::NUMBER || v[i].token_type
            == TokenType::STRING) implies v[i].literal is Some by {
        assert(v[i]@ == all[i]);
        if i < v.len() - 1 {
            assert(scanned_ok(all[i]));
        }
    }
    assert forall|i: int| 0 <= i < v.len() - 1 implies #[trigger] v[i].token_type != TokenType::EOF
        && v[i].token_type != TokenType::COMMENTS by {
        assert(v[i]@ == all[i]);
        assert(scanned_ok(all[i]));
    }
}

/// A script of one line scans as that line does, followed by `EOF` on the
/// next line.
pub proof fn law_one_line_script(s: Seq<char>, line_no: u32)
    requires
        forall|k: int| 0 <= k < s.len() ==> s[k] != '\n',
        line_no < u32::MAX,
    ensures
        scan_script(s, line_no as int) == scan_from(s, 0, line_no) + seq![
            TokenV {
                token_type: TokenType::EOF,
                line_no: (line_no + 1) as u32,
                literal: None,
                lexeme: Seq::empty(),
                scope: None,
            },
        ],
{
    lemma_newline_at(s, 0);
    assert(s.subrange(0, s.len() as int) =~= s);
}

proof fn lemma_scan_from_lines(line: Seq<char>, i: int, line_no: u32)
    ensures
        forall|k: int| 0 <= k < scan_from(line, i, line_no).len() ==> #[trigger] scan_from(line, i, line_no)[k].line_no == line_no,
    decreases line.len() - i,
{
    if 0 <= i < line.len() {
        if is_blank(line[i]) {
            lemma_scan_from_lines(line, i + 1, line_no);
        } else {
            let (t, e) = scan_token(line, i);
            lemma_scan_token_advances(line, i);
            lemma_scan_from_lines(line, e, line_no);
            if t != TokenType::COMMENTS {
                let tok = make_token(t, line.subrange(i, e), line_no);
                let rest = scan_from(line, e, line_no);
                assert forall|k: int| 0 <= k < (seq![tok] + rest).len() implies #[trigger] (seq![tok] + rest)[k].line_no == line_no by {
                    if k > 0 {
                        assert((seq![tok] + rest)[k] == rest[k - 1]);
                    }
                }
            }
        }
    }
}

proof fn lemma_scan_lines_order(s: Seq<char>, i: int, line_no: int)
    requires
        0 <= i <= s.len(),
        0 <= line_no,
        line_no + line_count(s, i) <= u32::MAX + 1,
    ensures
        forall|k: int| 0 <= k < scan_lines(s, i, line_no).len() ==> line_no <= #[trigger] scan_lines(s, i, line_no)[k].line_no
            < line_no + line_count(s, i),
        forall|j: int, k: int| 0 <= j < k < scan_lines(s, i, line_no).len() ==> #[trigger] scan_lines(s, i, line_no)[j].line_no
            <= #[trigger] scan_lines(s, i, line_no)[k].line_no,
    decreases s.len() - i,
{
    let nl = newline_at(s, i);
    lemma_newline_at(s, i);
    let here = scan_from(s.subrange(i, nl), 0, line_no as u32);
    lemma_scan_from_lines(s.subrange(i, nl), 0, line_no as u32);
    if nl < s.len() {
        let rest = scan_lines(s, nl + 1, line_no + 1);
        lemma_scan_lines_order(s, nl + 1, line_no + 1);
        let all = here + rest;
        assert forall|k: int| 0 <= k < all.len() implies line_no <= #[trigger] all[k].line_no < line_no + line_count(s, i) by {
            if k >= here.len() {
                assert(all[k] == rest[k - here.len()]);
            } else {
                assert(all[k] == here[k]);
            }
        }
        assert forall|j: int, k: int| 0 <= j < k < all.len() implies #[trigger] all[j].line_no <= #[trigger] all[k].line_no by {
            if k >= here.len() {
                assert(all[k] == rest[k - here.len()]);
                if j >= here.len() {
                    assert(all[j] == rest[j - here.len()]);
                } else {
                    assert(all[j] == here[j]);
                }
            } else {
                assert(all[k] == here[k]);
                assert(all[j] == here[j]);
            }
        }
    }
}

/// The tokens of a script come in the order of their lines, every one on a
/// line of the script, and `EOF` on the line after the last.
pub proof fn law_tokens_in_line_order(s: Seq<char>, first_line: int)
    requires
        0 <= first_line,
        first_line + line_count(s, 0) <= u32::MAX,
    ensures
        ({
            let all = scan_script(s, first_line);
            &&& all.last().line_no == first_line + line_count(s, 0)
            &&& forall|k: int| 0 <= k < all.len() - 1 ==> first_line <= #[trigger] all[k].line_no < first_line + line_count(s, 0)
            &&& forall|j: int, k: int| 0 <= j < k < all.len() ==> #[trigger] all[j].line_no <= #[trigger] all[k].line_no
        }),
{
    let body = scan_lines(s, 0, first_line);
    lemma_scan_lines_order(s, 0, first_line);
    let all = scan_script(s, first_line);
    assert forall|k: int| 0 <= k < all.len() - 1 implies first_line <= #[trigger] all[k].line_no < first_line + line_count(s, 0) by {
        assert(all[k] == body[k]);
    }
    assert forall|j: int, k: int| 0 <= j < k < all.len() implies #[trigger] all[j].line_no <= #[trigger] all[k].line_no by {
        assert(all[j] == body[j]);
        if k < all.len() - 1 {
            assert(all[k] == body[k]);
        }
    }
}


// ---------------------------------------------------------------------------
// Words: identifiers and reserved words.
// ---------------------------------------------------------------------------

proof fn lemma_ident_end_run(line: Seq<char>, i: int)
    requires
        0 <= i <= line.len(),
    ensures
        i <= ident_end(line, i) <= line.len(),
        forall|k: int| i <= k < ident_end(line, i) ==> is_ident_char(#[trigger] line[k]),
        ident_end(line, i) < line.len() ==> !is_ident_char(line[ident_end(line, i)]),
    decreases line.len() - i,
{
    if i < line.len() && is_ident_char(line[i]) {
        lemma_ident_end_run(line, i + 1);
    }
}

/// A word starts at a letter and runs over every letter, digit and
/// underscore after it: it stops only at the end of the line or at a
/// character that is none of these.
pub proof fn law_word_extent(line: Seq<char>, i: int)
    requires
        0 <= i < line.len(),
        ('a' <= line[i] && line[i] <= 'z') || ('A' <= line[i] && line[i] <= 'Z'),
    ensures
        i < scan_token(line, i).1 <= line.len(),
        forall|k: int|
            i < k < scan_token(line, i).1 ==> ('a' <= #[trigger] line[k] && line[k] <= 'z') || ('A'
                <= line[k] && line[k] <= 'Z') || ('0' <= line[k] && line[k] <= '9') || line[k] == '_',
        scan_token(line, i).1 < line.len() ==> ({
            let c = line[scan_token(line, i).1];
            !(('a' <= c && c <= 'z') || ('A' <= c && c <= 'Z') || ('0' <= c && c <= '9') || c == '_')
        }),
{
    lemma_ident_end_run(line, i + 1);
}


/// Each reserved word scans as its own keyword and as no other, and a word
/// that is not reserved scans as an identifier.
pub proof fn law_reserved_words(line: Seq<char>, i: int)
    requires
        0 <= i < line.len(),
        ('a' <= line[i] && line[i] <= 'z') || ('A' <= line[i] && line[i] <= 'Z'),
    ensures
        ({
            let t = scan_token(line, i).0;
            let w = line.subrange(i, scan_token(line, i).1);
            &&& (w == seq!['a', 'n', 'd'] <==> t == TokenType::AND)
            &&& (w == seq!['c', 'l', 'a', 's', 's'] <==> t == TokenType::CLASS)
            &&& (w == seq!['e', 'l', 's', 'e'] <==> t == TokenType::ELSE)
            &&& (w == seq!['f', 'a', 'l', 's', 'e'] <==> t == TokenType::FALSE)
            &&& (w == seq!['f', 'u', 'n'] <==> t == TokenType::FUN)
            &&& (w == seq!['f', 'o', 'r'] <==> t == TokenType::FOR)
            &&& (w == seq!['i', 'f'] <==> t == TokenType::IF)
            &&& (w == seq!['n', 'i', 'l'] <==> t == TokenType::NIL)
            &&& (w == seq!['o', 'r'] <==> t == TokenType::OR)
            &&& (w == seq!['p', 'r', 'i', 'n', 't'] <==> t == TokenType::PRINT)
            &&& (w == seq!['r', 'e', 't', 'u', 'r', 'n'] <==> t == TokenType::RETURN)
            &&& (w == seq!['s', 'u', 'p', 'e', 'r'] <==> t == TokenType::SUPER)
            &&& (w == seq!['t', 'h', 'i', 's'] <==> t == TokenType::THIS)
            &&& (w == seq!['t', 'r', 'u', 'e'] <==> t == TokenType::TRUE)
            &&& (w == seq!['v', 'a', 'r'] <==> t == TokenType::VAR)
            &&& (w == seq!['w', 'h', 'i', 'l', 'e'] <==> t == TokenType::WHILE)
            &&& (w == seq!['b', 'r', 'e', 'a', 'k'] <==> t == TokenType::BREAK)
            &&& (w == seq!['c', 'o', 'n', 't', 'i', 'n', 'u', 'e'] <==> t == TokenType::CONTINUE)
            &&& (t == TokenType::IDENTIFIER <==> (w != seq!['a', 'n', 'd'] && w != seq!['c', 'l', 'a', 's', 's'] && w != seq!['e', 'l', 's', 'e'] && w != seq!['f', 'a', 'l', 's', 'e'] && w != seq!['f', 'u', 'n'] && w != seq!['f', 'o', 'r'] && w != seq!['i', 'f'] && w != seq!['n', 'i', 'l'] && w != seq!['o', 'r'] && w != seq!['p', 'r', 'i', 'n', 't'] && w != seq!['r', 'e', 't', 'u', 'r', 'n'] && w != seq!['s', 'u', 'p', 'e', 'r'] && w != seq!['t', 'h', 'i', 's'] && w != seq!['t', 'r', 'u', 'e'] && w != seq!['v', 'a', 'r'] && w != seq!['w', 'h', 'i', 'l', 'e'] && w != seq!['b', 'r', 'e', 'a', 'k'] && w != seq!['c', 'o', 'n', 't', 'i', 'n', 'u', 'e']))
        }),
{
    lemma_ident_end_run(line, i + 1);
}


/// A token whose text starts with a letter is a word: a reserved word has
/// its own kind, and any other word is an identifier.
spec fn word_kind_rule(tok: TokenV) -> bool {
    tok.lexeme.len() > 0 && (('a' <= tok.lexeme[0] && tok.lexeme[0] <= 'z') || ('A' <= tok.lexeme[0]
        && tok.lexeme[0] <= 'Z')) ==> {
        &&& (tok.lexeme == seq!['a', 'n', 'd'] <==> tok.token_type == TokenType::AND)
        &&& (tok.lexeme == seq!['c', 'l', 'a', 's', 's'] <==> tok.token_type == TokenType::CLASS)
        &&& (tok.lexeme == seq!['e', 'l', 's', 'e'] <==> tok.token_type == TokenType::ELSE)
        &&& (tok.lexeme == seq!['f', 'a', 'l', 's', 'e'] <==> tok.token_type == TokenType::FALSE)
        &&& (tok.lexeme == seq!['f', 'u', 'n'] <==> tok.token_type == TokenType::FUN)
        &&& (tok.lexeme == seq!['f', 'o', 'r'] <==> tok.token_type == TokenType::FOR)
        &&& (tok.lexeme == seq!['i', 'f'] <==> tok.token_type == TokenType::IF)
        &&& (tok.lexeme == seq!['n', 'i', 'l'] <==> tok.token_type == TokenType::NIL)
        &&& (tok.lexeme == seq!['o', 'r'] <==> tok.token_type == TokenType::OR)
        &&& (tok.lexeme == seq!['p', 'r', 'i', 'n', 't'] <==> tok.token_type == TokenType::PRINT)
        &&& (tok.lexeme == seq!['r', 'e', 't', 'u', 'r', 'n'] <==> tok.token_type == TokenType::RETURN)
        &&& (tok.lexeme == seq!['s', 'u', 'p', 'e', 'r'] <==> tok.token_type == TokenType::SUPER)
        &&& (tok.lexeme == seq!['t', 'h', 'i', 's'] <==> tok.token_type == TokenType::THIS)
        &&& (tok.lexeme == seq!['t', 'r', 'u', 'e'] <==> tok.token_type == TokenType::TRUE)
        &&& (tok.lexeme == seq!['v', 'a', 'r'] <==> tok.token_type == TokenType::VAR)
        &&& (tok.lexeme == seq!['w', 'h', 'i', 'l', 'e'] <==> tok.token_type == TokenType::WHILE)
        &&& (tok.lexeme == seq!['b', 'r', 'e', 'a', 'k'] <==> tok.token_type == TokenType::BREAK)
        &&& (tok.lexeme == seq!['c', 'o', 'n', 't', 'i', 'n', 'u', 'e'] <==> tok.token_type == TokenType::CONTINUE)
        &&& (tok.token_type == TokenType::IDENTIFIER <==> (tok.lexeme != seq!['a', 'n', 'd'] && tok.lexeme != seq!['c', 'l', 'a', 's', 's'] && tok.lexeme != seq!['e', 'l', 's', 'e'] && tok.lexeme != seq!['f', 'a', 'l', 's', 'e'] && tok.lexeme != seq!['f', 'u', 'n'] && tok.lexeme != seq!['f', 'o', 'r'] && tok.lexeme != seq!['i', 'f'] && tok.lexeme != seq!['n', 'i', 'l'] && tok.lexeme != seq!['o', 'r'] && tok.lexeme != seq!['p', 'r', 'i', 'n', 't'] && tok.lexeme != seq!['r', 'e', 't', 'u', 'r', 'n'] && tok.lexeme != seq!['s', 'u', 'p', 'e', 'r'] && tok.lexeme != seq!['t', 'h', 'i', 's'] && tok.lexeme != seq!['t', 'r', 'u', 'e'] && tok.lexeme != seq!['v', 'a', 'r'] && tok.lexeme != seq!['w', 'h', 'i', 'l', 'e'] && tok.lexeme != seq!['b', 'r', 'e', 'a', 'k'] && tok.lexeme != seq!['c', 'o', 'n', 't', 'i', 'n', 'u', 'e']))
    }
}

proof fn lemma_scan_from_words(line: Seq<char>, i: int, line_no: u32)
    ensures
        forall|k: int| 0 <= k < scan_from(line, i, line_no).len() ==> #[trigger] word_kind_rule(scan_from(line, i, line_no)[k]),
    decreases line.len() - i,
{
    if 0 <= i < line.len() {
        if is_blank(line[i]) {
            lemma_scan_from_words(line, i + 1, line_no);
        } else {
            let (t, e) = scan_token(line, i);
            lemma_scan_token_advances(line, i);
            lemma_scan_from_words(line, e, line_no);
            if t != TokenType::COMMENTS {
                let tok = make_token(t, line.subrange(i, e), line_no);
                let rest = scan_from(line, e, line_no);
                assert(tok.lexeme[0] == line[i]);
                if is_alpha(line[i]) {
                    law_reserved_words(line, i);
                }
                assert(word_kind_rule(tok));
                assert forall|k: int| 0 <= k < (seq![tok] + rest).len() implies #[trigger] word_kind_rule((seq![tok] + rest)[k]) by {
                    if k > 0 {
                        assert((seq![tok] + rest)[k] == rest[k - 1]);
                    }
                }
            }
        }
    }
}

/// In the tokens of a line, a token whose text starts with a letter is a
/// word: the text of a reserved word gives its own keyword kind and no other
/// text gives that kind, and any other word gives an identifier.
pub proof fn law_line_words(line: Seq<char>, line_no: u32, k: int)
    requires
        0 <= k < scan_from(line, 0, line_no).len(),
        scan_from(line, 0, line_no)[k].lexeme.len() > 0,
        ({
            let c = scan_from(line, 0, line_no)[k].lexeme[0];
            ('a' <= c && c <= 'z') || ('A' <= c && c <= 'Z')
        }),
    ensures
        ({
            let w = scan_from(line, 0, line_no)[k].lexeme;
            let t = scan_from(line, 0, line_no)[k].token_type;
            &&& (w == seq!['a', 'n', 'd'] <==> t == TokenType::AND)
            &&& (w == seq!['c', 'l', 'a', 's', 's'] <==> t == TokenType::CLASS)
            &&& (w == seq!['e', 'l', 's', 'e'] <==> t == TokenType::ELSE)
            &&& (w == seq!['f', 'a', 'l', 's', 'e'] <==> t == TokenType::FALSE)
            &&& (w == seq!['f', 'u', 'n'] <==> t == TokenType::FUN)
            &&& (w == seq!['f', 'o', 'r'] <==> t == TokenType::FOR)
            &&& (w == seq!['i', 'f'] <==> t == TokenType::IF)
            &&& (w == seq!['n', 'i', 'l'] <==> t == TokenType::NIL)
            &&& (w == seq!['o', 'r'] <==> t == TokenType::OR)
            &&& (w == seq!['p', 'r', 'i', 'n', 't'] <==> t == TokenType::PRINT)
            &&& (w == seq!['r', 'e', 't', 'u', 'r', 'n'] <==> t == TokenType::RETURN)
            &&& (w == seq!['s', 'u', 'p', 'e', 'r'] <==> t == TokenType::SUPER)
            &&& (w == seq!['t', 'h', 'i', 's'] <==> t == TokenType::THIS)
            &&& (w == seq!['t', 'r', 'u', 'e'] <==> t == TokenType::TRUE)
            &&& (w == seq!['v', 'a', 'r'] <==> t == TokenType::VAR)
            &&& (w == seq!['w', 'h', 'i', 'l', 'e'] <==> t == TokenType::WHILE)
            &&& (w == seq!['b', 'r', 'e', 'a', 'k'] <==> t == TokenType::BREAK)
            &&& (w == seq!['c', 'o', 'n', 't', 'i', 'n', 'u', 'e'] <==> t == TokenType::CONTINUE)
            &&& (t == TokenType::IDENTIFIER <==> (w != seq!['a', 'n', 'd'] && w != seq!['c', 'l', 'a', 's', 's'] && w != seq!['e', 'l', 's', 'e'] && w != seq!['f', 'a', 'l', 's', 'e'] && w != seq!['f', 'u', 'n'] && w != seq!['f', 'o', 'r'] && w != seq!['i', 'f'] && w != seq!['n', 'i', 'l'] && w != seq!['o', 'r'] && w != seq!['p', 'r', 'i', 'n', 't'] && w != seq!['r', 'e', 't', 'u', 'r', 'n'] && w != seq!['s', 'u', 'p', 'e', 'r'] && w != seq!['t', 'h', 'i', 's'] && w != seq!['t', 'r', 'u', 'e'] && w != seq!['v', 'a', 'r'] && w != seq!['w', 'h', 'i', 'l', 'e'] && w != seq!['b', 'r', 'e', 'a', 'k'] && w != seq!['c', 'o', 'n', 't', 'i', 'n', 'u', 'e']))
        }),
{
    lemma_scan_from_words(line, 0, line_no);
    assert(word_kind_rule(scan_from(line, 0, line_no)[k]));
}

proof fn lemma_digits_end_run(line: Seq<char>, i: int)
    requires
        0 <= i <= line.len(),
    ensures
        i <= digits_end(line, i) <= line.len(),
        forall|k: int| i <= k < digits_end(line, i) ==> is_digit(#[trigger] line[k]),
        digits_end(line, i) < line.len() ==> !is_digit(line[digits_end(line, i)]),
    decreases line.len() - i,
{
    if i < line.len() && is_digit(line[i]) {
        lemma_digits_end_run(line, i + 1);
    }
}

proof fn lemma_quote_at_run(line: Seq<char>, i: int)
    requires
        0 <= i <= line.len(),
    ensures
        i <= quote_at(line, i) <= line.len(),
        forall|k: int| i <= k < quote_at(line, i) ==> #[trigger] line[k] != '"',
        quote_at(line, i) < line.len() ==> line[quote_at(line, i)] == '"',
    decreases line.len() - i,
{
    if i < line.len() && line[i] != '"' {
        lemma_quote_at_run(line, i + 1);
    }
}

/// A number is the longest run of digits that starts at a digit.
pub proof fn law_number_extent(line: Seq<char>, i: int)
    requires
        0 <= i < line.len(),
        '0' <= line[i] && line[i] <= '9',
    ensures
        scan_token(line, i).0 == TokenType::NUMBER,
        i < scan_token(line, i).1 <= line.len(),
        forall|k: int| i <= k < scan_token(line, i).1 ==> '0' <= #[trigger] line[k] && line[k] <= '9',
        scan_token(line, i).1 < line.len() ==> !('0' <= line[scan_token(line, i).1] && line[scan_token(
            line,
            i,
        ).1] <= '9'),
{
    lemma_digits_end_run(line, i + 1);
}

/// A string runs from its opening double quote to the next one, whatever
/// lies between; where the line holds no closing quote, what is left of the
/// line is an error token.
pub proof fn law_string_extent(line: Seq<char>, i: int)
    requires
        0 <= i < line.len(),
        line[i] == '"',
    ensures
        ({
            let (t, e) = scan_token(line, i);
            ||| (t == TokenType::STRING && i + 2 <= e <= line.len() && line[e - 1] == '"' && forall|k: int|
                i < k < e - 1 ==> #[trigger] line[k] != '"')
            ||| (t == TokenType::Error && e == line.len() && forall|k: int| i < k < line.len() ==> #[trigger] line[k]
                != '"')
        }),
{
    lemma_quote_at_run(line, i + 1);
}

/// `!`, `=`, `<` and `>` followed by `=` make one token of two characters;
/// alone they make one of one character.
pub proof fn law_operators(line: Seq<char>, i: int)
    requires
        0 <= i < line.len(),
    ensures
        ({
            let followed = i + 1 < line.len() && line[i + 1] == '=';
            &&& line[i] == '!' ==> scan_token(line, i) == (if followed {
                (TokenType::BangEqual, i + 2)
            } else {
                (TokenType::BANG, i + 1)
            })
            &&& line[i] == '=' ==> scan_token(line, i) == (if followed {
                (TokenType::EqualEqual, i + 2)
            } else {
                (TokenType::EQUAL, i + 1)
            })
            &&& line[i] == '<' ==> scan_token(line, i) == (if followed {
                (TokenType::LessEqual, i + 2)
            } else {
                (TokenType::LESS, i + 1)
            })
            &&& line[i] == '>' ==> scan_token(line, i) == (if followed {
                (TokenType::GreaterEqual, i + 2)
            } else {
                (TokenType::GREATER, i + 1)
            })
        }),
{
}

} // verus!
