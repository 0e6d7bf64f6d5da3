//! The lexer: source text to tokens.
//!
//! The rules are those of a longest-match lexer: at each position the
//! longest token wins, a keyword wins over an identifier of the same text,
//! and blanks (space, tab, carriage return) are skipped. A character that
//! starts no token is an error one character long; a string literal without
//! its closing quote is an error that runs to the end of the text; an integer
//! literal that does not fit in `i64` is an error over its digits.
//!
//! Positions in the model are character indices; spans are byte offsets in
//! the UTF-8 text.

use vstd::prelude::*;
use vstd::string::*;
use vstd::utf8::*;

use crate::host::Host;
use crate::layout::{
    apply_layout, count_of, layout, layout_balances_indents, layout_nests_levels,
    layout_resolves_newlines, nested,
};
use crate::text::{str_eq, string_of};
use crate::token::{Span, Token};

verus! {

// ══ The model ════════════════════════════════════════════════════════════════

/// What the lexer makes of one lexeme, before payloads are built.
pub enum LexTok {
    Int(i64),
    /// A float literal, by its text; the host gives its value.
    Float(Seq<char>),
    Str(Seq<char>),
    Ident(Seq<char>),
    TypeIdent(Seq<char>),
    /// A token without payload.
    Plain(Token),
}

/// Whether a token is the one the model describes.
pub open spec fn tok_agrees(t: Token, m: LexTok) -> bool {
    match m {
        LexTok::Int(n) => t == Token::Int(n),
        LexTok::Float(_) => t is Float,
        LexTok::Str(s) => t matches Token::Str(x) && x@ == s,
        LexTok::Ident(s) => t matches Token::Ident(x) && x@ == s,
        LexTok::TypeIdent(s) => t matches Token::TypeIdent(x) && x@ == s,
        LexTok::Plain(k) => t == k,
    }
}

pub open spec fn is_space(c: char) -> bool {
    c == ' ' || c == '\t' || c == '\r'
}

pub open spec fn is_digit(c: char) -> bool {
    48 <= (c as u32) <= 57
}

pub open spec fn is_lower(c: char) -> bool {
    97 <= (c as u32) <= 122
}

pub open spec fn is_upper(c: char) -> bool {
    65 <= (c as u32) <= 90
}

/// A character that may continue an identifier.
pub open spec fn is_word(c: char) -> bool {
    is_digit(c) || is_lower(c) || is_upper(c) || c == '_'
}

/// The end of the run of digits at `i`.
pub open spec fn digits_end(cs: Seq<char>, i: int) -> int
    decreases cs.len() - i,
{
    if 0 <= i < cs.len() && is_digit(cs[i]) {
        digits_end(cs, i + 1)
    } else {
        i
    }
}

/// The end of the run of identifier characters at `i`.
pub open spec fn word_end(cs: Seq<char>, i: int) -> int
    decreases cs.len() - i,
{
    if 0 <= i < cs.len() && is_word(cs[i]) {
        word_end(cs, i + 1)
    } else {
        i
    }
}

/// The index of the first `"` at or after `i`, or the length.
pub open spec fn quote_at(cs: Seq<char>, i: int) -> int
    decreases cs.len() - i,
{
    if 0 <= i < cs.len() && cs[i] != '"' {
        quote_at(cs, i + 1)
    } else {
        i
    }
}

/// The index of the first newline at or after `i`, or the length.
pub open spec fn line_end(cs: Seq<char>, i: int) -> int
    decreases cs.len() - i,
{
    if 0 <= i < cs.len() && cs[i] != '\n' {
        line_end(cs, i + 1)
    } else {
        i
    }
}

/// The value of a run of decimal digits.
pub open spec fn digits_value(s: Seq<char>) -> nat
    decreases s.len(),
{
    if s.len() == 0 {
        0
    } else {
        digits_value(s.drop_last()) * 10 + ((s.last() as u32) - 48) as nat
    }
}

/// The keyword spelled `w`, if any.
pub open spec fn keyword(w: Seq<char>) -> Option<Token> {
    if w == "true"@ {
        Some(Token::True)
    } else if w == "false"@ {
        Some(Token::False)
    } else if w == "fn"@ {
        Some(Token::Fn)
    } else if w == "async"@ {
        Some(Token::Async)
    } else if w == "match"@ {
        Some(Token::Match)
    } else if w == "let"@ {
        Some(Token::Let)
    } else if w == "in"@ {
        Some(Token::In)
    } else if w == "if"@ {
        Some(Token::If)
    } else if w == "then"@ {
        Some(Token::Then)
    } else if w == "else"@ {
        Some(Token::Else)
    } else if w == "type"@ {
        Some(Token::Type)
    } else if w == "use"@ {
        Some(Token::Use)
    } else if w == "when"@ {
        Some(Token::When)
    } else {
        None
    }
}

/// The operator spelled by two characters, if any.
pub open spec fn pair_token(a: char, b: char) -> Option<Token> {
    if a == '|' && b == '>' {
        Some(Token::PipeRight)
    } else if a == '<' && b == '|' {
        Some(Token::PipeLeft)
    } else if a == '>' && b == '>' {
        Some(Token::Compose)
    } else if a == ':' && b == ':' {
        Some(Token::DoubleColon)
    } else if a == '-' && b == '>' {
        Some(Token::Arrow)
    } else if a == '<' && b == '-' {
        Some(Token::BindArrow)
    } else if a == '=' && b == '>' {
        Some(Token::FatArrow)
    } else if a == '=' && b == '=' {
        Some(Token::EqEq)
    } else if a == '!' && b == '=' {
        Some(Token::Neq)
    } else if a == '<' && b == '=' {
        Some(Token::Leq)
    } else if a == '>' && b == '=' {
        Some(Token::Geq)
    } else if a == '&' && b == '&' {
        Some(Token::And)
    } else if a == '|' && b == '|' {
        Some(Token::Or)
    } else if a == '.' && b == '.' {
        Some(Token::DotDot)
    } else {
        None
    }
}

/// The token spelled by one character, if any.
pub open spec fn single_token(c: char) -> Option<Token> {
    if c == '.' {
        Some(Token::Dot)
    } else if c == '=' {
        Some(Token::Eq)
    } else if c == '+' {
        Some(Token::Plus)
    } else if c == '-' {
        Some(Token::Minus)
    } else if c == '*' {
        Some(Token::Star)
    } else if c == '/' {
        Some(Token::Slash)
    } else if c == '%' {
        Some(Token::Percent)
    } else if c == '<' {
        Some(Token::Lt)
    } else if c == '>' {
        Some(Token::Gt)
    } else if c == '!' {
        Some(Token::Bang)
    } else if c == '\\' {
        Some(Token::BackSlash)
    } else if c == '|' {
        Some(Token::Pipe)
    } else if c == ',' {
        Some(Token::Comma)
    } else if c == ':' {
        Some(Token::Colon)
    } else if c == '(' {
        Some(Token::LParen)
    } else if c == ')' {
        Some(Token::RParen)
    } else if c == '[' {
        Some(Token::LBrack)
    } else if c == ']' {
        Some(Token::RBrack)
    } else if c == '{' {
        Some(Token::LBrace)
    } else if c == '}' {
        Some(Token::RBrace)
    } else if c == '\n' {
        Some(Token::RawNewline)
    } else {
        None
    }
}

/// The lexeme that starts at `i` (not a blank): what it is (`None` for an
/// error) and where it ends.
pub open spec fn lexeme(cs: Seq<char>, i: int) -> (Option<LexTok>, int) {
    let c = cs[i];
    if is_digit(c) {
        let j = digits_end(cs, i);
        if j + 1 < cs.len() && cs[j] == '.' && is_digit(cs[j + 1]) {
            let k = digits_end(cs, j + 1);
            (Some(LexTok::Float(cs.subrange(i, k))), k)
        } else if digits_value(cs.subrange(i, j)) <= i64::MAX {
            (Some(LexTok::Int(digits_value(cs.subrange(i, j)) as i64)), j)
        } else {
            (None, j)
        }
    } else if c == '"' {
        let k = quote_at(cs, i + 1);
        if k < cs.len() {
            (Some(LexTok::Str(cs.subrange(i + 1, k))), k + 1)
        } else {
            (None, cs.len() as int)
        }
    } else if is_lower(c) || c == '_' {
        let j = word_end(cs, i + 1);
        match keyword(cs.subrange(i, j)) {
            Some(k) => (Some(LexTok::Plain(k)), j),
            None => (Some(LexTok::Ident(cs.subrange(i, j))), j),
        }
    } else if is_upper(c) {
        let j = word_end(cs, i + 1);
        (Some(LexTok::TypeIdent(cs.subrange(i, j))), j)
    } else if c == '-' && i + 1 < cs.len() && cs[i + 1] == '-' {
        (Some(LexTok::Plain(Token::Comment)), line_end(cs, i + 2))
    } else if i + 1 < cs.len() && pair_token(c, cs[i + 1]) is Some {
        (Some(LexTok::Plain(pair_token(c, cs[i + 1])->0)), i + 2)
    } else {
        match single_token(c) {
            Some(t) => (Some(LexTok::Plain(t)), i + 1),
            None => (None, i + 1),
        }
    }
}

/// The lexemes from `i` on, each with its first and end character index.
pub open spec fn lexemes(cs: Seq<char>, i: int) -> Seq<(Option<LexTok>, int, int)>
    decreases cs.len() - i,
{
    if i < 0 || i >= cs.len() {
        seq![]
    } else if is_space(cs[i]) {
        lexemes(cs, i + 1)
    } else {
        let (t, j) = lexeme(cs, i);
        if j <= i || j > cs.len() {
            seq![]
        } else {
            seq![(t, i, j)] + lexemes(cs, j)
        }
    }
}

/// The byte offset of character index `i`.
pub open spec fn boff(cs: Seq<char>, i: int) -> int {
    encode_utf8(cs.take(i)).len() as int
}

/// The byte span of characters `i..j`.
pub open spec fn bspan(cs: Seq<char>, i: int, j: int) -> Span {
    std::ops::Range { start: boff(cs, i) as usize, end: boff(cs, j) as usize }
}

/// The tokens among the lexemes, with their byte spans.
pub open spec fn good_of(cs: Seq<char>, ls: Seq<(Option<LexTok>, int, int)>) -> Seq<(LexTok, Span)>
    decreases ls.len(),
{
    if ls.len() == 0 {
        seq![]
    } else {
        let rest = good_of(cs, ls.drop_last());
        match ls.last().0 {
            Some(t) => rest.push((t, bspan(cs, ls.last().1, ls.last().2))),
            None => rest,
        }
    }
}

/// The byte spans of the errors among the lexemes.
pub open spec fn bad_of(cs: Seq<char>, ls: Seq<(Option<LexTok>, int, int)>) -> Seq<Span>
    decreases ls.len(),
{
    if ls.len() == 0 {
        seq![]
    } else {
        let rest = bad_of(cs, ls.drop_last());
        match ls.last().0 {
            Some(_) => rest,
            None => rest.push(bspan(cs, ls.last().1, ls.last().2)),
        }
    }
}

/// The tokens of a text, with their byte spans, before layout.
pub open spec fn lex_tokens(cs: Seq<char>) -> Seq<(LexTok, Span)> {
    good_of(cs, lexemes(cs, 0))
}

/// The byte spans of the errors in a text.
pub open spec fn lex_errors(cs: Seq<char>) -> Seq<Span> {
    bad_of(cs, lexemes(cs, 0))
}

/// Whether the tokens are those the model describes, span for span.
pub open spec fn toks_agree(ts: Seq<(Token, Span)>, ms: Seq<(LexTok, Span)>) -> bool {
    &&& ts.len() == ms.len()
    &&& forall|k: int| 0 <= k < ts.len() ==> tok_agrees(#[trigger] ts[k].0, ms[k].0) && ts[k].1 == ms[k].1
}

// ══ Byte offsets ═════════════════════════════════════════════════════════════

proof fn lemma_encode_concat(a: Seq<char>, b: Seq<char>)
    ensures
        encode_utf8(a + b) == encode_utf8(a) + encode_utf8(b),
    decreases a.len(),
{
    if a.len() == 0 {
        assert(a + b =~= b);
        assert(encode_utf8(a) =~= seq![]);
        assert(encode_utf8(a) + encode_utf8(b) =~= encode_utf8(b));
    } else {
        lemma_encode_concat(a.drop_first(), b);
        assert((a + b).drop_first() =~= a.drop_first() + b);
        assert((a + b)[0] == a[0]);
        assert(encode_utf8(a + b) =~= encode_scalar(a[0] as u32) + (encode_utf8(a.drop_first())
            + encode_utf8(b)));
    }
}

proof fn lemma_boff_step(cs: Seq<char>, i: int)
    requires
        0 <= i < cs.len(),
    ensures
        boff(cs, i + 1) == boff(cs, i) + encode_scalar(cs[i] as u32).len(),
{
    assert(cs.take(i + 1) =~= cs.take(i) + seq![cs[i]]);
    lemma_encode_concat(cs.take(i), seq![cs[i]]);
    assert(seq![cs[i]].drop_first() =~= Seq::<char>::empty());
    assert(encode_utf8(seq![cs[i]]) =~= encode_scalar(cs[i] as u32) + encode_utf8(
        Seq::<char>::empty(),
    ));
}

proof fn lemma_boff_mono(cs: Seq<char>, i: int, j: int)
    requires
        0 <= i <= j <= cs.len(),
    ensures
        boff(cs, i) <= boff(cs, j) <= encode_utf8(cs).len(),
{
    assert(cs.take(j) =~= cs.take(i) + cs.subrange(i, j));
    lemma_encode_concat(cs.take(i), cs.subrange(i, j));
    assert(cs =~= cs.take(j) + cs.subrange(j, cs.len() as int));
    lemma_encode_concat(cs.take(j), cs.subrange(j, cs.len() as int));
}

/// The number of bytes of `c` in UTF-8.
fn char_width(c: char) -> (w: usize)
    ensures
        w == encode_scalar(c as u32).len(),
{
    let u = c as u32;
    if u <= 0x7F {
        1
    } else if u <= 0x7FF {
        2
    } else if u <= 0xFFFF && !(0xD800 <= u && u <= 0xDFFF) {
        3
    } else {
        4
    }
}

/// The byte offset of character `j`, from that of character `i`.
fn advance(cs: &Vec<char>, i: usize, j: usize, pos: usize) -> (r: usize)
    requires
        i <= j <= cs@.len(),
        pos == boff(cs@, i as int),
        encode_utf8(cs@).len() <= usize::MAX,
    ensures
        r == boff(cs@, j as int),
{
    let mut k = i;
    let mut p = pos;
    while k < j
        invariant
            i <= k <= j <= cs@.len(),
            p == boff(cs@, k as int),
            encode_utf8(cs@).len() <= usize::MAX,
        decreases j - k,
    {
        proof {
            lemma_boff_step(cs@, k as int);
            lemma_boff_mono(cs@, k + 1, cs@.len() as int);
        }
        p = p + char_width(cs[k]);
        k = k + 1;
    }
    p
}

// ══ Scanning ═════════════════════════════════════════════════════════════════

fn is_digit_x(c: char) -> (r: bool)
    ensures
        r == is_digit(c),
{
    let u = c as u32;
    48 <= u && u <= 57
}

fn is_lower_x(c: char) -> (r: bool)
    ensures
        r == is_lower(c),
{
    let u = c as u32;
    97 <= u && u <= 122
}

fn is_upper_x(c: char) -> (r: bool)
    ensures
        r == is_upper(c),
{
    let u = c as u32;
    65 <= u && u <= 90
}

fn is_word_x(c: char) -> (r: bool)
    ensures
        r == is_word(c),
{
    let u = c as u32;
    (48 <= u && u <= 57) || (97 <= u && u <= 122) || (65 <= u && u <= 90) || c == '_'
}

fn digits_end_x(cs: &Vec<char>, i: usize) -> (r: usize)
    requires
        i <= cs@.len(),
    ensures
        r == digits_end(cs@, i as int),
        i <= r <= cs@.len(),
{
    let mut j = i;
    while j < cs.len() && is_digit_x(cs[j])
        invariant
            i <= j <= cs@.len(),
            digits_end(cs@, i as int) == digits_end(cs@, j as int),
        decreases cs@.len() - j,
    {
        j = j + 1;
    }
    j
}

fn word_end_x(cs: &Vec<char>, i: usize) -> (r: usize)
    requires
        i <= cs@.len(),
    ensures
        r == word_end(cs@, i as int),
        i <= r <= cs@.len(),
{
    let mut j = i;
    while j < cs.len() && is_word_x(cs[j])
        invariant
            i <= j <= cs@.len(),
            word_end(cs@, i as int) == word_end(cs@, j as int),
        decreases cs@.len() - j,
    {
        j = j + 1;
    }
    j
}

fn quote_at_x(cs: &Vec<char>, i: usize) -> (r: usize)
    requires
        i <= cs@.len(),
    ensures
        r == quote_at(cs@, i as int),
        i <= r <= cs@.len(),
{
    let mut j = i;
    while j < cs.len() && cs[j] != '"'
        invariant
            i <= j <= cs@.len(),
            quote_at(cs@, i as int) == quote_at(cs@, j as int),
        decreases cs@.len() - j,
    {
        j = j + 1;
    }
    j
}

fn line_end_x(cs: &Vec<char>, i: usize) -> (r: usize)
    requires
        i <= cs@.len(),
    ensures
        r == line_end(cs@, i as int),
        i <= r <= cs@.len(),
{
    let mut j = i;
    while j < cs.len() && cs[j] != '\n'
        invariant
            i <= j <= cs@.len(),
            line_end(cs@, i as int) == line_end(cs@, j as int),
        decreases cs@.len() - j,
    {
        j = j + 1;
    }
    j
}

/// The value of the digits `i..j`, where it fits in `i64`.
fn digits_value_x(cs: &Vec<char>, i: usize, j: usize) -> (r: Option<i64>)
    requires
        i <= j <= cs@.len(),
        forall|k: int| i <= k < j ==> is_digit(#[trigger] cs@[k]),
    ensures
        match r {
            Some(v) => v == digits_value(cs@.subrange(i as int, j as int)),
            None => digits_value(cs@.subrange(i as int, j as int)) > i64::MAX,
        },
{
    let mut k = i;
    let mut acc: Option<i64> = Some(0);
    assert(cs@.subrange(i as int, i as int) =~= Seq::<char>::empty());
    while k < j
        invariant
            i <= k <= j <= cs@.len(),
            forall|m: int| i <= m < j ==> is_digit(#[trigger] cs@[m]),
            match acc {
                Some(v) => v == digits_value(cs@.subrange(i as int, k as int)),
                None => digits_value(cs@.subrange(i as int, k as int)) > i64::MAX,
            },
        decreases j - k,
    {
        let d = (cs[k] as u32 - 48) as i64;
        assert(cs@.subrange(i as int, k + 1).drop_last() =~= cs@.subrange(i as int, k as int));
        assert(cs@.subrange(i as int, k + 1).last() == cs@[k as int]);
        acc = match acc {
            Some(v) => match v.checked_mul(10) {
                Some(t) => t.checked_add(d),
                None => None,
            },
            None => None,
        };
        k = k + 1;
    }
    acc
}

/// The keyword spelled `w`, if any.
fn keyword_x(w: &str) -> (r: Option<Token>)
    ensures
        r == keyword(w@),
{
    if str_eq(w, "true") {
        Some(Token::True)
    } else if str_eq(w, "false") {
        Some(Token::False)
    } else if str_eq(w, "fn") {
        Some(Token::Fn)
    } else if str_eq(w, "async") {
        Some(Token::Async)
    } else if str_eq(w, "match") {
        Some(Token::Match)
    } else if str_eq(w, "let") {
        Some(Token::Let)
    } else if str_eq(w, "in") {
        Some(Token::In)
    } else if str_eq(w, "if") {
        Some(Token::If)
    } else if str_eq(w, "then") {
        Some(Token::Then)
    } else if str_eq(w, "else") {
        Some(Token::Else)
    } else if str_eq(w, "type") {
        Some(Token::Type)
    } else if str_eq(w, "use") {
        Some(Token::Use)
    } else if str_eq(w, "when") {
        Some(Token::When)
    } else {
        None
    }
}

fn pair_token_x(a: char, b: char) -> (r: Option<Token>)
    ensures
        r == pair_token(a, b),
{
    if a == '|' && b == '>' {
        Some(Token::PipeRight)
    } else if a == '<' && b == '|' {
        Some(Token::PipeLeft)
    } else if a == '>' && b == '>' {
        Some(Token::Compose)
    } else if a == ':' && b == ':' {
        Some(Token::DoubleColon)
    } else if a == '-' && b == '>' {
        Some(Token::Arrow)
    } else if a == '<' && b == '-' {
        Some(Token::BindArrow)
    } else if a == '=' && b == '>' {
        Some(Token::FatArrow)
    } else if a == '=' && b == '=' {
        Some(Token::EqEq)
    } else if a == '!' && b == '=' {
        Some(Token::Neq)
    } else if a == '<' && b == '=' {
        Some(Token::Leq)
    } else if a == '>' && b == '=' {
        Some(Token::Geq)
    } else if a == '&' && b == '&' {
        Some(Token::And)
    } else if a == '|' && b == '|' {
        Some(Token::Or)
    } else if a == '.' && b == '.' {
        Some(Token::DotDot)
    } else {
        None
    }
}

fn single_token_x(c: char) -> (r: Option<Token>)
    ensures
        r == single_token(c),
{
    if c == '.' {
        Some(Token::Dot)
    } else if c == '=' {
        Some(Token::Eq)
    } else if c == '+' {
        Some(Token::Plus)
    } else if c == '-' {
        Some(Token::Minus)
    } else if c == '*' {
        Some(Token::Star)
    } else if c == '/' {
        Some(Token::Slash)
    } else if c == '%' {
        Some(Token::Percent)
    } else if c == '<' {
        Some(Token::Lt)
    } else if c == '>' {
        Some(Token::Gt)
    } else if c == '!' {
        Some(Token::Bang)
    } else if c == '\\' {
        Some(Token::BackSlash)
    } else if c == '|' {
        Some(Token::Pipe)
    } else if c == ',' {
        Some(Token::Comma)
    } else if c == ':' {
        Some(Token::Colon)
    } else if c == '(' {
        Some(Token::LParen)
    } else if c == ')' {
        Some(Token::RParen)
    } else if c == '[' {
        Some(Token::LBrack)
    } else if c == ']' {
        Some(Token::RBrack)
    } else if c == '{' {
        Some(Token::LBrace)
    } else if c == '}' {
        Some(Token::RBrace)
    } else if c == '\n' {
        Some(Token::RawNewline)
    } else {
        None
    }
}

/// The characters `i..j` of `source` as a string.
fn text_of(source: &str, i: usize, j: usize) -> (r: String)
    requires
        i <= j <= source@.len(),
    ensures
        r@ == source@.subrange(i as int, j as int),
{
    string_of(source.substring_char(i, j))
}

/// The lexeme at `i`: its token (`None` for an error) and its end.
fn lexeme_x<H: Host>(cs: &Vec<char>, i: usize, source: &str, host: &H) -> (r: (Option<Token>, usize))
    requires
        cs@ == source@,
        i < cs@.len(),
    ensures
        r.1 == lexeme(cs@, i as int).1,
        i < r.1 <= cs@.len(),
        match lexeme(cs@, i as int).0 {
            Some(m) => r.0 matches Some(t) && tok_agrees(t, m),
            None => r.0 is None,
        },
{
    let c = cs[i];
    let n = cs.len();
    if is_digit_x(c) {
        assert(digits_end(cs@, i as int) == digits_end(cs@, i + 1));
        let j = digits_end_x(cs, i + 1);
        if j < n && j + 1 < n && cs[j] == '.' && is_digit_x(cs[j + 1]) {
            let k = digits_end_x(cs, j + 1);
            let text = text_of(source, i, k);
            (Some(Token::Float(host.parse_float(text.as_str()))), k)
        } else {
            assert forall|k: int| i <= k < j implies is_digit(#[trigger] cs@[k]) by {
                lemma_digits_run(cs@, i as int, k);
            }
            match digits_value_x(cs, i, j) {
                Some(v) => (Some(Token::Int(v)), j),
                None => (None, j),
            }
        }
    } else if c == '"' {
        let k = quote_at_x(cs, i + 1);
        if k < n {
            (Some(Token::Str(text_of(source, i + 1, k))), k + 1)
        } else {
            (None, n)
        }
    } else if is_lower_x(c) || c == '_' {
        let j = word_end_x(cs, i + 1);
        let w = text_of(source, i, j);
        match keyword_x(w.as_str()) {
            Some(k) => (Some(k), j),
            None => (Some(Token::Ident(w)), j),
        }
    } else if is_upper_x(c) {
        let j = word_end_x(cs, i + 1);
        (Some(Token::TypeIdent(text_of(source, i, j))), j)
    } else if c == '-' && i + 1 < n && cs[i + 1] == '-' {
        (Some(Token::Comment), line_end_x(cs, i + 2))
    } else {
        let pair = if i + 1 < n {
            pair_token_x(c, cs[i + 1])
        } else {
            None
        };
        match pair {
            Some(t) => (Some(t), i + 2),
            None => match single_token_x(c) {
                Some(t) => (Some(t), i + 1),
                None => (None, i + 1),
            },
        }
    }
}

proof fn lemma_digits_run(cs: Seq<char>, i: int, k: int)
    requires
        0 <= i <= k < digits_end(cs, i),
    ensures
        is_digit(cs[k]),
    decreases k - i,
{
    if k > i {
        lemma_digits_run(cs, i + 1, k);
    }
}

// ══ The lexer ════════════════════════════════════════════════════════════════

/// The characters of `s`, in order.
fn chars_of(s: &str) -> (r: Vec<char>)
    ensures
        r@ == s@,
{
    broadcast use vstd::string::axiom_spec_iter;

    let mut out: Vec<char> = Vec::new();
    for c in it: s.chars()
        invariant
            out@ == it.seq().take(it.index() as int),
    {
        out.push(c);
    }
    out
}

/// The tokens of `source` with their byte spans, before layout, and the byte
/// spans of its errors. The host gives the value of each float literal.
pub fn tokenize<H: Host>(source: &str, host: &H) -> (r: (Vec<(Token, Span)>, Vec<Span>))
    ensures
        toks_agree(r.0@, lex_tokens(source@)),
        r.1@ == lex_errors(source@),
{
    let cs = chars_of(source);
    let nbytes = source.as_bytes().len();
    let n = cs.len();
    let mut toks: Vec<(Token, Span)> = Vec::new();
    let mut errs: Vec<Span> = Vec::new();
    let mut i: usize = 0;
    let mut pos: usize = 0;
    let ghost mut done: Seq<(Option<LexTok>, int, int)> = seq![];
    assert(cs@.take(0) =~= Seq::<char>::empty());
    assert(done + lexemes(cs@, 0) =~= lexemes(cs@, 0));
    while i < n
        invariant
            cs@ == source@,
            n == cs@.len(),
            nbytes == encode_utf8(cs@).len(),
            i <= n,
            pos == boff(cs@, i as int),
            done + lexemes(cs@, i as int) == lexemes(cs@, 0),
            toks_agree(toks@, good_of(cs@, done)),
            errs@ == bad_of(cs@, done),
        decreases n - i,
    {
        let c = cs[i];
        if c == ' ' || c == '\t' || c == '\r' {
            proof {
                lemma_boff_step(cs@, i as int);
                lemma_boff_mono(cs@, i + 1, n as int);
            }
            pos = pos + char_width(c);
            i = i + 1;
        } else {
            let (t, j) = lexeme_x(&cs, i, source, host);
            proof {
                lemma_boff_mono(cs@, j as int, n as int);
            }
            let end = advance(&cs, i, j, pos);
            let span = std::ops::Range { start: pos, end };
            let ghost item = (lexeme(cs@, i as int).0, i as int, j as int);
            assert(lexemes(cs@, i as int) == seq![item] + lexemes(cs@, j as int));
            assert(done.push(item).drop_last() =~= done);
            match t {
                Some(tok) => {
                    let ghost gs = good_of(cs@, done);
                    let ghost before = toks@;
                    toks.push((tok, span));
                    assert(good_of(cs@, done.push(item)) == gs.push(
                        (lexeme(cs@, i as int).0->0, bspan(cs@, i as int, j as int)),
                    ));
                    assert(toks_agree(toks@, good_of(cs@, done.push(item)))) by {
                        assert forall|k: int| 0 <= k < toks@.len() implies tok_agrees(
                            #[trigger] toks@[k].0,
                            good_of(cs@, done.push(item))[k].0,
                        ) && toks@[k].1 == good_of(cs@, done.push(item))[k].1 by {
                            if k < toks@.len() - 1 {
                                assert(toks@[k] == before[k]);
                            }
                        }
                    }
                    assert(errs@ == bad_of(cs@, done.push(item)));
                },
                None => {
                    errs.push(span);
                    assert(good_of(cs@, done.push(item)) == good_of(cs@, done));
                },
            }
            proof {
                done = done.push(item);
                assert(done + lexemes(cs@, j as int) =~= lexemes(cs@, 0));
            }
            i = j;
            pos = end;
        }
    }
    (toks, errs)
}

/// Lexes a source text into a token stream with layout tokens applied, or
/// answers the byte spans of its errors where it has any.
pub fn lex<H: Host>(source: &str, host: &H) -> (r: Result<Vec<(Token, Span)>, Vec<Span>>)
    ensures
        match r {
            Err(es) => es@ == lex_errors(source@) && es@.len() > 0,
            Ok(ts) => lex_errors(source@).len() == 0 && exists|raw: Seq<(Token, Span)>|
                toks_agree(raw, lex_tokens(source@)) && ts@ == layout(raw),
        },
{
    let (toks, errs) = tokenize(source, host);
    if errs.len() > 0 {
        return Err(errs);
    }
    let ghost raw = toks@;
    let out = apply_layout(toks);
    assert(toks_agree(raw, lex_tokens(source@)) && out@ == layout(raw));
    Ok(out)
}

// ══ Laws ═════════════════════════════════════════════════════════════════════

/// A lexeme that only the layout pass makes.
pub open spec fn makes_layout(m: LexTok) -> bool {
    m matches LexTok::Plain(t) && (t is Newline || t is Indent || t is Dedent)
}

/// A lexeme that is an error or a token the lexer may make.
pub open spec fn lexed_kind(x: Option<LexTok>) -> bool {
    match x {
        Some(m) => !makes_layout(m),
        None => true,
    }
}

proof fn lemma_lexeme_not_layout(cs: Seq<char>, i: int)
    requires
        0 <= i < cs.len(),
    ensures
        lexed_kind(lexeme(cs, i).0),
{
}

proof fn lemma_lexemes_not_layout(cs: Seq<char>, i: int)
    ensures
        forall|k: int| 0 <= k < lexemes(cs, i).len() ==> lexed_kind((#[trigger] lexemes(cs, i)[k]).0),
    decreases cs.len() - i,
{
    if i < 0 || i >= cs.len() {
    } else if is_space(cs[i]) {
        lemma_lexemes_not_layout(cs, i + 1);
        assert(lexemes(cs, i) == lexemes(cs, i + 1));
    } else {
        let (t, j) = lexeme(cs, i);
        if j <= i || j > cs.len() {
            assert(lexemes(cs, i).len() == 0);
        } else {
            lemma_lexeme_not_layout(cs, i);
            lemma_lexemes_not_layout(cs, j);
            let ls = lexemes(cs, i);
            assert(ls == seq![(t, i, j)] + lexemes(cs, j));
            assert forall|k: int| 0 <= k < ls.len() implies lexed_kind((#[trigger] ls[k]).0) by {
                if k > 0 {
                    assert(ls[k] == lexemes(cs, j)[k - 1]);
                }
            }
        }
    }
}

proof fn lemma_good_not_layout(cs: Seq<char>, ls: Seq<(Option<LexTok>, int, int)>)
    requires
        forall|k: int| 0 <= k < ls.len() ==> lexed_kind((#[trigger] ls[k]).0),
    ensures
        forall|k: int| 0 <= k < good_of(cs, ls).len() ==> !makes_layout(#[trigger] good_of(cs, ls)[k].0),
    decreases ls.len(),
{
    if ls.len() > 0 {
        let init = ls.drop_last();
        assert forall|k: int| 0 <= k < init.len() implies lexed_kind((#[trigger] init[k]).0) by {
            assert(init[k] == ls[k]);
        }
        lemma_good_not_layout(cs, init);
        assert(ls.last() == ls[ls.len() - 1]);
        assert(lexed_kind(ls.last().0));
        let g = good_of(cs, ls);
        let gi = good_of(cs, init);
        assert forall|k: int| 0 <= k < g.len() implies !makes_layout(#[trigger] g[k].0) by {
            if k < gi.len() {
                assert(g[k] == gi[k]);
            }
        }
    }
}

proof fn lemma_count_zero(ts: Seq<(Token, Span)>, t: Token)
    requires
        forall|k: int| 0 <= k < ts.len() ==> (#[trigger] ts[k]).0 != t,
    ensures
        count_of(ts, t) == 0,
    decreases ts.len(),
{
    if ts.len() > 0 {
        assert(ts[0].0 != t);
        assert forall|k: int| 0 <= k < ts.drop_first().len() implies (#[trigger] ts.drop_first()[k]).0
            != t by {
            assert(ts.drop_first()[k] == ts[k + 1]);
        }
        lemma_count_zero(ts.drop_first(), t);
    }
}

/// Tokens lexed from a text, laid out, open as many indentation levels as
/// they close, close none before opening it, and hold no raw newline and no
/// comment.
pub proof fn lexed_layout_is_balanced(source: Seq<char>, raw: Seq<(Token, Span)>)
    requires
        toks_agree(raw, lex_tokens(source)),
    ensures
        count_of(layout(raw), Token::Indent) == count_of(layout(raw), Token::Dedent),
        nested(layout(raw), 0),
        count_of(layout(raw), Token::RawNewline) == 0,
        count_of(layout(raw), Token::Comment) == 0,
{
    let ms = lex_tokens(source);
    lemma_lexemes_not_layout(source, 0);
    lemma_good_not_layout(source, lexemes(source, 0));
    assert forall|k: int| 0 <= k < raw.len() implies (#[trigger] raw[k]).0 != Token::Indent
        && raw[k].0 != Token::Dedent by {
        assert(tok_agrees(raw[k].0, ms[k].0));
        assert(!makes_layout(ms[k].0));
    }
    lemma_count_zero(raw, Token::Indent);
    lemma_count_zero(raw, Token::Dedent);
    layout_balances_indents(raw);
    layout_nests_levels(raw);
    layout_resolves_newlines(raw);
}

/// Lexemes at or after `lo` and ending by `hi`, nonempty and in order.
pub open spec fn runs_ordered(ls: Seq<(Option<LexTok>, int, int)>, lo: int, hi: int) -> bool {
    &&& forall|k: int| 0 <= k < ls.len() ==> lo <= (#[trigger] ls[k]).1 < ls[k].2 <= hi
    &&& forall|k: int, l: int| 0 <= k < l < ls.len() ==> (#[trigger] ls[k]).2 <= (#[trigger] ls[l]).1
}

/// Byte spans at or after `lo` and ending by `hi`, nonempty and in order.
pub open spec fn spans_ordered(ss: Seq<Span>, lo: int, hi: int) -> bool {
    &&& forall|k: int| 0 <= k < ss.len() ==> lo <= (#[trigger] ss[k]).start < ss[k].end <= hi
    &&& forall|k: int, l: int| 0 <= k < l < ss.len() ==> (#[trigger] ss[k]).end <= (#[trigger] ss[l]).start
}

proof fn lemma_lexemes_ordered(cs: Seq<char>, i: int)
    requires
        0 <= i <= cs.len(),
    ensures
        runs_ordered(lexemes(cs, i), i, cs.len() as int),
    decreases cs.len() - i,
{
    if i >= cs.len() {
    } else if is_space(cs[i]) {
        lemma_lexemes_ordered(cs, i + 1);
        assert(lexemes(cs, i) == lexemes(cs, i + 1));
    } else {
        let (t, j) = lexeme(cs, i);
        if j <= i || j > cs.len() {
            assert(lexemes(cs, i).len() == 0);
        } else {
            lemma_lexemes_ordered(cs, j);
            let rest = lexemes(cs, j);
            let ls = lexemes(cs, i);
            assert(ls == seq![(t, i, j)] + rest);
            assert forall|k: int| 0 <= k < ls.len() implies i <= (#[trigger] ls[k]).1 < ls[k].2
                <= cs.len() by {
                if k > 0 {
                    assert(ls[k] == rest[k - 1]);
                }
            }
            assert forall|k: int, l: int| 0 <= k < l < ls.len() implies (#[trigger] ls[k]).2 <= (
            #[trigger] ls[l]).1 by {
                assert(ls[l] == rest[l - 1]);
                if k > 0 {
                    assert(ls[k] == rest[k - 1]);
                }
            }
        }
    }
}

proof fn lemma_boff_strict(cs: Seq<char>, a: int, b: int)
    requires
        0 <= a < b <= cs.len(),
    ensures
        boff(cs, a) < boff(cs, b),
{
    lemma_boff_mono(cs, a, b - 1);
    lemma_boff_step(cs, b - 1);
}

proof fn lemma_kept_ordered(cs: Seq<char>, ls: Seq<(Option<LexTok>, int, int)>, lo: int, hi: int)
    requires
        0 <= lo,
        hi <= cs.len(),
        encode_utf8(cs).len() <= usize::MAX,
        runs_ordered(ls, lo, hi),
    ensures
        spans_ordered(good_of(cs, ls).map_values(|x: (LexTok, Span)| x.1), boff(cs, lo), boff(cs, hi)),
        spans_ordered(bad_of(cs, ls), boff(cs, lo), boff(cs, hi)),
    decreases ls.len(),
{
    let g = good_of(cs, ls).map_values(|x: (LexTok, Span)| x.1);
    let b = bad_of(cs, ls);
    if ls.len() == 0 {
    } else {
        let init = ls.drop_last();
        let x = ls.last();
        assert(x == ls[ls.len() - 1]);
        assert forall|k: int, l: int| 0 <= k < l < init.len() implies (#[trigger] init[k]).2 <= (
        #[trigger] init[l]).1 by {
            assert(init[k] == ls[k] && init[l] == ls[l]);
        }
        assert forall|k: int| 0 <= k < init.len() implies lo <= (#[trigger] init[k]).1 < init[k].2
            <= x.1 by {
            assert(init[k] == ls[k]);
        }
        lemma_kept_ordered(cs, init, lo, x.1);
        lemma_boff_mono(cs, lo, x.1);
        lemma_boff_strict(cs, x.1, x.2);
        lemma_boff_mono(cs, x.2, hi);
        lemma_boff_mono(cs, hi, cs.len() as int);
        lemma_boff_mono(cs, 0, lo);
        let gi = good_of(cs, init).map_values(|y: (LexTok, Span)| y.1);
        let bi = bad_of(cs, init);
        let sp = bspan(cs, x.1, x.2);
        assert(sp.start == boff(cs, x.1) && sp.end == boff(cs, x.2));
        match x.0 {
            Some(t) => {
                assert(g =~= gi.push(sp));
                assert(b == bi);
            },
            None => {
                assert(g =~= gi);
                assert(b == bi.push(sp));
            },
        }
        assert forall|k: int| 0 <= k < g.len() implies boff(cs, lo) <= (#[trigger] g[k]).start
            < g[k].end <= boff(cs, hi) by {
            if k < gi.len() {
                assert(g[k] == gi[k]);
            }
        }
        assert forall|k: int, l: int| 0 <= k < l < g.len() implies (#[trigger] g[k]).end <= (
        #[trigger] g[l]).start by {
            assert(g[k] == gi[k]);
            if l < gi.len() {
                assert(g[l] == gi[l]);
            }
        }
        assert forall|k: int| 0 <= k < b.len() implies boff(cs, lo) <= (#[trigger] b[k]).start
            < b[k].end <= boff(cs, hi) by {
            if k < bi.len() {
                assert(b[k] == bi[k]);
            }
        }
        assert forall|k: int, l: int| 0 <= k < l < b.len() implies (#[trigger] b[k]).end <= (
        #[trigger] b[l]).start by {
            assert(b[k] == bi[k]);
            if l < bi.len() {
                assert(b[l] == bi[l]);
            }
        }
    }
}

/// The tokens of a text come in order, each nonempty and none overlapping
/// another, within the text's bytes; so do its errors.
pub proof fn lexed_spans_are_ordered(source: Seq<char>)
    requires
        encode_utf8(source).len() <= usize::MAX,
    ensures
        spans_ordered(
            lex_tokens(source).map_values(|x: (LexTok, Span)| x.1),
            0,
            encode_utf8(source).len() as int,
        ),
        spans_ordered(lex_errors(source), 0, encode_utf8(source).len() as int),
{
    lemma_lexemes_ordered(source, 0);
    lemma_kept_ordered(source, lexemes(source, 0), 0, source.len() as int);
    assert(source.take(0) =~= Seq::<char>::empty());
    assert(source.take(source.len() as int) =~= source);
}

} // verus!
