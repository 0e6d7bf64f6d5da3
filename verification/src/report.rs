//! The texts of tokens and of error messages.

use vstd::prelude::*;

use crate::eval::{err_v, EvalError};
use crate::host::Host;
use crate::layout::{dedents, eof_span, layout, layout_from};
use crate::lexer::{
    bad_of, bspan, digits_end, digits_value, good_of, is_digit, is_lower, is_space, is_upper, is_word, keyword, lex_errors, lex_tokens,
    lexeme, lexemes, quote_at, tok_agrees, toks_agree, word_end, LexTok,
};
use crate::parser::ParseError;
use crate::semantics::SErr;
use crate::text::{digit_char, int_string, int_text, nat_string, nat_text, push_str, string_of};
use crate::token::{Span, Token};

verus! {

/// The text of a token, as its `Display` writes it; `None` for a float,
/// whose text the host writes.
pub open spec fn tok_text(t: Token) -> Option<Seq<char>> {
    match t {
        Token::Int(n) => Some(int_text(n as int)),
        Token::Float(_) => None,
        Token::Str(s) => Some("\""@ + s@ + "\""@),
        Token::True => Some("true"@),
        Token::False => Some("false"@),
        Token::Fn => Some("fn"@),
        Token::Async => Some("async"@),
        Token::Match => Some("match"@),
        Token::Let => Some("let"@),
        Token::In => Some("in"@),
        Token::If => Some("if"@),
        Token::Then => Some("then"@),
        Token::Else => Some("else"@),
        Token::Type => Some("type"@),
        Token::Use => Some("use"@),
        Token::When => Some("when"@),
        Token::Ident(s) => Some(s@),
        Token::TypeIdent(s) => Some(s@),
        Token::PipeRight => Some("|>"@),
        Token::PipeLeft => Some("<|"@),
        Token::Compose => Some(">>"@),
        Token::DoubleColon => Some("::"@),
        Token::Arrow => Some("->"@),
        Token::BindArrow => Some("<-"@),
        Token::FatArrow => Some("=>"@),
        Token::EqEq => Some("=="@),
        Token::Neq => Some("!="@),
        Token::Leq => Some("<="@),
        Token::Geq => Some(">="@),
        Token::And => Some("&&"@),
        Token::Or => Some("||"@),
        Token::DotDot => Some(".."@),
        Token::Dot => Some("."@),
        Token::Eq => Some("="@),
        Token::Plus => Some("+"@),
        Token::Minus => Some("-"@),
        Token::Star => Some("*"@),
        Token::Slash => Some("/"@),
        Token::Percent => Some("%"@),
        Token::Lt => Some("<"@),
        Token::Gt => Some(">"@),
        Token::Bang => Some("!"@),
        Token::BackSlash => Some("\\"@),
        Token::Pipe => Some("|"@),
        Token::Comma => Some(","@),
        Token::Colon => Some(":"@),
        Token::LParen => Some("("@),
        Token::RParen => Some(")"@),
        Token::LBrack => Some("["@),
        Token::RBrack => Some("]"@),
        Token::LBrace => Some("{"@),
        Token::RBrace => Some("}"@),
        Token::Newline => Some("<newline>"@),
        Token::Indent => Some("<indent>"@),
        Token::Dedent => Some("<dedent>"@),
        Token::RawNewline => Some("<raw-newline>"@),
        Token::Comment => Some("<comment>"@),
    }
}

/// The text of a token without payload.
fn fixed_text(t: &Token) -> (r: &'static str)
    requires
        !(t is Int || t is Float || t is Str || t is Ident || t is TypeIdent),
    ensures
        tok_text(*t) == Some(r@),
{
    match t {
        Token::True => "true",
        Token::False => "false",
        Token::Fn => "fn",
        Token::Async => "async",
        Token::Match => "match",
        Token::Let => "let",
        Token::In => "in",
        Token::If => "if",
        Token::Then => "then",
        Token::Else => "else",
        Token::Type => "type",
        Token::Use => "use",
        Token::When => "when",
        Token::PipeRight => "|>",
        Token::PipeLeft => "<|",
        Token::Compose => ">>",
        Token::DoubleColon => "::",
        Token::Arrow => "->",
        Token::BindArrow => "<-",
        Token::FatArrow => "=>",
        Token::EqEq => "==",
        Token::Neq => "!=",
        Token::Leq => "<=",
        Token::Geq => ">=",
        Token::And => "&&",
        Token::Or => "||",
        Token::DotDot => "..",
        Token::Dot => ".",
        Token::Eq => "=",
        Token::Plus => "+",
        Token::Minus => "-",
        Token::Star => "*",
        Token::Slash => "/",
        Token::Percent => "%",
        Token::Lt => "<",
        Token::Gt => ">",
        Token::Bang => "!",
        Token::BackSlash => "\\",
        Token::Pipe => "|",
        Token::Comma => ",",
        Token::Colon => ":",
        Token::LParen => "(",
        Token::RParen => ")",
        Token::LBrack => "[",
        Token::RBrack => "]",
        Token::LBrace => "{",
        Token::RBrace => "}",
        Token::Newline => "<newline>",
        Token::Indent => "<indent>",
        Token::Dedent => "<dedent>",
        Token::RawNewline => "<raw-newline>",
        Token::Comment => "<comment>",
        _ => "",
    }
}

/// The text of a token, as its `Display` writes it.
pub fn token_text<H: Host>(t: &Token, host: &H) -> (r: String)
    ensures
        tok_text(*t) matches Some(x) ==> r@ == x,
{
    match t {
        Token::Int(n) => int_string(*n),
        Token::Float(b) => host.float_text(*b),
        Token::Str(s) => {
            let mut r = string_of("\"");
            push_str(&mut r, s.as_str());
            push_str(&mut r, "\"");
            r
        },
        Token::Ident(s) => s.clone(),
        Token::TypeIdent(s) => s.clone(),
        _ => string_of(fixed_text(t)),
    }
}

// ── Parse errors ──────────────────────────────────────────────────────────────

/// A token's text in backquotes.
pub open spec fn quoted(t: Token) -> Option<Seq<char>> {
    match tok_text(t) {
        Some(x) => Some("`"@ + x + "`"@),
        None => None,
    }
}

/// The tokens in backquotes, separated by ", ".
pub open spec fn quoted_list(ts: Seq<Token>) -> Option<Seq<char>>
    decreases ts.len(),
{
    if ts.len() == 0 {
        Some(Seq::empty())
    } else if ts.len() == 1 {
        quoted(ts[0])
    } else {
        match (quoted_list(ts.drop_last()), quoted(ts.last())) {
            (Some(a), Some(b)) => Some(a + ", "@ + b),
            _ => None,
        }
    }
}

/// The message of a parse error: what was found and what was expected.
pub open spec fn parse_message(found: Option<Token>, expected: Seq<Token>) -> Option<Seq<char>> {
    let f = match found {
        Some(t) => quoted(t),
        None => Some("end of input"@),
    };
    match f {
        Some(ft) => if expected.len() == 0 {
            Some("unexpected "@ + ft)
        } else {
            match quoted_list(expected) {
                Some(el) => Some("unexpected "@ + ft + ", expected "@ + el),
                None => None,
            }
        },
        None => None,
    }
}

fn quote_token<H: Host>(t: &Token, host: &H) -> (r: String)
    ensures
        quoted(*t) matches Some(x) ==> r@ == x,
{
    let mut r = string_of("`");
    let x = token_text(t, host);
    push_str(&mut r, x.as_str());
    push_str(&mut r, "`");
    r
}

impl ParseError {
    /// The message of the error, as it is reported.
    pub fn message<H: Host>(&self, host: &H) -> (r: String)
        ensures
            parse_message(self.found, self.expected@) matches Some(x) ==> r@ == x,
    {
        let mut msg = string_of("unexpected ");
        match &self.found {
            Some(t) => {
                let q = quote_token(t, host);
                push_str(&mut msg, q.as_str());
            },
            None => push_str(&mut msg, "end of input"),
        }
        if self.expected.len() > 0 {
            push_str(&mut msg, ", expected ");
            let ghost head = msg@;
            let mut i: usize = 0;
            while i < self.expected.len()
                invariant
                    0 <= i <= self.expected@.len(),
                    self.expected@.len() > 0,
                    i == 0 ==> msg@ == head,
                    i > 0 ==> (quoted_list(self.expected@.take(i as int)) matches Some(l)
                        ==> msg@ == head + l),
                decreases self.expected@.len() - i,
            {
                let ghost prev = msg@;
                if i > 0 {
                    push_str(&mut msg, ", ");
                }
                let q = quote_token(&self.expected[i], host);
                push_str(&mut msg, q.as_str());
                proof {
                    let tk = self.expected@.take(i + 1);
                    assert(tk.drop_last() =~= self.expected@.take(i as int));
                    assert(tk.last() == self.expected@[i as int]);
                    if i == 0 {
                        assert(tk.len() == 1);
                        assert(tk[0] == self.expected@[0]);
                    }
                }
                i = i + 1;
            }
            assert(self.expected@.take(self.expected@.len() as int) =~= self.expected@);
        }
        msg
    }
}

// ── Evaluation errors ─────────────────────────────────────────────────────────

/// The message of an evaluation error; `None` for a type error whose
/// message the host writes.
pub open spec fn err_message(e: SErr) -> Option<Seq<char>> {
    match e {
        SErr::Undefined(s) => Some("undefined variable: "@ + s),
        SErr::TypeError(Some(s)) => Some("type error: "@ + s),
        SErr::TypeError(None) => None,
        SErr::NonExhaustiveMatch => Some("non-exhaustive match"@),
        SErr::DivisionByZero => Some("division by zero"@),
        SErr::Overflow => Some("integer overflow"@),
        SErr::Arity { expected, got } => Some(
            "arity error: expected "@ + nat_text(expected as nat) + " args, got "@ + nat_text(
                got as nat,
            ),
        ),
        SErr::DepthExceeded => Some("evaluation nested too deeply"@),
    }
}

impl EvalError {
    /// The message of the error.
    pub fn message(&self) -> (r: String)
        ensures
            err_message(err_v(*self)) == Some(r@),
    {
        match self {
            EvalError::Undefined(s) => {
                let mut r = string_of("undefined variable: ");
                push_str(&mut r, s.as_str());
                r
            },
            EvalError::TypeError(s) => {
                let mut r = string_of("type error: ");
                push_str(&mut r, s.as_str());
                r
            },
            EvalError::NonExhaustiveMatch => string_of("non-exhaustive match"),
            EvalError::DivisionByZero => string_of("division by zero"),
            EvalError::Overflow => string_of("integer overflow"),
            EvalError::Arity { expected, got } => {
                let mut r = string_of("arity error: expected ");
                let a = nat_string(*expected as u64);
                push_str(&mut r, a.as_str());
                push_str(&mut r, " args, got ");
                let b = nat_string(*got as u64);
                push_str(&mut r, b.as_str());
                r
            },
            EvalError::DepthExceeded => string_of("evaluation nested too deeply"),
        }
    }
}

// ── Lexer errors ──────────────────────────────────────────────────────────────

/// The line reported for a lexer error.
pub open spec fn lex_error_text(span: Span) -> Seq<char> {
    "lexer error at "@ + nat_text(span.start as nat) + ".."@ + nat_text(span.end as nat)
}

/// The line reported for a lexer error at `span`.
pub fn lex_error_line(span: &Span) -> (r: String)
    ensures
        r@ == lex_error_text(*span),
{
    let mut r = string_of("lexer error at ");
    let a = nat_string(span.start as u64);
    push_str(&mut r, a.as_str());
    push_str(&mut r, "..");
    let b = nat_string(span.end as u64);
    push_str(&mut r, b.as_str());
    r
}

// ── Laws ──────────────────────────────────────────────────────────────────────

/// A keyword, operator or punctuation token: one whose text is fixed.
pub open spec fn fixed_token(t: Token) -> bool {
    !(t is Int || t is Float || t is Str || t is Ident || t is TypeIdent || t is Newline || t is Indent
        || t is Dedent || t is RawNewline || t is Comment)
}

/// Lexing the text of a keyword gives the keyword back, as one lexeme that
/// spans the whole text.
#[verifier::rlimit(50)]
proof fn keyword_lexes_back(t: Token)
    requires
        t is True || t is False || t is Fn || t is Async || t is Match || t is Let || t is In || t is If || t is Then || t is Else || t is Type || t is Use || t is When,
    ensures
        tok_text(t) matches Some(x) && lexeme(x, 0) == (Some(LexTok::Plain(t)), x.len() as int) && x.len() > 0
            && !is_space(x[0]),
{
    reveal_strlit("true");
    reveal_strlit("false");
    reveal_strlit("fn");
    reveal_strlit("async");
    reveal_strlit("match");
    reveal_strlit("let");
    reveal_strlit("in");
    reveal_strlit("if");
    reveal_strlit("then");
    reveal_strlit("else");
    reveal_strlit("type");
    reveal_strlit("use");
    reveal_strlit("when");
    reveal_with_fuel(word_end, 7);
    let x = tok_text(t)->0;
    assert(x.subrange(0, x.len() as int) =~= x);
}

/// Lexing the text of an operator or punctuation token gives the token
/// back, as one lexeme that spans the whole text.
#[verifier::rlimit(50)]
proof fn symbol_lexes_back(t: Token)
    requires
        fixed_token(t),
        !(t is True || t is False || t is Fn || t is Async || t is Match || t is Let || t is In || t is If || t is Then || t is Else || t is Type || t is Use || t is When),
    ensures
        tok_text(t) matches Some(x) && lexeme(x, 0) == (Some(LexTok::Plain(t)), x.len() as int) && x.len() > 0
            && !is_space(x[0]),
{
    reveal_strlit("|>");
    reveal_strlit("<|");
    reveal_strlit(">>");
    reveal_strlit("::");
    reveal_strlit("->");
    reveal_strlit("<-");
    reveal_strlit("=>");
    reveal_strlit("==");
    reveal_strlit("!=");
    reveal_strlit("<=");
    reveal_strlit(">=");
    reveal_strlit("&&");
    reveal_strlit("||");
    reveal_strlit("..");
    reveal_strlit(".");
    reveal_strlit("=");
    reveal_strlit("+");
    reveal_strlit("-");
    reveal_strlit("*");
    reveal_strlit("/");
    reveal_strlit("%");
    reveal_strlit("<");
    reveal_strlit(">");
    reveal_strlit("!");
    reveal_strlit("\\");
    reveal_strlit("|");
    reveal_strlit(",");
    reveal_strlit(":");
    reveal_strlit("(");
    reveal_strlit(")");
    reveal_strlit("[");
    reveal_strlit("]");
    reveal_strlit("{");
    reveal_strlit("}");
}

/// Lexing the text of a keyword, operator or punctuation token gives the
/// token back, as one lexeme that spans the whole text.
pub proof fn fixed_token_lexes_back(t: Token)
    requires
        fixed_token(t),
    ensures
        tok_text(t) matches Some(x) && lexeme(x, 0) == (Some(LexTok::Plain(t)), x.len() as int) && x.len() > 0
            && !is_space(x[0]),
{
    if t is True || t is False || t is Fn || t is Async || t is Match || t is Let || t is In || t is If || t is Then || t is Else || t is Type || t is Use || t is When {
        keyword_lexes_back(t);
    } else {
        symbol_lexes_back(t);
    }
}

/// A run of identifier characters reaches the end of the text.
proof fn word_end_at_end(cs: Seq<char>, i: int)
    requires
        0 <= i <= cs.len(),
        forall|j: int| i <= j < cs.len() ==> is_word(#[trigger] cs[j]),
    ensures
        word_end(cs, i) == cs.len(),
    decreases cs.len() - i,
{
    if i < cs.len() {
        word_end_at_end(cs, i + 1);
    }
}

/// `quote_at` stops at the first `"` from `i` on.
proof fn quote_at_stops(cs: Seq<char>, i: int, n: int)
    requires
        0 <= i <= n < cs.len(),
        cs[n] == '"',
        forall|j: int| i <= j < n ==> #[trigger] cs[j] != '"',
    ensures
        quote_at(cs, i) == n,
    decreases n - i,
{
    if i < n {
        quote_at_stops(cs, i + 1, n);
    }
}

/// Lexing the text of an identifier (a lower-case letter or `_`, then
/// identifier characters, and no keyword) or of a type identifier (an
/// upper-case letter, then identifier characters) gives it back, as one
/// lexeme that spans the whole text.
pub proof fn names_lex_back(s: Seq<char>)
    requires
        s.len() > 0,
        forall|j: int| 0 <= j < s.len() ==> is_word(#[trigger] s[j]),
    ensures
        (is_lower(s[0]) || s[0] == '_') && keyword(s) is None ==> lexeme(s, 0) == (
            Some(LexTok::Ident(s)),
            s.len() as int,
        ),
        is_upper(s[0]) ==> lexeme(s, 0) == (Some(LexTok::TypeIdent(s)), s.len() as int),
{
    word_end_at_end(s, 1);
    assert(s.subrange(0, s.len() as int) =~= s);
}

/// Lexing the text of a string literal whose contents hold no `"` gives the
/// contents back, as one lexeme that spans the whole text.
pub proof fn string_lexes_back(s: Seq<char>)
    requires
        forall|j: int| 0 <= j < s.len() ==> #[trigger] s[j] != '"',
    ensures
        lexeme("\""@ + s + "\""@, 0) == (Some(LexTok::Str(s)), s.len() as int + 2),
{
    reveal_strlit("\"");
    let cs = "\""@ + s + "\""@;
    let n: int = s.len() as int + 1;
    assert forall|j: int| 1 <= j < n implies #[trigger] cs[j] != '"' by {
        assert(cs[j] == s[j - 1]);
    }
    quote_at_stops(cs, 1, n);
    assert(cs.subrange(1, n) =~= s);
}

/// A run of digits reaches the end of the text.
proof fn digits_end_at_end(cs: Seq<char>, i: int)
    requires
        0 <= i <= cs.len(),
        forall|j: int| i <= j < cs.len() ==> is_digit(#[trigger] cs[j]),
    ensures
        digits_end(cs, i) == cs.len(),
    decreases cs.len() - i,
{
    if i < cs.len() {
        digits_end_at_end(cs, i + 1);
    }
}

/// The decimal text of `n` is digits, whose value is `n`.
proof fn nat_text_digits(n: nat)
    ensures
        nat_text(n).len() > 0,
        forall|j: int| 0 <= j < nat_text(n).len() ==> is_digit(#[trigger] nat_text(n)[j]),
        digits_value(nat_text(n)) == n,
    decreases n,
{
    let d = (n % 10) as int;
    assert((digit_char(d) as u32) - 48 == d && is_digit(digit_char(d))) by {
        assert(0 <= d < 10);
    }
    if n >= 10 {
        nat_text_digits(n / 10);
        let s = nat_text(n / 10);
        assert(nat_text(n).drop_last() =~= s);
        assert(nat_text(n).last() == digit_char(d));
        assert(forall|j: int| 0 <= j < s.len() ==> #[trigger] nat_text(n)[j] == s[j]);
        assert(digits_value(nat_text(n)) == digits_value(s) * 10 + d);
        assert((n / 10) * 10 + n % 10 == n) by (nonlinear_arith);
        assert(digits_value(s) * 10 + d == n);
    } else {
        assert(nat_text(n).drop_last() =~= Seq::<char>::empty());
        assert(nat_text(n).last() == digit_char(d));
        assert(digits_value(Seq::<char>::empty()) == 0);
        assert(digits_value(nat_text(n)) == digits_value(nat_text(n).drop_last()) * 10 + d);
        assert(d == n);
    }
}

/// Lexing the text of a non-negative integer gives it back, as one lexeme
/// that spans the whole text. (A negative one is written with a leading
/// `-`, which lexes as `Minus`.)
pub proof fn int_lexes_back(n: i64)
    requires
        n >= 0,
    ensures
        tok_text(Token::Int(n)) matches Some(x) && lexeme(x, 0) == (Some(LexTok::Int(n)), x.len() as int),
{
    let x = nat_text(n as nat);
    nat_text_digits(n as nat);
    digits_end_at_end(x, 0);
    assert(x.subrange(0, x.len() as int) =~= x);
}

/// The tokens whose text lexes back to them: keywords, operators and
/// punctuation; integers that are not negative; strings without a `"`;
/// identifiers (a lower-case letter or `_`, then identifier characters, and
/// no keyword); and type identifiers (an upper-case letter, then identifier
/// characters).
pub open spec fn lexes_back(t: Token) -> bool {
    match t {
        Token::Int(n) => n >= 0,
        Token::Float(_) => false,
        Token::Str(s) => forall|j: int| 0 <= j < s@.len() ==> #[trigger] s@[j] != '"',
        Token::Ident(s) => s@.len() > 0 && (is_lower(s@[0]) || s@[0] == '_') && (forall|j: int|
            0 <= j < s@.len() ==> is_word(#[trigger] s@[j])) && keyword(s@) is None,
        Token::TypeIdent(s) => s@.len() > 0 && is_upper(s@[0]) && (forall|j: int|
            0 <= j < s@.len() ==> is_word(#[trigger] s@[j])),
        _ => fixed_token(t),
    }
}

/// The lexeme a token is lexed from.
pub open spec fn lex_of(t: Token) -> LexTok {
    match t {
        Token::Int(n) => LexTok::Int(n),
        Token::Str(s) => LexTok::Str(s@),
        Token::Ident(s) => LexTok::Ident(s@),
        Token::TypeIdent(s) => LexTok::TypeIdent(s@),
        _ => LexTok::Plain(t),
    }
}

/// Lexing the text of a token gives the token back, as the one token of the
/// text, spanning all of it, and the layout pass keeps it as it is; so `lex`
/// answers that one token (see its contract). This holds wherever the
/// token's text is its spelling (see `lexes_back`).
pub proof fn token_text_lexes_back(t: Token)
    requires
        lexes_back(t),
    ensures
        tok_agrees(t, lex_of(t)),
        tok_text(t) matches Some(x) && lex_tokens(x) == seq![(lex_of(t), bspan(x, 0, x.len() as int))],
        lex_errors(tok_text(t)->0).len() == 0,
        forall|raw: Seq<(Token, Span)>|
            #![trigger toks_agree(raw, lex_tokens(tok_text(t)->0))]
            toks_agree(raw, lex_tokens(tok_text(t)->0)) ==> raw.len() == 1 && layout(raw) == raw,
{
    let x = tok_text(t)->0;
    match t {
        Token::Int(n) => {
            int_lexes_back(n);
            nat_text_digits(n as nat);
        },
        Token::Str(s) => {
            string_lexes_back(s@);
            reveal_strlit("\"");
        },
        Token::Ident(s) => names_lex_back(s@),
        Token::TypeIdent(s) => names_lex_back(s@),
        _ => fixed_token_lexes_back(t),
    }
    single_lexeme(x, lex_of(t));
    assert forall|raw: Seq<(Token, Span)>| toks_agree(raw, lex_tokens(x)) implies raw.len() == 1 && layout(raw)
        == raw by {
        assert(tok_agrees(raw[0].0, lex_tokens(x)[0].0));
        assert(!(raw[0].0 is RawNewline) && !(raw[0].0 is Comment));
        assert(dedents(0, eof_span(raw)) =~= Seq::<(Token, Span)>::empty());
        assert(layout_from(raw, 1, seq![0usize]) == dedents(0, eof_span(raw)));
        assert(layout(raw) =~= raw);
    }
}

/// A text that is one lexeme from its first character to its end is one
/// token spanning all of it, and no error.
proof fn single_lexeme(x: Seq<char>, lt: LexTok)
    requires
        x.len() > 0,
        !is_space(x[0]),
        lexeme(x, 0) == (Some(lt), x.len() as int),
    ensures
        lex_tokens(x) == seq![(lt, bspan(x, 0, x.len() as int))],
        lex_errors(x).len() == 0,
{
    assert(lexemes(x, x.len() as int) == Seq::<(Option<LexTok>, int, int)>::empty());
    assert(lexemes(x, 0) =~= seq![(Some(lt), 0int, x.len() as int)]);
    let ls = lexemes(x, 0);
    assert(ls.drop_last() =~= Seq::<(Option<LexTok>, int, int)>::empty());
    assert(good_of(x, ls.drop_last()) == Seq::<(LexTok, Span)>::empty());
    assert(ls.last() == (Some(lt), 0int, x.len() as int));
    assert(good_of(x, ls) =~= seq![(lt, bspan(x, 0, x.len() as int))]);
    assert(bad_of(x, ls.drop_last()) == Seq::<Span>::empty());
    assert(bad_of(x, ls) =~= Seq::<Span>::empty());
}

/// An ASCII letter of either case, a decimal digit or `_`, by character
/// code: the characters an identifier may continue with.
pub open spec fn ident_char(c: char) -> bool {
    (48 <= c as u32 <= 57) || (65 <= c as u32 <= 90) || (97 <= c as u32 <= 122) || c == '_'
}

/// An identifier runs on through letters of either case, digits and `_`: a
/// text made of a lower-case letter or `_` and then such characters, and no
/// keyword, lexes to exactly one `Ident` that carries the whole text; one
/// that starts with an upper-case letter lexes to exactly one `TypeIdent`.
pub proof fn identifiers_lex_whole(s: Seq<char>)
    requires
        s.len() > 0,
        forall|j: int| 0 <= j < s.len() ==> ident_char(#[trigger] s[j]),
    ensures
        (97 <= s[0] as u32 <= 122 || s[0] == '_') && keyword(s) is None ==> lex_tokens(s) == seq![
            (LexTok::Ident(s), bspan(s, 0, s.len() as int)),
        ] && lex_errors(s).len() == 0,
        65 <= s[0] as u32 <= 90 ==> lex_tokens(s) == seq![(LexTok::TypeIdent(s), bspan(s, 0, s.len() as int))]
            && lex_errors(s).len() == 0,
{
    assert forall|j: int| 0 <= j < s.len() implies is_word(#[trigger] s[j]) by {
        assert(ident_char(s[j]));
    }
    names_lex_back(s);
    assert(!is_space(s[0])) by {
        assert(ident_char(s[0]));
    }
    if (97 <= s[0] as u32 <= 122 || s[0] == '_') && keyword(s) is None {
        single_lexeme(s, LexTok::Ident(s));
    }
    if 65 <= s[0] as u32 <= 90 {
        single_lexeme(s, LexTok::TypeIdent(s));
    }
}

} // verus!
