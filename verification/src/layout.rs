//! The layout pass: Python-style indentation to `Newline`, `Indent` and
//! `Dedent` tokens.
//!
//! The column of a token is its byte offset from the start of its line. At
//! each raw newline the pass looks ahead past blank lines and lines that hold
//! only a comment to the next token, and compares its column with the stack
//! of open indentation levels: deeper opens a level (`Indent`), shallower
//! closes every level deeper than it (`Dedent` each). Comments are dropped,
//! and the levels still open at the end are closed.

use vstd::prelude::*;

use crate::token::{copy_span, Span, Token};

verus! {

// ══ The model ════════════════════════════════════════════════════════════════

/// Looking ahead from index `j`, past raw newlines and comments that stand
/// on their own line: the index of the next other token, and the byte offset
/// at which its line starts (`nls` until a newline is passed).
pub open spec fn skip_blank(ts: Seq<(Token, Span)>, j: int, nls: usize) -> (int, usize)
    decreases ts.len() - j,
{
    if j < 0 || j >= ts.len() {
        (j, nls)
    } else if ts[j].0 is RawNewline {
        skip_blank(ts, j + 1, ts[j].1.end)
    } else if ts[j].0 is Comment {
        if j + 1 < ts.len() && ts[j + 1].0 is RawNewline {
            skip_blank(ts, j + 2, ts[j + 1].1.end)
        } else {
            skip_blank(ts, j + 1, nls)
        }
    } else {
        (j, nls)
    }
}

/// The column of the token at `j` on a line that starts at byte `nls`; 0 at
/// the end.
pub open spec fn col_at(ts: Seq<(Token, Span)>, j: int, nls: usize) -> usize {
    if 0 <= j < ts.len() {
        if ts[j].1.start >= nls {
            (ts[j].1.start - nls) as usize
        } else {
            0
        }
    } else {
        0
    }
}

/// How many levels at the top of the stack are deeper than `col`.
pub open spec fn pop_count(stack: Seq<usize>, col: usize) -> nat
    decreases stack.len(),
{
    if stack.len() == 0 || stack.last() <= col {
        0
    } else {
        1 + pop_count(stack.drop_last(), col)
    }
}

/// `k` dedents, each with the given span.
pub open spec fn dedents(k: nat, span: Span) -> Seq<(Token, Span)> {
    Seq::new(k, |x: int| (Token::Dedent, span))
}

/// The empty span at the end of the last token.
pub open spec fn eof_span(ts: Seq<(Token, Span)>) -> Span {
    if ts.len() > 0 {
        std::ops::Range { start: ts.last().1.end, end: ts.last().1.end }
    } else {
        std::ops::Range { start: 0, end: 0 }
    }
}

/// The layout of the tokens from `i` on, with `stack` the open levels.
pub open spec fn layout_from(ts: Seq<(Token, Span)>, i: int, stack: Seq<usize>) -> Seq<
    (Token, Span),
>
    decreases ts.len() - i,
{
    if i < 0 || i >= ts.len() {
        dedents((stack.len() - 1) as nat, eof_span(ts))
    } else {
        let span = ts[i].1;
        if ts[i].0 is RawNewline {
            let (j, nls) = skip_blank(ts, i + 1, span.end);
            let col = col_at(ts, j, nls);
            if col > stack.last() {
                seq![(Token::Newline, span), (Token::Indent, span)] + layout_from(
                    ts,
                    i + 1,
                    stack.push(col),
                )
            } else {
                let k = pop_count(stack, col);
                seq![(Token::Newline, span)] + dedents(k, span) + layout_from(
                    ts,
                    i + 1,
                    stack.take(stack.len() - k),
                )
            }
        } else if ts[i].0 is Comment {
            layout_from(ts, i + 1, stack)
        } else {
            seq![ts[i]] + layout_from(ts, i + 1, stack)
        }
    }
}

/// The layout of a token stream.
pub open spec fn layout(ts: Seq<(Token, Span)>) -> Seq<(Token, Span)> {
    layout_from(ts, 0, seq![0usize])
}

/// A stack of levels whose bottom is column 0.
pub open spec fn stack_wf(stack: Seq<usize>) -> bool {
    stack.len() >= 1 && stack[0] == 0
}

proof fn lemma_pop_count(stack: Seq<usize>, col: usize)
    requires
        stack_wf(stack),
    ensures
        pop_count(stack, col) < stack.len(),
        stack_wf(stack.take(stack.len() - pop_count(stack, col))),
        pop_count(stack, col) < stack.len() ==> stack.take(stack.len() - pop_count(stack, col)).last()
            <= col,
    decreases stack.len(),
{
    if stack.len() > 1 && stack.last() > col {
        lemma_pop_count(stack.drop_last(), col);
        assert(stack.take(stack.len() - pop_count(stack, col)) =~= stack.drop_last().take(
            stack.drop_last().len() - pop_count(stack.drop_last(), col),
        ));
    } else {
        assert(stack.take(stack.len() as int) =~= stack);
    }
}

// ══ The pass ═════════════════════════════════════════════════════════════════

/// Converts a flat token stream (with raw newlines) into a layout-aware
/// stream (`Newline`, `Indent`, `Dedent`) by Python-style indentation rules.
pub fn apply_layout(tokens: Vec<(Token, Span)>) -> (r: Vec<(Token, Span)>)
    ensures
        r@ == layout(tokens@),
{
    let ghost ts = tokens@;
    let n = tokens.len();
    let mut out: Vec<(Token, Span)> = Vec::new();
    let mut stack: Vec<usize> = Vec::new();
    stack.push(0);
    let mut i: usize = 0;
    assert(out@ + layout_from(ts, 0, stack@) =~= layout(ts));
    while i < n
        invariant
            ts == tokens@,
            n == ts.len(),
            i <= n,
            stack_wf(stack@),
            out@ + layout_from(ts, i as int, stack@) == layout(ts),
        decreases n - i,
    {
        let span = copy_span(&tokens[i].1);
        match &tokens[i].0 {
            Token::RawNewline => {
                let (j, nls) = skip_blank_x(&tokens, i + 1, span.end);
                let col = if j < n {
                    if tokens[j].1.start >= nls {
                        tokens[j].1.start - nls
                    } else {
                        0
                    }
                } else {
                    0
                };
                let ghost before = out@;
                let ghost st = stack@;
                out.push((Token::Newline, copy_span(&span)));
                let top = stack[stack.len() - 1];
                if col > top {
                    stack.push(col);
                    out.push((Token::Indent, copy_span(&span)));
                    assert(out@ =~= before + seq![(Token::Newline, span), (Token::Indent, span)]);
                } else {
                    proof {
                        lemma_pop_count(st, col);
                    }
                    let ghost k = pop_count(st, col);
                    let ghost mid = out@;
                    let slen = stack.len();
                    let mut p: usize = 0;
                    while stack[stack.len() - 1] > col
                        invariant
                            stack_wf(st),
                            k == pop_count(st, col),
                            k < st.len(),
                            st.len() == slen,
                            p <= k,
                            stack@ == st.take(st.len() - p),
                            pop_count(stack@, col) == k - p,
                            out@ == mid + dedents(p as nat, span),
                        decreases stack@.len(),
                    {
                        assert(pop_count(stack@, col) > 0);
                        stack.pop();
                        out.push((Token::Dedent, copy_span(&span)));
                        p = p + 1;
                        assert(stack@ =~= st.take(st.len() - p));
                        assert(out@ =~= mid + dedents(p as nat, span));
                    }
                    proof {
                        if p < k {
                            assert(pop_count(stack@, col) > 0);
                        }
                    }
                    assert(out@ =~= before + (seq![(Token::Newline, span)] + dedents(k, span)));
                }
                i = i + 1;
            },
            Token::Comment => {
                i = i + 1;
            },
            _ => {
                let ghost before = out@;
                out.push((tokens[i].0.duplicate(), span));
                assert(out@ =~= before + seq![ts[i as int]]);
                i = i + 1;
            },
        }
    }
    let eof = if n > 0 {
        std::ops::Range { start: tokens[n - 1].1.end, end: tokens[n - 1].1.end }
    } else {
        std::ops::Range { start: 0, end: 0 }
    };
    let ghost mid = out@;
    let ghost st = stack@;
    while stack.len() > 1
        invariant
            stack_wf(stack@),
            stack@.len() <= st.len(),
            out@ == mid + dedents((st.len() - stack@.len()) as nat, eof),
        decreases stack@.len(),
    {
        stack.pop();
        out.push((Token::Dedent, copy_span(&eof)));
        assert(out@ =~= mid + dedents((st.len() - stack@.len()) as nat, eof));
    }
    assert(out@ =~= layout(ts));
    out
}

/// Looks ahead from `j` past raw newlines and comments on their own line.
fn skip_blank_x(tokens: &Vec<(Token, Span)>, j: usize, nls: usize) -> (r: (usize, usize))
    requires
        j <= tokens@.len() + 1,
    ensures
        r.0 == skip_blank(tokens@, j as int, nls).0,
        r.1 == skip_blank(tokens@, j as int, nls).1,
        r.0 >= j,
{
    let n = tokens.len();
    let mut k = j;
    let mut start = nls;
    while k < n
        invariant
            j <= k <= n + 1,
            n == tokens@.len(),
            skip_blank(tokens@, j as int, nls) == skip_blank(tokens@, k as int, start),
        decreases n + 1 - k,
    {
        match &tokens[k].0 {
            Token::RawNewline => {
                start = tokens[k].1.end;
                k = k + 1;
            },
            Token::Comment => {
                if k + 1 < n && is_raw_newline(&tokens[k + 1].0) {
                    start = tokens[k + 1].1.end;
                    k = k + 2;
                } else {
                    k = k + 1;
                }
            },
            _ => {
                return (k, start);
            },
        }
    }
    (k, start)
}

fn is_raw_newline(t: &Token) -> (r: bool)
    ensures
        r == (*t is RawNewline),
{
    match t {
        Token::RawNewline => true,
        _ => false,
    }
}

// ══ Laws ═════════════════════════════════════════════════════════════════════

/// A token that only the layout pass makes or removes.
pub open spec fn is_layout_token(t: Token) -> bool {
    t is RawNewline || t is Comment || t is Newline || t is Indent || t is Dedent
}

/// The tokens other than layout tokens, in order.
pub open spec fn content(s: Seq<(Token, Span)>) -> Seq<(Token, Span)>
    decreases s.len(),
{
    if s.len() == 0 {
        seq![]
    } else if is_layout_token(s[0].0) {
        content(s.drop_first())
    } else {
        seq![s[0]] + content(s.drop_first())
    }
}

/// How many of the tokens are `t`.
pub open spec fn count_of(s: Seq<(Token, Span)>, t: Token) -> nat
    decreases s.len(),
{
    if s.len() == 0 {
        0
    } else {
        (if s[0].0 == t {
            1nat
        } else {
            0nat
        }) + count_of(s.drop_first(), t)
    }
}

proof fn lemma_content_concat(a: Seq<(Token, Span)>, b: Seq<(Token, Span)>)
    ensures
        content(a + b) == content(a) + content(b),
    decreases a.len(),
{
    if a.len() == 0 {
        assert(a + b =~= b);
        assert(content(a) + content(b) =~= content(b));
    } else {
        assert((a + b).drop_first() =~= a.drop_first() + b);
        assert((a + b)[0] == a[0]);
        lemma_content_concat(a.drop_first(), b);
        if !is_layout_token(a[0].0) {
            assert(seq![a[0]] + (content(a.drop_first()) + content(b)) =~= (seq![a[0]]
                + content(a.drop_first())) + content(b));
        }
    }
}

proof fn lemma_count_concat(a: Seq<(Token, Span)>, b: Seq<(Token, Span)>, t: Token)
    ensures
        count_of(a + b, t) == count_of(a, t) + count_of(b, t),
    decreases a.len(),
{
    if a.len() == 0 {
        assert(a + b =~= b);
    } else {
        assert((a + b).drop_first() =~= a.drop_first() + b);
        assert((a + b)[0] == a[0]);
        lemma_count_concat(a.drop_first(), b, t);
    }
}

proof fn lemma_dedents(k: nat, span: Span, t: Token)
    ensures
        content(dedents(k, span)) == Seq::<(Token, Span)>::empty(),
        count_of(dedents(k, span), t) == if t == Token::Dedent {
            k
        } else {
            0
        },
    decreases k,
{
    if k > 0 {
        lemma_dedents((k - 1) as nat, span, t);
        assert(dedents(k, span).drop_first() =~= dedents((k - 1) as nat, span));
    } else {
        assert(dedents(k, span) =~= Seq::<(Token, Span)>::empty());
    }
}

proof fn lemma_count_one(x: (Token, Span), t: Token)
    ensures
        count_of(seq![x], t) == if x.0 == t {
            1nat
        } else {
            0nat
        },
        content(seq![x]) == if is_layout_token(x.0) {
            Seq::<(Token, Span)>::empty()
        } else {
            seq![x]
        },
{
    let e = Seq::<(Token, Span)>::empty();
    assert(seq![x].drop_first() =~= e);
    assert(seq![x][0] == x);
    assert(count_of(e, t) == 0);
    assert(content(e) == e);
    assert(seq![x] + e =~= seq![x]);
}

proof fn lemma_layout_from(ts: Seq<(Token, Span)>, i: int, stack: Seq<usize>, t: Token)
    requires
        0 <= i <= ts.len(),
        stack_wf(stack),
    ensures
        content(layout_from(ts, i, stack)) == content(ts.skip(i)),
        count_of(layout_from(ts, i, stack), Token::RawNewline) == 0,
        count_of(layout_from(ts, i, stack), Token::Comment) == 0,
        count_of(layout_from(ts, i, stack), Token::Newline) == count_of(ts.skip(i), Token::RawNewline)
            + count_of(ts.skip(i), Token::Newline),
        count_of(layout_from(ts, i, stack), Token::Indent) + count_of(ts.skip(i), Token::Dedent) + (
        stack.len() - 1) == count_of(layout_from(ts, i, stack), Token::Dedent) + count_of(
            ts.skip(i),
            Token::Indent,
        ),
        !is_layout_token(t) ==> count_of(layout_from(ts, i, stack), t) == count_of(ts.skip(i), t),
    decreases ts.len() - i,
{
    let out = layout_from(ts, i, stack);
    if i >= ts.len() {
        let k = (stack.len() - 1) as nat;
        lemma_dedents(k, eof_span(ts), Token::RawNewline);
        lemma_dedents(k, eof_span(ts), Token::Comment);
        lemma_dedents(k, eof_span(ts), Token::Newline);
        lemma_dedents(k, eof_span(ts), Token::Indent);
        lemma_dedents(k, eof_span(ts), Token::Dedent);
        lemma_dedents(k, eof_span(ts), t);
        assert(ts.skip(i) =~= Seq::<(Token, Span)>::empty());
    } else {
        let x = ts[i];
        let span = x.1;
        assert(ts.skip(i) =~= seq![x] + ts.skip(i + 1));
        let toks = seq![Token::RawNewline, Token::Comment, Token::Newline, Token::Indent, Token::Dedent, t];
        assert forall|m: int| 0 <= m < 6 implies #[trigger] count_of(ts.skip(i), toks[m]) == count_of(
            seq![x],
            toks[m],
        ) + count_of(ts.skip(i + 1), toks[m]) by {
            lemma_count_concat(seq![x], ts.skip(i + 1), toks[m]);
        }
        assert(count_of(ts.skip(i), toks[0]) == count_of(seq![x], toks[0]) + count_of(ts.skip(i + 1), toks[0]));
        assert(count_of(ts.skip(i), toks[1]) == count_of(seq![x], toks[1]) + count_of(ts.skip(i + 1), toks[1]));
        assert(count_of(ts.skip(i), toks[2]) == count_of(seq![x], toks[2]) + count_of(ts.skip(i + 1), toks[2]));
        assert(count_of(ts.skip(i), toks[3]) == count_of(seq![x], toks[3]) + count_of(ts.skip(i + 1), toks[3]));
        assert(count_of(ts.skip(i), toks[4]) == count_of(seq![x], toks[4]) + count_of(ts.skip(i + 1), toks[4]));
        assert(count_of(ts.skip(i), toks[5]) == count_of(seq![x], toks[5]) + count_of(ts.skip(i + 1), toks[5]));
        lemma_content_concat(seq![x], ts.skip(i + 1));
        lemma_count_one(x, Token::RawNewline);
        lemma_count_one(x, Token::Comment);
        lemma_count_one(x, Token::Newline);
        lemma_count_one(x, Token::Indent);
        lemma_count_one(x, Token::Dedent);
        lemma_count_one(x, t);
        if x.0 is RawNewline {
            let (j, nls) = skip_blank(ts, i + 1, span.end);
            let col = col_at(ts, j, nls);
            if col > stack.last() {
                let head = seq![(Token::Newline, span), (Token::Indent, span)];
                lemma_layout_from(ts, i + 1, stack.push(col), t);
                let rest = layout_from(ts, i + 1, stack.push(col));
                assert(out == head + rest);
                lemma_content_concat(head, rest);
                assert(head =~= seq![(Token::Newline, span)] + seq![(Token::Indent, span)]);
                lemma_content_concat(seq![(Token::Newline, span)], seq![(Token::Indent, span)]);
                lemma_count_one((Token::Newline, span), Token::RawNewline);
                lemma_count_one((Token::Newline, span), Token::Comment);
                lemma_count_one((Token::Newline, span), Token::Newline);
                lemma_count_one((Token::Newline, span), Token::Indent);
                lemma_count_one((Token::Newline, span), Token::Dedent);
                lemma_count_one((Token::Newline, span), t);
                lemma_count_one((Token::Indent, span), Token::RawNewline);
                lemma_count_one((Token::Indent, span), Token::Comment);
                lemma_count_one((Token::Indent, span), Token::Newline);
                lemma_count_one((Token::Indent, span), Token::Indent);
                lemma_count_one((Token::Indent, span), Token::Dedent);
                lemma_count_one((Token::Indent, span), t);
                assert forall|m: int| 0 <= m < 6 implies #[trigger] count_of(out, toks[m]) == count_of(
                    seq![(Token::Newline, span)],
                    toks[m],
                ) + count_of(seq![(Token::Indent, span)], toks[m]) + count_of(rest, toks[m]) by {
                    lemma_count_concat(head, rest, toks[m]);
                    lemma_count_concat(seq![(Token::Newline, span)], seq![(Token::Indent, span)], toks[m]);
                }
                assert(count_of(out, toks[0]) == count_of(seq![(Token::Newline, span)], toks[0]) + count_of(seq![(Token::Indent, span)], toks[0]) + count_of(rest, toks[0]));
                assert(count_of(out, toks[1]) == count_of(seq![(Token::Newline, span)], toks[1]) + count_of(seq![(Token::Indent, span)], toks[1]) + count_of(rest, toks[1]));
                assert(count_of(out, toks[2]) == count_of(seq![(Token::Newline, span)], toks[2]) + count_of(seq![(Token::Indent, span)], toks[2]) + count_of(rest, toks[2]));
                assert(count_of(out, toks[3]) == count_of(seq![(Token::Newline, span)], toks[3]) + count_of(seq![(Token::Indent, span)], toks[3]) + count_of(rest, toks[3]));
                assert(count_of(out, toks[4]) == count_of(seq![(Token::Newline, span)], toks[4]) + count_of(seq![(Token::Indent, span)], toks[4]) + count_of(rest, toks[4]));
                assert(count_of(out, toks[5]) == count_of(seq![(Token::Newline, span)], toks[5]) + count_of(seq![(Token::Indent, span)], toks[5]) + count_of(rest, toks[5]));
            } else {
                let k = pop_count(stack, col);
                lemma_pop_count(stack, col);
                let st2 = stack.take(stack.len() - k);
                lemma_layout_from(ts, i + 1, st2, t);
                let rest = layout_from(ts, i + 1, st2);
                let nl = seq![(Token::Newline, span)];
                let dd = dedents(k, span);
                assert(out == nl + dd + rest);
                lemma_content_concat(nl + dd, rest);
                lemma_content_concat(nl, dd);
                lemma_count_one((Token::Newline, span), Token::RawNewline);
                lemma_count_one((Token::Newline, span), Token::Comment);
                lemma_count_one((Token::Newline, span), Token::Newline);
                lemma_count_one((Token::Newline, span), Token::Indent);
                lemma_count_one((Token::Newline, span), Token::Dedent);
                lemma_count_one((Token::Newline, span), t);
                lemma_dedents(k, span, Token::RawNewline);
                lemma_dedents(k, span, Token::Comment);
                lemma_dedents(k, span, Token::Newline);
                lemma_dedents(k, span, Token::Indent);
                lemma_dedents(k, span, Token::Dedent);
                lemma_dedents(k, span, t);
                assert forall|m: int| 0 <= m < 6 implies #[trigger] count_of(out, toks[m]) == count_of(
                    nl,
                    toks[m],
                ) + count_of(dd, toks[m]) + count_of(rest, toks[m]) by {
                    lemma_count_concat(nl + dd, rest, toks[m]);
                    lemma_count_concat(nl, dd, toks[m]);
                }
                assert(count_of(out, toks[0]) == count_of(nl, toks[0]) + count_of(dd, toks[0]) + count_of(rest, toks[0]));
                assert(count_of(out, toks[1]) == count_of(nl, toks[1]) + count_of(dd, toks[1]) + count_of(rest, toks[1]));
                assert(count_of(out, toks[2]) == count_of(nl, toks[2]) + count_of(dd, toks[2]) + count_of(rest, toks[2]));
                assert(count_of(out, toks[3]) == count_of(nl, toks[3]) + count_of(dd, toks[3]) + count_of(rest, toks[3]));
                assert(count_of(out, toks[4]) == count_of(nl, toks[4]) + count_of(dd, toks[4]) + count_of(rest, toks[4]));
                assert(count_of(out, toks[5]) == count_of(nl, toks[5]) + count_of(dd, toks[5]) + count_of(rest, toks[5]));
            }
        } else if x.0 is Comment {
            lemma_layout_from(ts, i + 1, stack, t);
        } else {
            lemma_layout_from(ts, i + 1, stack, t);
            let rest = layout_from(ts, i + 1, stack);
            lemma_content_concat(seq![x], rest);
            assert forall|m: int| 0 <= m < 6 implies #[trigger] count_of(out, toks[m]) == count_of(
                seq![x],
                toks[m],
            ) + count_of(rest, toks[m]) by {
                lemma_count_concat(seq![x], rest, toks[m]);
            }
            assert(count_of(out, toks[0]) == count_of(seq![x], toks[0]) + count_of(rest, toks[0]));
            assert(count_of(out, toks[1]) == count_of(seq![x], toks[1]) + count_of(rest, toks[1]));
            assert(count_of(out, toks[2]) == count_of(seq![x], toks[2]) + count_of(rest, toks[2]));
            assert(count_of(out, toks[3]) == count_of(seq![x], toks[3]) + count_of(rest, toks[3]));
            assert(count_of(out, toks[4]) == count_of(seq![x], toks[4]) + count_of(rest, toks[4]));
            assert(count_of(out, toks[5]) == count_of(seq![x], toks[5]) + count_of(rest, toks[5]));
        }
    }
}

/// The layout pass keeps every token other than layout tokens, in order,
/// and adds or removes nothing else.
pub proof fn layout_keeps_content(ts: Seq<(Token, Span)>)
    ensures
        content(layout(ts)) == content(ts),
        forall|t: Token| !is_layout_token(t) ==> count_of(layout(ts), t) == count_of(ts, t),
{
    assert(ts.skip(0) =~= ts);
    lemma_layout_from(ts, 0, seq![0usize], Token::Newline);
    assert forall|t: Token| !is_layout_token(t) implies count_of(layout(ts), t) == count_of(ts, t) by {
        lemma_layout_from(ts, 0, seq![0usize], t);
    }
}

/// The layout pass leaves no raw newline and no comment, and makes one
/// `Newline` for each raw newline.
pub proof fn layout_resolves_newlines(ts: Seq<(Token, Span)>)
    ensures
        count_of(layout(ts), Token::RawNewline) == 0,
        count_of(layout(ts), Token::Comment) == 0,
        count_of(layout(ts), Token::Newline) == count_of(ts, Token::RawNewline) + count_of(
            ts,
            Token::Newline,
        ),
{
    assert(ts.skip(0) =~= ts);
    lemma_layout_from(ts, 0, seq![0usize], Token::Newline);
}

/// Every indentation level the pass opens it also closes: it adds as many
/// `Indent` tokens as `Dedent` tokens.
pub proof fn layout_balances_indents(ts: Seq<(Token, Span)>)
    ensures
        count_of(layout(ts), Token::Indent) + count_of(ts, Token::Dedent) == count_of(
            layout(ts),
            Token::Dedent,
        ) + count_of(ts, Token::Indent),
{
    assert(ts.skip(0) =~= ts);
    lemma_layout_from(ts, 0, seq![0usize], Token::Newline);
}

/// Whether, in every prefix, the `Dedent` tokens are no more than the
/// `Indent` tokens and `open` levels opened before it.
pub open spec fn nested(s: Seq<(Token, Span)>, open: int) -> bool {
    forall|k: int|
        0 <= k <= s.len() ==> count_of(#[trigger] s.take(k), Token::Dedent) <= count_of(
            s.take(k),
            Token::Indent,
        ) + open
}

proof fn lemma_take_concat(a: Seq<(Token, Span)>, b: Seq<(Token, Span)>, k: int)
    requires
        0 <= k <= a.len() + b.len(),
    ensures
        k <= a.len() ==> (a + b).take(k) == a.take(k),
        k > a.len() ==> (a + b).take(k) == a + b.take(k - a.len()),
{
    if k <= a.len() {
        assert((a + b).take(k) =~= a.take(k));
    } else {
        assert((a + b).take(k) =~= a + b.take(k - a.len()));
    }
}

proof fn lemma_nested_after(head: Seq<(Token, Span)>, rest: Seq<(Token, Span)>, open: int, inner: int)
    requires
        nested(rest, inner),
        nested(head, open),
        inner == open + count_of(head, Token::Indent) - count_of(head, Token::Dedent),
    ensures
        nested(head + rest, open),
{
    let s = head + rest;
    assert forall|k: int| 0 <= k <= s.len() implies count_of(#[trigger] s.take(k), Token::Dedent)
        <= count_of(s.take(k), Token::Indent) + open by {
        lemma_take_concat(head, rest, k);
        if k > head.len() {
            let m = k - head.len();
            assert(rest.take(m) == rest.take(m));
            lemma_count_concat(head, rest.take(m), Token::Indent);
            lemma_count_concat(head, rest.take(m), Token::Dedent);
            assert(count_of(rest.take(m), Token::Dedent) <= count_of(rest.take(m), Token::Indent)
                + inner);
        } else {
            assert(count_of(head.take(k), Token::Dedent) <= count_of(head.take(k), Token::Indent)
                + open);
        }
    }
}

proof fn lemma_dedents_nested(n: nat, span: Span, open: int)
    requires
        n <= open,
    ensures
        nested(dedents(n, span), open),
{
    assert forall|k: int| 0 <= k <= dedents(n, span).len() implies count_of(
        #[trigger] dedents(n, span).take(k),
        Token::Dedent,
    ) <= count_of(dedents(n, span).take(k), Token::Indent) + open by {
        assert(dedents(n, span).take(k) =~= dedents(k as nat, span));
        lemma_dedents(k as nat, span, Token::Dedent);
        lemma_dedents(k as nat, span, Token::Indent);
    }
}

proof fn lemma_small_nested(s: Seq<(Token, Span)>, open: int)
    requires
        open >= 0,
        forall|j: int| 0 <= j < s.len() ==> (#[trigger] s[j]).0 != Token::Dedent,
    ensures
        nested(s, open),
{
    assert forall|k: int| 0 <= k <= s.len() implies count_of(#[trigger] s.take(k), Token::Dedent)
        <= count_of(s.take(k), Token::Indent) + open by {
        assert forall|j: int| 0 <= j < s.take(k).len() implies (#[trigger] s.take(k)[j]).0
            != Token::Dedent by {
            assert(s.take(k)[j] == s[j]);
        }
        lemma_no_count(s.take(k), Token::Dedent);
    }
}

proof fn lemma_no_count(s: Seq<(Token, Span)>, t: Token)
    requires
        forall|j: int| 0 <= j < s.len() ==> (#[trigger] s[j]).0 != t,
    ensures
        count_of(s, t) == 0,
    decreases s.len(),
{
    if s.len() > 0 {
        assert(s[0].0 != t);
        assert forall|j: int| 0 <= j < s.drop_first().len() implies (#[trigger] s.drop_first()[j]).0
            != t by {
            assert(s.drop_first()[j] == s[j + 1]);
        }
        lemma_no_count(s.drop_first(), t);
    }
}

proof fn lemma_layout_nested(ts: Seq<(Token, Span)>, i: int, stack: Seq<usize>)
    requires
        0 <= i <= ts.len(),
        stack_wf(stack),
        forall|j: int| 0 <= j < ts.len() ==> (#[trigger] ts[j]).0 != Token::Indent && ts[j].0
            != Token::Dedent,
    ensures
        nested(layout_from(ts, i, stack), stack.len() - 1),
    decreases ts.len() - i,
{
    let open = stack.len() - 1;
    if i >= ts.len() {
        lemma_dedents_nested((stack.len() - 1) as nat, eof_span(ts), open);
    } else {
        let x = ts[i];
        let span = x.1;
        if x.0 is RawNewline {
            let (j, nls) = skip_blank(ts, i + 1, span.end);
            let col = col_at(ts, j, nls);
            if col > stack.last() {
                let head = seq![(Token::Newline, span), (Token::Indent, span)];
                lemma_layout_nested(ts, i + 1, stack.push(col));
                lemma_small_nested(head, open);
                assert(head =~= seq![(Token::Newline, span)] + seq![(Token::Indent, span)]);
                lemma_count_concat(seq![(Token::Newline, span)], seq![(Token::Indent, span)], Token::Indent);
                lemma_count_concat(seq![(Token::Newline, span)], seq![(Token::Indent, span)], Token::Dedent);
                lemma_count_one((Token::Newline, span), Token::Indent);
                lemma_count_one((Token::Newline, span), Token::Dedent);
                lemma_count_one((Token::Indent, span), Token::Indent);
                lemma_count_one((Token::Indent, span), Token::Dedent);
                lemma_nested_after(head, layout_from(ts, i + 1, stack.push(col)), open, open + 1);
            } else {
                let k = pop_count(stack, col);
                lemma_pop_count(stack, col);
                let st2 = stack.take(stack.len() - k);
                lemma_layout_nested(ts, i + 1, st2);
                let nl = seq![(Token::Newline, span)];
                let dd = dedents(k, span);
                lemma_dedents_nested(k, span, open);
                lemma_small_nested(nl, open);
                lemma_count_one((Token::Newline, span), Token::Indent);
                lemma_count_one((Token::Newline, span), Token::Dedent);
                lemma_dedents(k, span, Token::Indent);
                lemma_dedents(k, span, Token::Dedent);
                lemma_nested_after(dd, layout_from(ts, i + 1, st2), open, open - k);
                lemma_count_concat(dd, layout_from(ts, i + 1, st2), Token::Indent);
                lemma_count_concat(dd, layout_from(ts, i + 1, st2), Token::Dedent);
                lemma_nested_after(nl, dd + layout_from(ts, i + 1, st2), open, open);
                assert(layout_from(ts, i, stack) == nl + dd + layout_from(ts, i + 1, st2));
                assert(nl + dd + layout_from(ts, i + 1, st2) =~= nl + (dd + layout_from(ts, i + 1, st2)));
            }
        } else if x.0 is Comment {
            lemma_layout_nested(ts, i + 1, stack);
        } else {
            lemma_layout_nested(ts, i + 1, stack);
            assert(x.0 != Token::Indent && x.0 != Token::Dedent);
            lemma_small_nested(seq![x], open);
            lemma_count_one(x, Token::Indent);
            lemma_count_one(x, Token::Dedent);
            lemma_nested_after(seq![x], layout_from(ts, i + 1, stack), open, open);
        }
    }
}

/// No indentation level is closed before it is opened: in every prefix of
/// the layout of tokens without `Indent` or `Dedent`, the `Dedent` tokens are
/// no more than the `Indent` tokens.
pub proof fn layout_nests_levels(ts: Seq<(Token, Span)>)
    requires
        forall|j: int| 0 <= j < ts.len() ==> (#[trigger] ts[j]).0 != Token::Indent && ts[j].0
            != Token::Dedent,
    ensures
        nested(layout(ts), 0),
{
    lemma_layout_nested(ts, 0, seq![0usize]);
}

/// Looking past raw newlines up to a token on a line of its own finds that
/// token, on a line that starts where the last of those newlines ends.
proof fn skip_newlines(ts: Seq<(Token, Span)>, k: int, j: int, nls: usize)
    requires
        0 <= k <= j < ts.len(),
        forall|m: int| k <= m < j ==> (#[trigger] ts[m]).0 is RawNewline,
        !(ts[j].0 is RawNewline),
        !(ts[j].0 is Comment),
    ensures
        skip_blank(ts, k, nls) == (j, if k == j {
            nls
        } else {
            ts[j - 1].1.end
        }),
    decreases j - k,
{
    if k < j {
        assert(ts[k].0 is RawNewline);
        skip_newlines(ts, k + 1, j, ts[k].1.end);
    }
}

/// The column of a token is measured from the start of its own line: after
/// a raw newline the pass skips blank lines, writes a `Newline`, and opens a
/// level (`Indent`) exactly when the next token starts deeper, past the end
/// of the last newline before it, than the current level, and closes one
/// (`Dedent`) exactly when it starts shallower. So a blank line
/// between two lines of the same indentation adds a `Newline` and no
/// `Indent` or `Dedent`.
pub proof fn column_from_own_line(ts: Seq<(Token, Span)>, i: int, j: int, stack: Seq<usize>)
    requires
        stack_wf(stack),
        0 <= i < j < ts.len(),
        forall|m: int| i <= m < j ==> (#[trigger] ts[m]).0 is RawNewline,
        !(ts[j].0 is RawNewline),
        !(ts[j].0 is Comment),
        !(ts[j].0 is Indent),
        !(ts[j].0 is Dedent),
        ts[j - 1].1.end <= ts[j].1.start,
    ensures
        layout_from(ts, i, stack).len() >= 2,
        (layout_from(ts, i, stack)[1].0 is Dedent) == (ts[j].1.start - ts[j - 1].1.end < stack.last()),
        layout_from(ts, i, stack)[0] == (Token::Newline, ts[i].1),
        (layout_from(ts, i, stack)[1].0 is Indent) == (ts[j].1.start - ts[j - 1].1.end > stack.last()),
        ts[j].1.start - ts[j - 1].1.end == stack.last() ==> layout_from(ts, i, stack)[1] == (if i + 1 < j {
            (Token::Newline, ts[i + 1].1)
        } else {
            ts[j]
        }),
{
    assert(ts[i].0 is RawNewline);
    skip_newlines(ts, i + 1, j, ts[i].1.end);
    let col = col_at(ts, j, ts[j - 1].1.end);
    assert(col == ts[j].1.start - ts[j - 1].1.end);
    let out = layout_from(ts, i, stack);
    if col > stack.last() {
    } else {
        let k = pop_count(stack, col);
        let st = stack.take(stack.len() - k);
        let rest = layout_from(ts, i + 1, st);
        if i + 1 < j {
            assert(ts[i + 1].0 is RawNewline);
            assert(rest[0] == (Token::Newline, ts[i + 1].1));
        } else {
            assert(rest[0] == ts[j]);
        }
        assert(out == seq![(Token::Newline, ts[i].1)] + dedents(k, ts[i].1) + rest);
        if k > 0 {
            assert(out[1] == dedents(k, ts[i].1)[0]);
        } else {
            assert(dedents(k, ts[i].1) =~= Seq::<(Token, Span)>::empty());
            assert(out[1] == rest[0]);
        }
        if col == stack.last() {
            assert(k == 0);
        }
    }
}

} // verus!
