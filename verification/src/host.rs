//! What the library asks of its host: floating-point arithmetic and the
//! text of floats, which it does not do itself.
//!
//! The library holds a float as the bits of an IEEE-754 double (`u64`) and
//! puts every operation on floats to the host as a `Question`. An evaluation
//! asks each question once, and asks the text of each float once, keeping
//! what the host answered in its `Trace`; its contract then holds of every
//! model of the host that gives those answers, so it states what is computed
//! whatever the host answers, and nothing of the answers themselves.

use vstd::prelude::*;

use crate::ast::BinOp;
use crate::semantics::TextModel;

verus! {

/// A question the library puts to its host about floats.
#[derive(Clone, Copy, PartialEq, Eq, Structural)]
pub enum Question {
    /// `a op b` for `op` among `Add`, `Sub`, `Mul` and `Div`.
    Arith(BinOp, u64, u64),
    /// `a op b` for `op` among the comparisons.
    Compare(BinOp, u64, u64),
    /// `-a`.
    Neg(u64),
    /// The double nearest to an integer.
    FromInt(i64),
}

/// The host's answer: the bits of a double, or a truth.
#[derive(Clone, Copy, PartialEq, Eq, Structural)]
pub enum Answer {
    Bits(u64),
    Truth(bool),
}

/// A host, as the semantics sees it: an answer to each question, and the
/// text of each float as far as it is known.
pub type HostModel = (spec_fn(Question) -> Answer, TextModel);

/// The bits a host model answers to a question.
pub open spec fn h_bits(hm: HostModel, q: Question) -> u64 {
    match (hm.0)(q) {
        Answer::Bits(z) => z,
        Answer::Truth(_) => 0,
    }
}

/// The truth a host model answers to a question.
pub open spec fn h_truth(hm: HostModel, q: Question) -> bool {
    match (hm.0)(q) {
        Answer::Truth(c) => c,
        Answer::Bits(_) => false,
    }
}

/// A host model that gives each question the trace keeps the answer kept
/// beside it, and each float the trace keeps the text kept beside it.
pub open spec fn agrees(hm: HostModel, t: Trace) -> bool {
    &&& forall|i: int|
        0 <= i < t.answers_v().len() ==> (hm.0)((#[trigger] t.answers_v()[i]).0) == t.answers_v()[i].1
    &&& texts_agree(hm.1, t.texts_v())
}

/// A text model that gives each float in `texts` the text kept beside it.
pub open spec fn texts_agree(tm: TextModel, texts: Seq<(u64, String)>) -> bool {
    forall|i: int| 0 <= i < texts.len() ==> tm((#[trigger] texts[i]).0) == Some(texts[i].1@)
}

/// What an evaluation leaves behind: the lines that `print` wrote, the
/// host's answers that it relied on, each question once, and the texts the
/// host gave floats, each float once.
pub struct Trace {
    printed: Vec<String>,
    answers: Vec<(Question, Answer)>,
    texts: Vec<(u64, String)>,
}

impl Trace {
    /// The lines printed.
    pub closed spec fn printed_v(&self) -> Seq<String> {
        self.printed@
    }

    /// The questions asked of the host, each with its answer.
    pub closed spec fn answers_v(&self) -> Seq<(Question, Answer)> {
        self.answers@
    }

    /// The floats whose text was asked of the host, each with its text.
    pub closed spec fn texts_v(&self) -> Seq<(u64, String)> {
        self.texts@
    }

    /// The lines printed.
    pub fn printed(&self) -> (r: &Vec<String>)
        ensures
            r@ == self.printed_v(),
    {
        &self.printed
    }

    /// The questions asked of the host, each with its answer.
    pub fn answers(&self) -> (r: &Vec<(Question, Answer)>)
        ensures
            r@ == self.answers_v(),
    {
        &self.answers
    }

    /// The floats whose text was asked of the host, each with its text.
    pub fn texts(&self) -> (r: &Vec<(u64, String)>)
        ensures
            r@ == self.texts_v(),
    {
        &self.texts
    }

    /// Adds a printed line.
    pub fn print(&mut self, line: String)
        requires
            old(self).wf(),
        ensures
            final(self).wf(),
            grows(*old(self), *final(self)),
            final(self).printed_v() == old(self).printed_v().push(line),
            final(self).answers_v() == old(self).answers_v(),
            final(self).texts_v() == old(self).texts_v(),
    {
        self.printed.push(line);
        assert(self.answers_v() == old(self).answers_v());
        assert(self.texts_v() == old(self).texts_v());
    }

    /// No question is kept twice.
    pub open spec fn wf(&self) -> bool {
        &&& forall|i: int, j: int|
            0 <= i < j < self.answers_v().len() ==> (#[trigger] self.answers_v()[i]).0 != (
            #[trigger] self.answers_v()[j]).0
        &&& forall|i: int, j: int|
            0 <= i < j < self.texts_v().len() ==> (#[trigger] self.texts_v()[i]).0 != (
            #[trigger] self.texts_v()[j]).0
    }

    /// A trace with nothing printed and nothing asked.
    pub fn new() -> (t: Trace)
        ensures
            t.wf(),
            t.printed_v() == Seq::<String>::empty(),
            t.answers_v() == Seq::<(Question, Answer)>::empty(),
            t.texts_v() == Seq::<(u64, String)>::empty(),
    {
        Trace { printed: Vec::new(), answers: Vec::new(), texts: Vec::new() }
    }
}

/// Whether `new` is `old` with lines printed and answers kept after it:
/// evaluation only ever adds to a trace.
pub open spec fn grows(old: Trace, new: Trace) -> bool {
    &&& old.printed_v().len() <= new.printed_v().len()
    &&& forall|i: int| 0 <= i < old.printed_v().len() ==> #[trigger] new.printed_v()[i] == old.printed_v()[i]
    &&& old.answers_v().len() <= new.answers_v().len()
    &&& forall|i: int| 0 <= i < old.answers_v().len() ==> #[trigger] new.answers_v()[i] == old.answers_v()[i]
    &&& old.texts_v().len() <= new.texts_v().len()
    &&& forall|i: int| 0 <= i < old.texts_v().len() ==> #[trigger] new.texts_v()[i] == old.texts_v()[i]
}

/// A host model that agrees with a trace agrees with every earlier state of
/// it.
pub broadcast proof fn agrees_earlier(hm: HostModel, a: Trace, b: Trace)
    requires
        grows(a, b),
        agrees(hm, b),
    ensures
        #![trigger grows(a, b), agrees(hm, b)]
        agrees(hm, a),
{
    assert forall|i: int| 0 <= i < a.answers_v().len() implies (hm.0)((#[trigger] a.answers_v()[i]).0)
        == a.answers_v()[i].1 by {
        assert(b.answers_v()[i] == a.answers_v()[i]);
    }
    texts_agree_earlier(hm.1, a, b);
}

/// A text model that agrees with a trace agrees with every earlier state of
/// it.
pub broadcast proof fn texts_agree_earlier(tm: TextModel, a: Trace, b: Trace)
    requires
        grows(a, b),
        texts_agree(tm, b.texts_v()),
    ensures
        #![trigger grows(a, b), texts_agree(tm, b.texts_v())]
        texts_agree(tm, a.texts_v()),
{
    assert forall|i: int| 0 <= i < a.texts_v().len() implies tm((#[trigger] a.texts_v()[i]).0) == Some(
        a.texts_v()[i].1@,
    ) by {
        assert(b.texts_v()[i] == a.texts_v()[i]);
    }
}

/// The text model that gives the texts a trace keeps, and no text elsewhere.
pub open spec fn text_model_of(texts: Seq<(u64, String)>) -> TextModel {
    |b: u64|
        if exists|i: int| 0 <= i < texts.len() && texts[i].0 == b {
            Some(texts[choose|i: int| 0 <= i < texts.len() && texts[i].0 == b].1@)
        } else {
            None
        }
}

/// Some text model gives every text a well-formed trace keeps.
pub proof fn some_text_model_agrees(t: Trace)
    requires
        t.wf(),
    ensures
        texts_agree(text_model_of(t.texts_v()), t.texts_v()),
{
    let m = t.texts_v();
    assert forall|i: int| 0 <= i < m.len() implies text_model_of(m)((#[trigger] m[i]).0) == Some(
        m[i].1@,
    ) by {
        let j = choose|j: int| 0 <= j < m.len() && m[j].0 == m[i].0;
        if j < i {
            assert(t.texts_v()[j].0 != t.texts_v()[i].0);
        } else if i < j {
            assert(t.texts_v()[i].0 != t.texts_v()[j].0);
        }
    }
}

/// The text the host gives a float, or the one the trace already keeps for
/// it.
pub fn ask_text<H: Host>(host: &H, out: &mut Trace, b: u64) -> (r: String)
    requires
        old(out).wf(),
    ensures
        final(out).wf(),
        grows(*old(out), *final(out)),
        final(out).printed_v() == old(out).printed_v(),
        final(out).answers_v() == old(out).answers_v(),
        forall|tm: TextModel| #[trigger] texts_agree(tm, final(out).texts_v()) ==> tm(b) == Some(r@),
{
    let mut i: usize = 0;
    while i < out.texts.len()
        invariant
            i <= out.texts_v().len(),
            out.wf(),
            out.answers_v() == old(out).answers_v(),
            out.texts_v() == old(out).texts_v(),
            out.printed_v() == old(out).printed_v(),
            forall|j: int| 0 <= j < i ==> (#[trigger] out.texts_v()[j]).0 != b,
        decreases out.texts_v().len() - i,
    {
        if out.texts[i].0 == b {
            let r = out.texts[i].1.clone();
            assert(out.texts_v()[i as int].0 == b && out.texts_v()[i as int].1@ == r@);
            return r;
        }
        i = i + 1;
    }
    let r = host.float_text(b);
    let ghost before = out.texts_v();
    out.texts.push((b, r.clone()));
    assert(out.texts_v()[before.len() as int].0 == b && out.texts_v()[before.len() as int].1@ == r@);
    r
}

/// The answers a trace keeps, and `Bits(0)` elsewhere.
pub open spec fn answers_of(answers: Seq<(Question, Answer)>) -> spec_fn(Question) -> Answer {
    |q: Question|
        if exists|i: int| 0 <= i < answers.len() && answers[i].0 == q {
            answers[choose|i: int| 0 <= i < answers.len() && answers[i].0 == q].1
        } else {
            Answer::Bits(0)
        }
}

/// The host model that answers and writes floats as a trace keeps.
pub open spec fn model_of(t: Trace) -> HostModel {
    (answers_of(t.answers_v()), text_model_of(t.texts_v()))
}

/// Some host model gives every answer a well-formed trace keeps, so what
/// holds of all that agree with it is no empty claim.
pub proof fn some_model_agrees(t: Trace)
    requires
        t.wf(),
    ensures
        agrees(model_of(t), t),
{
    some_text_model_agrees(t);
    let m = t.answers_v();
    assert forall|i: int| 0 <= i < m.len() implies answers_of(m)((#[trigger] m[i]).0) == m[i].1 by {
        let j = choose|j: int| 0 <= j < m.len() && m[j].0 == m[i].0;
        if j < i {
            assert(t.answers_v()[j].0 != t.answers_v()[i].0);
        } else if i < j {
            assert(t.answers_v()[i].0 != t.answers_v()[j].0);
        }
    }
}

/// Puts a question to the host, or gives the answer the trace already keeps
/// for it.
pub fn ask<H: Host>(host: &H, out: &mut Trace, q: Question) -> (a: Answer)
    requires
        old(out).wf(),
    ensures
        final(out).wf(),
        grows(*old(out), *final(out)),
        final(out).printed_v() == old(out).printed_v(),
        final(out).texts_v() == old(out).texts_v(),
        forall|hm: HostModel| #[trigger] agrees(hm, *final(out)) ==> (hm.0)(q) == a,
{
    let mut i: usize = 0;
    while i < out.answers.len()
        invariant
            i <= out.answers_v().len(),
            out.wf(),
            out.answers_v() == old(out).answers_v(),
            out.texts_v() == old(out).texts_v(),
            out.printed_v() == old(out).printed_v(),
            forall|j: int| 0 <= j < i ==> (#[trigger] out.answers_v()[j]).0 != q,
        decreases out.answers_v().len() - i,
    {
        if out.answers[i].0 == q {
            let a = out.answers[i].1;
            assert(out.answers_v()[i as int].0 == q);
            return a;
        }
        i = i + 1;
    }
    let a = host.answer(q);
    let ghost before = out.answers_v();
    out.answers.push((q, a));
    assert(out.answers_v()[before.len() as int] == (q, a));
    a
}

/// The bits the host answers to a question about floats.
pub fn ask_bits<H: Host>(host: &H, out: &mut Trace, q: Question) -> (z: u64)
    requires
        old(out).wf(),
    ensures
        final(out).wf(),
        grows(*old(out), *final(out)),
        final(out).printed_v() == old(out).printed_v(),
        forall|hm: HostModel| #[trigger] agrees(hm, *final(out)) ==> h_bits(hm, q) == z,
{
    match ask(host, out, q) {
        Answer::Bits(z) => z,
        Answer::Truth(_) => 0,
    }
}

/// The truth the host answers to a question about floats.
pub fn ask_truth<H: Host>(host: &H, out: &mut Trace, q: Question) -> (c: bool)
    requires
        old(out).wf(),
    ensures
        final(out).wf(),
        grows(*old(out), *final(out)),
        final(out).printed_v() == old(out).printed_v(),
        forall|hm: HostModel| #[trigger] agrees(hm, *final(out)) ==> h_truth(hm, q) == c,
{
    match ask(host, out, q) {
        Answer::Truth(c) => c,
        Answer::Bits(_) => false,
    }
}

/// What the library asks of its host. It states nothing of the answers.
pub trait Host {
    /// The bits of the double nearest to a decimal literal such as `3.25`.
    fn parse_float(&self, text: &str) -> u64;

    /// The text of a double, as Rust's `Display` writes it.
    fn float_text(&self, bits: u64) -> String;

    /// The answer to a question about floats: for `Arith(op, a, b)` the
    /// bits of `a op b`, for `Compare(op, a, b)` the truth of `a op b`, for
    /// `Neg(a)` the bits of `-a`, and for `FromInt(n)` the bits of the double
    /// nearest to `n`.
    fn answer(&self, q: Question) -> Answer;
}

} // verus!
