//! The text of values, as their `Display` writes it.

use vstd::prelude::*;
use vstd::string::*;

use crate::host::{grows, some_text_model_agrees, ask_text, text_model_of, texts_agree, texts_agree_earlier, Host, Trace};
use crate::semantics::{
    bytes_lt, insert_pair, join_pairs, key_lt, show, show_args, show_fields, show_in, show_join, show_known,
    sort_pairs, TextModel,
};
use crate::text::{int_string, push_str};
use crate::value::{group_value_views, lemma_rec_v, lemma_vals_v, rec_v, val_v, vals_v, SValue, Value};

verus! {

broadcast use texts_agree_earlier;

pub open spec fn pairs_v(s: Seq<(String, String)>) -> Seq<(Seq<char>, Seq<char>)> {
    Seq::new(s.len(), |i: int| (s[i].0@, s[i].1@))
}

/// Whether `a[i..]` comes before `b[i..]` in lexicographic order.
fn bytes_lt_from(a: &[u8], b: &[u8], i: usize) -> (r: bool)
    requires
        i <= a@.len(),
        i <= b@.len(),
    ensures
        r == bytes_lt(a@.skip(i as int), b@.skip(i as int)),
    decreases a@.len() - i,
{
    let ghost sa = a@.skip(i as int);
    let ghost sb = b@.skip(i as int);
    if i == a.len() {
        return i < b.len();
    }
    if i == b.len() {
        return false;
    }
    if a[i] != b[i] {
        return a[i] < b[i];
    }
    assert(sa.drop_first() =~= a@.skip(i + 1));
    assert(sb.drop_first() =~= b@.skip(i + 1));
    bytes_lt_from(a, b, i + 1)
}

/// Whether the name `a` comes before `b`.
pub fn key_less(a: &String, b: &String) -> (r: bool)
    ensures
        r == key_lt(a@, b@),
{
    let x = a.as_str().as_bytes();
    let y = b.as_str().as_bytes();
    assert(x@.skip(0) =~= x@);
    assert(y@.skip(0) =~= y@);
    bytes_lt_from(x, y, 0)
}

fn insert_pair_x(x: (String, String), s: Vec<(String, String)>) -> (r: Vec<(String, String)>)
    ensures
        pairs_v(r@) == insert_pair((x.0@, x.1@), pairs_v(s@)),
    decreases s@.len(),
{
    let ghost xv = (x.0@, x.1@);
    let ghost sv = pairs_v(s@);
    let mut s = s;
    if s.len() == 0 {
        let mut r: Vec<(String, String)> = Vec::new();
        r.push(x);
        assert(pairs_v(r@) =~= seq![xv]);
        r
    } else if key_less(&x.0, &s[0].0) {
        s.insert(0, x);
        assert(pairs_v(s@) =~= seq![xv] + sv);
        s
    } else {
        let first = s.remove(0);
        assert(pairs_v(s@) =~= sv.drop_first());
        let mut rest = insert_pair_x(x, s);
        let ghost rv = pairs_v(rest@);
        rest.insert(0, first);
        assert(pairs_v(rest@) =~= seq![sv[0]] + rv);
        rest
    }
}

/// The pairs sorted by name, stably.
fn sort_pairs_x(s: Vec<(String, String)>) -> (r: Vec<(String, String)>)
    ensures
        pairs_v(r@) == sort_pairs(pairs_v(s@)),
{
    let ghost sv = pairs_v(s@);
    let n = s.len();
    let mut sorted: Vec<(String, String)> = Vec::new();
    let mut rest = s;
    let mut i: usize = 0;
    assert(sv.take(0) =~= Seq::<(Seq<char>, Seq<char>)>::empty());
    while rest.len() > 0
        invariant
            i <= sv.len(),
            sv.len() == n,
            pairs_v(rest@) =~= sv.skip(i as int),
            pairs_v(sorted@) == sort_pairs(sv.take(i as int)),
        decreases rest@.len(),
    {
        assert(pairs_v(rest@).len() == rest@.len());
        assert(i < sv.len());
        assert(sv.take(i + 1).len() == i + 1);
        let ghost old_rest = rest@;
        let x = rest.remove(0);
        assert(pairs_v(old_rest)[0] == sv[i as int]);
        assert((x.0@, x.1@) == sv[i as int]);
        assert(sv.take(i + 1).drop_last() =~= sv.take(i as int));
        assert(sv.take(i + 1).last() == sv[i as int]);
        assert(pairs_v(rest@) =~= pairs_v(old_rest).drop_first());
        assert(sv.skip(i as int).drop_first() =~= sv.skip(i + 1));
        sorted = insert_pair_x(x, sorted);
        i = i + 1;
    }
    assert(sv.take(i as int) =~= sv);
    sorted
}

/// "name = text" for each pair, separated by ", ".
fn join_pairs_x(s: &Vec<(String, String)>) -> (r: String)
    ensures
        r@ == join_pairs(pairs_v(s@)),
{
    let ghost sv = pairs_v(s@);
    let mut out = String::new();
    let mut i: usize = 0;
    assert(sv.take(0) =~= Seq::<(Seq<char>, Seq<char>)>::empty());
    while i < s.len()
        invariant
            i <= s@.len(),
            sv == pairs_v(s@),
            out@ == join_pairs(sv.take(i as int)),
        decreases s@.len() - i,
    {
        assert(sv.take(i + 1).drop_last() =~= sv.take(i as int));
        if i > 0 {
            push_str(&mut out, ", ");
        }
        push_str(&mut out, s[i].0.as_str());
        push_str(&mut out, " = ");
        push_str(&mut out, s[i].1.as_str());
        i = i + 1;
        proof {
            reveal_strlit(", ");
            reveal_strlit(" = ");
            if i == 1 {
                assert(out@ =~= join_pairs(sv.take(i as int)));
            } else {
                assert(out@ =~= join_pairs(sv.take(i as int)));
            }
        }
    }
    assert(sv.take(i as int) =~= sv);
    out
}

/// The texts of the values, separated by ", ".
fn display_join<H: Host>(items: &Vec<Value>, host: &H, out: &mut Trace) -> (r: String)
    requires
        old(out).wf(),
    ensures
        final(out).wf(),
        grows(*old(out), *final(out)),
        final(out).printed_v() == old(out).printed_v(),
        final(out).answers_v() == old(out).answers_v(),
        forall|tm: TextModel| #![all_triggers] texts_agree(tm, final(out).texts_v()) ==> show_join(
            tm,
            vals_v(items@),
        ) == Some(r@),
    decreases items, 0int,
{
    broadcast use group_value_views;

    let ghost sv = vals_v(items@);
    proof {
        lemma_vals_v(items@);
    }
    let mut acc = String::new();
    let mut i: usize = 0;
    assert(sv.take(0) =~= Seq::<SValue>::empty());
    assert(acc@ =~= Seq::<char>::empty());
    while i < items.len()
        invariant
            i <= items@.len(),
            sv == vals_v(items@),
            sv.len() == items@.len(),
            out.wf(),
            grows(*old(out), *out),
            out.printed_v() == old(out).printed_v(),
            out.answers_v() == old(out).answers_v(),
            forall|tm: TextModel| #![all_triggers] texts_agree(tm, out.texts_v()) ==> show_join(
                tm,
                sv.take(i as int),
            ) == Some(acc@),
        decreases items@.len() - i,
    {
        assert(sv.take(i + 1).drop_last() =~= sv.take(i as int));
        proof {
            lemma_vals_v(items@);
        }
        assert(sv[i as int] == val_v(items@[i as int]));
        assert(sv.take(i + 1)[i as int] == sv[i as int]);
        let ghost before = acc@;
        let ghost tr = *out;
        if i > 0 {
            push_str(&mut acc, ", ");
        }
        let t = display_in(&items[i], host, out);
        push_str(&mut acc, t.as_str());
        i = i + 1;
        proof {
            reveal_strlit(", ");
            if i == 1 {
                assert(sv.take(1) =~= seq![sv[0]]);
            }
            assert forall|tm: TextModel| texts_agree(tm, out.texts_v()) implies show_join(
                tm,
                sv.take(i as int),
            ) == Some(acc@) by {
                assert(texts_agree(tm, tr.texts_v()));
                if i == 1 {
                    assert(acc@ =~= t@);
                } else {
                    assert(acc@ =~= before + ", "@ + t@);
                }
            }
        }
    }
    assert(sv.take(i as int) =~= sv);
    acc
}

/// " text" for each value.
fn display_args<H: Host>(args: &Vec<Value>, host: &H, out: &mut Trace) -> (r: String)
    requires
        old(out).wf(),
    ensures
        final(out).wf(),
        grows(*old(out), *final(out)),
        final(out).printed_v() == old(out).printed_v(),
        final(out).answers_v() == old(out).answers_v(),
        forall|tm: TextModel| #![all_triggers] texts_agree(tm, final(out).texts_v()) ==> show_args(
            tm,
            vals_v(args@),
        ) == Some(r@),
    decreases args, 0int,
{
    broadcast use group_value_views;

    let ghost sv = vals_v(args@);
    proof {
        lemma_vals_v(args@);
    }
    let mut acc = String::new();
    let mut i: usize = 0;
    assert(sv.take(0) =~= Seq::<SValue>::empty());
    assert(acc@ =~= Seq::<char>::empty());
    while i < args.len()
        invariant
            i <= args@.len(),
            sv == vals_v(args@),
            sv.len() == args@.len(),
            out.wf(),
            grows(*old(out), *out),
            out.printed_v() == old(out).printed_v(),
            out.answers_v() == old(out).answers_v(),
            forall|tm: TextModel| #![all_triggers] texts_agree(tm, out.texts_v()) ==> show_args(
                tm,
                sv.take(i as int),
            ) == Some(acc@),
        decreases args@.len() - i,
    {
        assert(sv.take(i + 1).drop_last() =~= sv.take(i as int));
        proof {
            lemma_vals_v(args@);
        }
        assert(sv[i as int] == val_v(args@[i as int]));
        assert(sv.take(i + 1)[i as int] == sv[i as int]);
        let ghost before = acc@;
        let ghost tr = *out;
        push_str(&mut acc, " ");
        let t = display_in(&args[i], host, out);
        push_str(&mut acc, t.as_str());
        i = i + 1;
        proof {
            reveal_strlit(" ");
            assert forall|tm: TextModel| texts_agree(tm, out.texts_v()) implies show_args(
                tm,
                sv.take(i as int),
            ) == Some(acc@) by {
                assert(texts_agree(tm, tr.texts_v()));
                assert(acc@ =~= before + (" "@ + t@));
            }
        }
    }
    assert(sv.take(i as int) =~= sv);
    acc
}

/// Each field's name with the text of its value.
fn display_fields<H: Host>(fields: &Vec<(String, Value)>, host: &H, out: &mut Trace) -> (r: Vec<
    (String, String),
>)
    requires
        old(out).wf(),
    ensures
        final(out).wf(),
        grows(*old(out), *final(out)),
        final(out).printed_v() == old(out).printed_v(),
        final(out).answers_v() == old(out).answers_v(),
        forall|tm: TextModel| #![all_triggers] texts_agree(tm, final(out).texts_v()) ==> show_fields(
            tm,
            rec_v(fields@),
        ) == Some(pairs_v(r@)),
    decreases fields, 0int,
{
    broadcast use group_value_views;

    let ghost sv = rec_v(fields@);
    proof {
        lemma_rec_v(fields@);
    }
    let mut acc: Vec<(String, String)> = Vec::new();
    let mut i: usize = 0;
    assert(sv.take(0) =~= Seq::<(Seq<char>, SValue)>::empty());
    assert(pairs_v(acc@) =~= Seq::<(Seq<char>, Seq<char>)>::empty());
    while i < fields.len()
        invariant
            i <= fields@.len(),
            sv == rec_v(fields@),
            sv.len() == fields@.len(),
            out.wf(),
            grows(*old(out), *out),
            out.printed_v() == old(out).printed_v(),
            out.answers_v() == old(out).answers_v(),
            forall|tm: TextModel| #![all_triggers] texts_agree(tm, out.texts_v()) ==> show_fields(
                tm,
                sv.take(i as int),
            ) == Some(pairs_v(acc@)),
        decreases fields@.len() - i,
    {
        assert(sv.take(i + 1).drop_last() =~= sv.take(i as int));
        proof {
            lemma_rec_v(fields@);
        }
        assert(sv[i as int] == (fields@[i as int].0@, val_v(fields@[i as int].1)));
        assert(sv.take(i + 1)[i as int] == sv[i as int]);
        let ghost before = pairs_v(acc@);
        let ghost tr = *out;
        let t = display_in(&fields[i].1, host, out);
        acc.push((fields[i].0.clone(), t));
        i = i + 1;
        proof {
            assert(pairs_v(acc@) =~= before.push((fields@[i - 1].0@, t@)));
            assert forall|tm: TextModel| texts_agree(tm, out.texts_v()) implies show_fields(
                tm,
                sv.take(i as int),
            ) == Some(pairs_v(acc@)) by {
                assert(texts_agree(tm, tr.texts_v()));
            }
        }
    }
    assert(sv.take(i as int) =~= sv);
    acc
}

/// The text of a value under every text model that agrees with the trace.
fn display_in<H: Host>(v: &Value, host: &H, out: &mut Trace) -> (r: String)
    requires
        old(out).wf(),
    ensures
        final(out).wf(),
        grows(*old(out), *final(out)),
        final(out).printed_v() == old(out).printed_v(),
        final(out).answers_v() == old(out).answers_v(),
        forall|tm: TextModel| #![all_triggers] texts_agree(tm, final(out).texts_v()) ==> show_in(tm, v@)
            == Some(r@),
    decreases v, 1int,
{
    proof {
        reveal_strlit("true");
        reveal_strlit("false");
        reveal_strlit("()");
        reveal_strlit("<fn>");
    }
    match v {
        Value::Int(n) => int_string(*n),
        Value::Float(b) => ask_text(host, out, *b),
        Value::Bool(b) => {
            if *b {
                String::from_str("true")
            } else {
                String::from_str("false")
            }
        },
        Value::Str(s) => s.clone(),
        Value::Unit => String::from_str("()"),
        Value::List(items) => {
            let mut acc = String::from_str("[");
            let inner = display_join(items, host, out);
            push_str(&mut acc, inner.as_str());
            push_str(&mut acc, "]");
            acc
        },
        Value::Tuple(items) => {
            let mut acc = String::from_str("(");
            let inner = display_join(items, host, out);
            push_str(&mut acc, inner.as_str());
            push_str(&mut acc, ")");
            acc
        },
        Value::Record(fields) => {
            let pairs = display_fields(fields, host, out);
            let sorted = sort_pairs_x(pairs);
            let mut acc = String::from_str("{ ");
            let inner = join_pairs_x(&sorted);
            push_str(&mut acc, inner.as_str());
            push_str(&mut acc, " }");
            acc
        },
        Value::Constructor(name, args) => {
            if args.len() == 0 {
                name.clone()
            } else {
                let mut acc = String::from_str("(");
                push_str(&mut acc, name.as_str());
                let inner = display_args(args, host, out);
                push_str(&mut acc, inner.as_str());
                push_str(&mut acc, ")");
                acc
            }
        },
        Value::Closure { .. } => String::from_str("<fn>"),
    }
}

/// The text of a value, as its `Display` writes it; the host writes floats,
/// each float once, and the texts it gave are kept in the trace.
pub fn display<H: Host>(v: &Value, host: &H, out: &mut Trace) -> (r: String)
    requires
        old(out).wf(),
    ensures
        final(out).wf(),
        grows(*old(out), *final(out)),
        final(out).printed_v() == old(out).printed_v(),
        final(out).answers_v() == old(out).answers_v(),
        forall|tm: TextModel| #![all_triggers] texts_agree(tm, final(out).texts_v()) ==> show_in(tm, v@)
            == Some(r@),
        show(v@) matches Some(t) ==> r@ == t,
{
    let r = display_in(v, host, out);
    proof {
        some_text_model_agrees(*out);
        show_known(text_model_of(out.texts_v()), v@);
    }
    r
}

} // verus!
