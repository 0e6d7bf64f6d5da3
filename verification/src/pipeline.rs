//! Running a parsed program: its definitions in order, then what its `main`
//! makes the process answer.

use vstd::prelude::*;

use crate::ast::{copy_expr, sp_v, spe, Module, SSp, STopLevel, STypeExpr, Spanned, TopLevel};
use crate::display::display;
use crate::eval::{builtin_globals, err_v, Evaluator, MAX_DEPTH};
use crate::host::{agrees, grows, texts_agree, Host, HostModel, Trace};
use crate::report::err_message;
use crate::semantics::{no_text, prints_eval, sem_eval, show, show_in, SErr, TextModel};
use crate::text::{push_str, str_eq, string_of};
use crate::value::{lookup, SEnv, SValue, Value};

verus! {

broadcast use crate::host::agrees_earlier;

/// How the process ends: its exit code, and a line for standard output or
/// standard error.
pub struct Exit {
    pub code: i32,
    pub stdout: Option<String>,
    pub stderr: Option<String>,
}

pub open spec fn opt_text(o: Option<String>) -> Option<Seq<char>> {
    match o {
        Some(s) => Some(s@),
        None => None,
    }
}

/// The model of an exit.
pub open spec fn exit_v(e: Exit) -> (i32, Option<Seq<char>>, Option<Seq<char>>) {
    (e.code, opt_text(e.stdout), opt_text(e.stderr))
}

/// How the process ends for the value bound to `main` (`None` if unbound):
/// `Ok Unit` ends quietly, `Ok v` prints `v`, `Err msg` reports the message
/// and fails, another constructor ends quietly, `Unit` too, and any other
/// value is printed; floats are written as `tm` says. `None` where `tm`
/// gives no text for a float in what is printed.
pub open spec fn main_exit_in(tm: TextModel, v: Option<SValue>) -> Option<
    (i32, Option<Seq<char>>, Option<Seq<char>>),
> {
    match v {
        Some(SValue::Constructor(tag, args)) => if tag == "Ok"@ && args.len() == 1 {
            if args[0] matches SValue::Constructor(inner, ia) && inner == "Unit"@ && ia.len() == 0 {
                Some((0, None, None))
            } else {
                match show_in(tm, args[0]) {
                    Some(t) => Some((0, Some(t), None)),
                    None => None,
                }
            }
        } else if tag == "Err"@ && args.len() == 1 {
            match args[0] {
                SValue::Str(msg) => Some((1, None, Some("error: "@ + msg))),
                _ => match show_in(tm, args[0]) {
                    Some(t) => Some((1, None, Some("error: "@ + t))),
                    None => None,
                },
            }
        } else {
            Some((0, None, None))
        },
        Some(SValue::Unit) => Some((0, None, None)),
        None => Some((0, None, None)),
        Some(other) => match show_in(tm, other) {
            Some(t) => Some((0, Some(t), None)),
            None => None,
        },
    }
}

/// A `main` whose value is `Unit`, or a program with no `main` value, ends
/// quietly: exit code 0, with neither a standard-output nor a
/// standard-error line, whatever the host writes for floats. And a line goes
/// to standard output only for a value that is neither `Unit` nor missing.
pub proof fn unit_main_is_quiet(tm: TextModel, v: Option<SValue>)
    ensures
        (v is None || v == Some(SValue::Unit)) ==> main_exit_in(tm, v) == Some(
            (0i32, None::<Seq<char>>, None::<Seq<char>>),
        ) && main_shape(v) == (0i32, false, false),
        main_shape(v).1 ==> v is Some && v != Some(SValue::Unit),
        main_exit_in(tm, v) matches Some((_, Some(_), _)) ==> v is Some && v != Some(SValue::Unit),
{
}

/// How `main`'s value decides the exit: `Err msg` with a string reports
/// `error: msg` on standard error and exits with 1; `Ok Unit` ends quietly;
/// `Ok v` for any other `v` prints the text of `v` and exits with 0; and a
/// value that is neither a constructor nor `Unit` is printed, exit code 0.
pub proof fn main_exit_laws(tm: TextModel, w: SValue, m: Seq<char>)
    ensures
        main_exit_in(tm, Some(SValue::Constructor("Err"@, seq![SValue::Str(m)]))) == Some(
            (1i32, None::<Seq<char>>, Some("error: "@ + m)),
        ),
        main_exit_in(tm, Some(SValue::Constructor("Ok"@, seq![SValue::Constructor("Unit"@, seq![])])))
            == Some((0i32, None::<Seq<char>>, None::<Seq<char>>)),
        !(w matches SValue::Constructor(n, a) && n == "Unit"@ && a.len() == 0) ==> main_exit_in(
            tm,
            Some(SValue::Constructor("Ok"@, seq![w])),
        ) == match show_in(tm, w) {
            Some(t) => Some((0i32, Some(t), None::<Seq<char>>)),
            None => None,
        },
        !(w is Constructor || w is Unit) ==> main_exit_in(tm, Some(w)) == match show_in(tm, w) {
            Some(t) => Some((0i32, Some(t), None::<Seq<char>>)),
            None => None,
        },
{
    reveal_strlit("Ok");
    reveal_strlit("Err");
}

/// How the process ends for the value bound to `main`, where no float's
/// text is needed.
pub open spec fn main_exit(v: Option<SValue>) -> Option<(i32, Option<Seq<char>>, Option<Seq<char>>)> {
    main_exit_in(no_text(), v)
}

/// How the process ends for the value bound to `main`, whatever the host
/// writes for floats: the exit code, and whether a line goes to standard
/// output and whether one goes to standard error.
pub open spec fn main_shape(v: Option<SValue>) -> (i32, bool, bool) {
    match v {
        Some(SValue::Constructor(tag, args)) => if tag == "Ok"@ && args.len() == 1 {
            if args[0] matches SValue::Constructor(inner, ia) && inner == "Unit"@ && ia.len() == 0 {
                (0, false, false)
            } else {
                (0, true, false)
            }
        } else if tag == "Err"@ && args.len() == 1 {
            (1, false, true)
        } else {
            (0, false, false)
        },
        Some(SValue::Unit) => (0, false, false),
        None => (0, false, false),
        Some(_) => (0, true, false),
    }
}

/// The shape of an exit: its code and which lines it has.
pub open spec fn exit_shape(e: Exit) -> (i32, bool, bool) {
    (e.code, e.stdout is Some, e.stderr is Some)
}

pub open spec fn opt_val(v: Option<&Value>) -> Option<SValue> {
    match v {
        Some(x) => Some(x@),
        None => None,
    }
}

/// How the process ends for the value bound to `main`.
pub fn main_outcome<H: Host>(main: Option<&Value>, host: &H, out: &mut Trace) -> (r: Exit)
    requires
        old(out).wf(),
    ensures
        final(out).wf(),
        grows(*old(out), *final(out)),
        final(out).printed_v() == old(out).printed_v(),
        final(out).answers_v() == old(out).answers_v(),
        main_exit(opt_val(main)) matches Some(x) ==> exit_v(r) == x,
        forall|tm: TextModel| #![all_triggers] texts_agree(tm, final(out).texts_v()) ==> main_exit_in(
            tm,
            opt_val(main),
        ) == Some(exit_v(r)),
        exit_shape(r) == main_shape(opt_val(main)),
{
    let quiet = Exit { code: 0, stdout: None, stderr: None };
    match main {
        Some(Value::Constructor(tag, args)) => {
            proof {
                crate::value::lemma_vals_v(args@);
            }
            if str_eq(tag.as_str(), "Ok") && args.len() == 1 {
                let unit = match &args[0] {
                    Value::Constructor(inner, ia) => {
                        proof {
                            crate::value::lemma_vals_v(ia@);
                        }
                        str_eq(inner.as_str(), "Unit") && ia.len() == 0
                    },
                    _ => false,
                };
                if unit {
                    quiet
                } else {
                    Exit { code: 0, stdout: Some(display(&args[0], host, out)), stderr: None }
                }
            } else if str_eq(tag.as_str(), "Err") && args.len() == 1 {
                let mut line = string_of("error: ");
                match &args[0] {
                    Value::Str(msg) => push_str(&mut line, msg.as_str()),
                    other => {
                        let t = display(other, host, out);
                        push_str(&mut line, t.as_str());
                    },
                }
                Exit { code: 1, stdout: None, stderr: Some(line) }
            } else {
                quiet
            }
        },
        Some(Value::Unit) => quiet,
        None => quiet,
        Some(other) => Exit { code: 0, stdout: Some(display(other, host, out)), stderr: None },
    }
}

// ── Definitions ───────────────────────────────────────────────────────────────

/// The names of the parameters.
pub open spec fn param_names(ps: Seq<(Seq<char>, STypeExpr)>) -> Seq<Seq<char>> {
    Seq::new(ps.len(), |i: int| ps[i].0)
}

/// One top-level item registered, with the host answering as `hm`: the
/// global environment and the error lines after it; `None` where evaluation
/// runs out of depth.
pub open spec fn def_step(hm: HostModel, g: SEnv, lines: Seq<Option<Seq<char>>>, item: STopLevel) -> Option<
    (SEnv, Seq<Option<Seq<char>>>),
> {
    match item {
        STopLevel::Def { name, params, body, .. } => if params.len() > 0 {
            Some(
                (
                    g.push((name, SValue::Closure { env: g, params: param_names(params), body })),
                    lines,
                ),
            )
        } else {
            match sem_eval(hm, MAX_DEPTH as nat, g, g, body.node) {
                Some(Ok(v)) => Some((g.push((name, v)), lines)),
                Some(Err(e)) => Some(
                    (
                        g.push((name, SValue::Unit)),
                        lines.push(
                            match err_message(e) {
                                Some(m) => Some("error evaluating "@ + name + ": "@ + m),
                                None => None,
                            },
                        ),
                    ),
                ),
                None => None,
            }
        },
        _ => Some((g, lines)),
    }
}

/// The items registered in order, from the built-in environment.
pub open spec fn sem_defs(hm: HostModel, items: Seq<Spanned<STopLevel>>) -> Option<(SEnv, Seq<Option<Seq<char>>>)>
    decreases items.len(),
{
    if items.len() == 0 {
        Some((builtin_globals(), seq![]))
    } else {
        match sem_defs(hm, items.drop_last()) {
            Some((g, lines)) => def_step(hm, g, lines, items.last().node),
            None => None,
        }
    }
}

/// The lines the definitions print as they are registered in order, from
/// the built-in environment: each one without parameters prints what its
/// body prints.
pub open spec fn defs_prints(hm: HostModel, items: Seq<Spanned<STopLevel>>) -> Seq<Seq<char>>
    decreases items.len(),
{
    if items.len() == 0 {
        seq![]
    } else {
        let p = defs_prints(hm, items.drop_last());
        match (sem_defs(hm, items.drop_last()), items.last().node) {
            (Some((g, _)), STopLevel::Def { params, body, .. }) => if params.len() == 0 {
                prints_eval(hm, MAX_DEPTH as nat, g, g, body.node, p)
            } else {
                p
            },
            _ => p,
        }
    }
}

/// Whether the item is a definition named `name`.
pub open spec fn is_def_named(t: STopLevel, name: Seq<char>) -> bool {
    t matches STopLevel::Def { name: n, .. } && n == name
}

/// Whether a definition is named `name`.
pub open spec fn defines(items: Seq<Spanned<STopLevel>>, name: Seq<char>) -> bool {
    exists|i: int| 0 <= i < items.len() && is_def_named((#[trigger] items[i]).node, name)
}

/// Whether the lines are those the model gives, each in full where the model
/// knows it.
pub open spec fn lines_fit(xs: Seq<Seq<char>>, ls: Seq<Option<Seq<char>>>) -> bool {
    xs.len() == ls.len() && forall|i: int| 0 <= i < ls.len() ==> (#[trigger] ls[i] matches Some(t)
        ==> xs[i] == t)
}

/// How running a program ends, after the error lines of its definitions.
pub open spec fn run_exit(hm: HostModel, items: Seq<Spanned<STopLevel>>) -> Option<
    (Seq<Option<Seq<char>>>, (i32, Option<Seq<char>>, Option<Seq<char>>)),
> {
    match sem_defs(hm, items) {
        Some((g, lines)) => if !defines(items, "main"@) {
            Some((lines, (1, None, Some("error: no `main` defined"@))))
        } else {
            match main_exit(lookup(g, "main"@)) {
                Some(x) => Some((lines, x)),
                None => None,
            }
        },
        None => None,
    }
}

/// The names of the parameters, without their types.
fn names_of(params: &Vec<(String, crate::ast::TypeExpr)>) -> (r: Vec<String>)
    ensures
        crate::ast::strs_v(r@) == param_names(crate::ast::ty_fields_v(params@)),
{
    proof {
        crate::ast::lemma_ty_fields_v(params@);
    }
    let mut out: Vec<String> = Vec::new();
    let mut i: usize = 0;
    while i < params.len()
        invariant
            i <= params@.len(),
            out@.len() == i,
            forall|j: int| 0 <= j < i ==> out@[j]@ == params@[j].0@,
        decreases params@.len() - i,
    {
        out.push(params[i].0.clone());
        i = i + 1;
    }
    assert(crate::ast::strs_v(out@) =~= param_names(crate::ast::ty_fields_v(params@)));
    out
}

/// Runs a parsed program: registers its definitions in order, evaluating
/// those without parameters at once, then ends as its `main` says, or fails
/// where it defines no `main`. Answers the trace of the run (the lines the
/// program printed, as `defs_prints` gives them, and the host's answers it
/// relied on), a line for each definition that failed to evaluate, and the
/// exit. Evaluation
/// nests at most `MAX_DEPTH` deep.
pub fn run_module<H: Host>(module: &Module, host: H) -> (r: (Trace, Vec<String>, Exit))
    ensures
        r.0.wf(),
        forall|hm: HostModel| #![all_triggers] agrees(hm, r.0) ==> (run_exit(hm, module@) matches Some(
            (lines, x),
        ) ==> lines_fit(crate::ast::strs_v(r.1@), lines) && exit_v(r.2) == x),
        forall|hm: HostModel| #![all_triggers] agrees(hm, r.0) ==> (sem_defs(hm, module@) matches Some(
            (g, lines),
        ) ==> defines(module@, "main"@) ==> exit_shape(r.2) == main_shape(lookup(g, "main"@))),
        forall|hm: HostModel| #![all_triggers] agrees(hm, r.0) ==> (sem_defs(hm, module@) matches Some(
            (g, lines),
        ) ==> defines(module@, "main"@) ==> main_exit_in(hm.1, lookup(g, "main"@)) == Some(exit_v(r.2))),
        forall|hm: HostModel| #![all_triggers] agrees(hm, r.0) ==> (sem_defs(hm, module@) is Some
            ==> crate::ast::strs_v(r.0.printed_v()) == defs_prints(hm, module@)),
        !defines(module@, "main"@) ==> exit_v(r.2) == (1i32, None::<Seq<char>>, Some(
            "error: no `main` defined"@,
        )),
{
    let mut tr = Trace::new();
    let ghost items = module@;
    let mut ev = Evaluator::new(host);
    let mut lines: Vec<String> = Vec::new();
    let mut has_main = false;
    let n = module.items.len();
    let mut i: usize = 0;
    assert(items.take(0) =~= seq![]);
    assert(crate::ast::strs_v(tr.printed_v()) =~= Seq::<Seq<char>>::empty());
    while i < n
        invariant
            items == module@,
            n == items.len(),
            i <= n,
            ev.max_depth() == MAX_DEPTH,
            tr.wf(),
            forall|hm: HostModel| #![all_triggers] agrees(hm, tr) ==> (sem_defs(hm, items.take(i as int)) matches Some(
                (g, ls),
            ) ==> ev.globals() == g && lines_fit(crate::ast::strs_v(lines@), ls)),
            forall|hm: HostModel| #![all_triggers] agrees(hm, tr) ==> (sem_defs(hm, items.take(i as int)) is Some
                ==> crate::ast::strs_v(tr.printed_v()) == defs_prints(hm, items.take(i as int))),
            has_main == exists|j: int| 0 <= j < i && is_def_named((#[trigger] items[j]).node, "main"@),
        decreases n - i,
    {
        assert(items.take(i + 1).drop_last() =~= items.take(i as int));
        assert(items.take(i + 1).last() == items[i as int]);
        assert(items[i as int].node == crate::ast::top_v(module.items@[i as int].node));
        match &module.items[i].node {
            TopLevel::Def { name, params, body, .. } => {
                if str_eq(name.as_str(), "main") {
                    has_main = true;
                }
                let names = names_of(params);
                let b = copy_expr(&**body);
                let ghost before = ev.globals();
                let ghost before_lines = lines@;
                let ghost tr_before = tr;
                proof {
                    crate::ast::lemma_ty_fields_v(params@);
                }
                assert(crate::ast::strs_v(names@).len() == names@.len());
                assert(names@.len() == params@.len());
                match ev.define(name.clone(), names, b, &mut tr) {
                    Some(e) => {
                        let mut line = string_of("error evaluating ");
                        push_str(&mut line, name.as_str());
                        push_str(&mut line, ": ");
                        let m = e.message();
                        push_str(&mut line, m.as_str());
                        lines.push(line);
                        assert(crate::ast::strs_v(lines@) =~= crate::ast::strs_v(before_lines).push(line@));
                    },
                    None => {},
                }
                proof {
                    assert(ev.globals() =~= before.push(ev.globals().last()));
                    assert forall|hm: HostModel| agrees(hm, tr) implies (sem_defs(
                        hm,
                        items.take(i + 1),
                    ) matches Some((g, ls)) ==> ev.globals() == g && lines_fit(
                        crate::ast::strs_v(lines@),
                        ls,
                    )) by {
                        assert(agrees(hm, tr_before));
                        if sem_defs(hm, items.take(i as int)) is None {
                            assert(sem_defs(hm, items.take(i + 1)) is None);
                        }
                    }
                    assert forall|hm: HostModel| agrees(hm, tr) implies (sem_defs(hm, items.take(i + 1)) is Some
                        ==> crate::ast::strs_v(tr.printed_v()) == defs_prints(hm, items.take(i + 1))) by {
                        assert(agrees(hm, tr_before));
                        if sem_defs(hm, items.take(i as int)) is None {
                            assert(sem_defs(hm, items.take(i + 1)) is None);
                        }
                        if params@.len() > 0 {
                            assert(crate::ast::strs_v(tr.printed_v()) =~= crate::ast::strs_v(tr_before.printed_v()));
                        }
                    }
                }
            },
            _ => {
                assert(!(items[i as int].node is Def));
                assert(forall|hm: HostModel| #[trigger] sem_defs(hm, items.take(i + 1)) == sem_defs(hm, items.take(i as int)));
                assert(forall|hm: HostModel| #[trigger] defs_prints(hm, items.take(i + 1)) == defs_prints(hm, items.take(i as int)));
            },
        }
        i = i + 1;
    }
    assert(items.take(n as int) =~= items);
    if !has_main {
        return (
            tr,
            lines,
            Exit { code: 1, stdout: None, stderr: Some(string_of("error: no `main` defined")) },
        );
    }
    let x = main_outcome(ev.global_env().get("main"), ev.host(), &mut tr);
    (tr, lines, x)
}

} // verus!
