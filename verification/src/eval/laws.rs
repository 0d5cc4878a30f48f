//! What holds of every evaluation: equality is an equivalence, arithmetic
//! on integers is exact, a call defines nothing, a run ends in the same way
//! however its steps are dealt out, the outcome of a form is fixed by what
//! goes in, and expansion changes nothing where no macro is defined.

use vstd::prelude::*;
use crate::cps::named;
use crate::error::{Error, Failure};
use crate::eval::eval_main::{
    chain_of,
    evaluation,
    expansion_of,
    job_ran,
    moved,
    progress_agrees,
    FrameView,
    JobRan,
    JobView,
    Limits,
    Moved,
    Progress,
    TaskView,
};
use crate::eval::builtin::{applied, equals_of};
use crate::eval::env::{resolved, wrong, Globals};
use crate::eval::evaluator::{machine_after, machine_of, ran, reduction, Machine, Ran};
use crate::eval::lambda::call_of;
use crate::eval::operators::{
    arithmetic_of,
    folded,
    next_or_fail,
    operand_flaw,
    operands,
    Reduction,
};
use crate::integer::{truncated_quotient, truncated_remainder};
use crate::laws::lemma_list_of_two;
use crate::value::{list_items, list_of, terms_of, Term};

verus! {

/// Whether `&equals?` finds what `x` and `y` stand for equal.
pub open spec fn are_equal(x: Term, y: Term, globals: Globals) -> bool {
    equals_of(seq![Term::Nil, x, y], globals) == Ok::<Term, Failure>(
        applied(Term::Nil, Term::Bool(true)),
    )
}

/// The equality that `&equals?` tests is an equivalence on what is
/// defined: each value equals itself, two values are equal in either order
/// or in neither, and two values that equal a third equal one another.
pub proof fn lemma_equality_is_an_equivalence(x: Term, y: Term, z: Term, globals: Globals)
    requires
        resolved(x, globals) is Some,
        resolved(y, globals) is Some,
        resolved(z, globals) is Some,
    ensures
        are_equal(x, x, globals),
        are_equal(x, y, globals) == are_equal(y, x, globals),
        are_equal(x, y, globals) && are_equal(y, z, globals) ==> are_equal(x, z, globals),
        are_equal(x, y, globals) == (resolved(x, globals) == resolved(y, globals)),
{
    lemma_list_of_two(Term::Nil, Term::Bool(true));
    lemma_list_of_two(Term::Nil, Term::Bool(false));
}

/// Equality goes by structure: two pairs are equal where their parts are,
/// and two quotations where what they quote is.
pub proof fn lemma_equality_is_structural(a: Term, b: Term, c: Term, d: Term)
    ensures
        (Term::Quote(Box::new(a)) == Term::Quote(Box::new(b))) == (a == b),
        (Term::Cons(Box::new(a), Box::new(b)) == Term::Cons(Box::new(c), Box::new(d))) == (a
            == c && b == d),
{
}

/// Calling a procedure defines nothing and writes nothing. Whatever the
/// name of a parameter stood for before the call it stands for after it,
/// and a name that stood for nothing stands for nothing.
pub proof fn lemma_call_keeps_globals(f: Term, args: Seq<Term>, m: Machine)
    ensures
        machine_after(next_or_fail(call_of(f, args)), m) == m,
        reduction(Term::Cons(Box::new(f), Box::new(list_of(args))), m.globals) is Define ==> f
            == named("&def"@),
{
}

/// Division of integers rounds toward zero: the quotient times the divisor
/// and the remainder make the dividend, the remainder is smaller in
/// magnitude than the divisor, and it is zero or has the sign of the
/// dividend.
pub proof fn lemma_division_rounds_toward_zero(a: int, b: int)
    requires
        b != 0,
    ensures
        a == b * truncated_quotient(a, b) + truncated_remainder(a, b),
        -b < truncated_remainder(a, b) < b || b < truncated_remainder(a, b) < -b,
        a >= 0 ==> truncated_remainder(a, b) >= 0,
        a <= 0 ==> truncated_remainder(a, b) <= 0,
{
    let x = if a < 0 {
        -a
    } else {
        a
    };
    let y = if b < 0 {
        -b
    } else {
        b
    };
    vstd::arithmetic::div_mod::lemma_fundamental_div_mod(x, y);
    vstd::arithmetic::div_mod::lemma_mod_bound(x, y);
    let q = x / y;
    if (a < 0) == (b < 0) {
        if a < 0 {
            assert(b * q == -(y * q)) by (nonlinear_arith)
                requires
                    b == -y,
            ;
        }
    } else {
        if a < 0 {
            assert(b * (-q) == -(y * q)) by (nonlinear_arith)
                requires
                    b == y,
            ;
        } else {
            assert(b * (-q) == y * q) by (nonlinear_arith)
                requires
                    b == -y,
            ;
        }
    }
}

/// Arithmetic on integers is exact, whatever their size: the sum, the
/// difference and the product of two integers are those of the numbers,
/// and the quotient by an integer that is not zero is rounded toward zero.
/// With a floating-point operand the result is a floating-point number,
/// which the host computes.
pub proof fn lemma_arithmetic_is_exact(k: Term, x: int, y: int, f: Seq<char>, globals: Globals)
    ensures
        arithmetic_of("&+"@, seq![k, Term::Integer(x), Term::Integer(y)], globals)
            == Reduction::Next(applied(k, Term::Integer(x + y))),
        arithmetic_of("&-"@, seq![k, Term::Integer(x), Term::Integer(y)], globals)
            == Reduction::Next(applied(k, Term::Integer(x - y))),
        arithmetic_of("&*"@, seq![k, Term::Integer(x), Term::Integer(y)], globals)
            == Reduction::Next(applied(k, Term::Integer(x * y))),
        y != 0 ==> arithmetic_of("&/"@, seq![k, Term::Integer(x), Term::Integer(y)], globals)
            == Reduction::Next(applied(k, Term::Integer(truncated_quotient(x, y)))),
        arithmetic_of("&/"@, seq![k, Term::Integer(x), Term::Integer(0)], globals)
            == Reduction::Fail(wrong("division by zero"@)),
        arithmetic_of("&+"@, seq![k, Term::Integer(x), Term::Float(f)], globals)
            == Reduction::Ask("&+"@, seq![Term::Integer(x), Term::Float(f)], k),
{
    reveal_strlit("&+");
    reveal_strlit("&-");
    reveal_strlit("&*");
    reveal_strlit("&/");
    assert("&+"@[1] == '+');
    assert("&-"@[1] == '-');
    assert("&*"@[1] == '*');
    reveal_with_fuel(folded, 3);
    reveal_with_fuel(operand_flaw, 4);
    let mixed = seq![k, Term::Integer(x), Term::Float(f)];
    assert(operands(mixed, globals) =~= seq![Term::Integer(x), Term::Float(f)]);
}

/// Running in instalments is running at a stretch: a run of so many steps
/// and then, from where it was left pending, of so many more steps ends as
/// the run of all the steps together does.
pub proof fn lemma_run_in_instalments(current: Term, m: Machine, first: nat, more: nat)
    ensures
        ran(current, m, first + more) == (match ran(current, m, first) {
            Ran::Pending(t, m1) => ran(t, m1, more),
            other => other,
        }),
    decreases first,
{
    if first > 0 {
        match reduction(current, m.globals) {
            Reduction::Next(t) => {
                lemma_run_in_instalments(t, m, (first - 1) as nat, more);
            },
            Reduction::Define(name, value, t) => {
                lemma_run_in_instalments(
                    t,
                    machine_after(Reduction::Define(name, value, t), m),
                    (first - 1) as nat,
                    more,
                );
            },
            Reduction::Print(text, t) => {
                lemma_run_in_instalments(
                    t,
                    machine_after(Reduction::Print(text, t), m),
                    (first - 1) as nat,
                    more,
                );
            },
            _ => {},
        }
    }
}

/// A run that has ended does not end otherwise with more steps: where a
/// run of so many steps ends with a value, a question or an error, a run
/// of more steps ends in the same way.
pub proof fn lemma_more_steps_change_nothing(current: Term, m: Machine, fuel: nat, more: nat)
    requires
        !(ran(current, m, fuel) is Pending),
    ensures
        ran(current, m, fuel + more) == ran(current, m, fuel),
{
    lemma_run_in_instalments(current, m, fuel, more);
}

/// The text that is written only grows: what a run has written when it
/// ends begins with what had been written before it.
pub proof fn lemma_output_only_grows(current: Term, m: Machine, fuel: nat)
    ensures
        m.output.is_prefix_of(machine_of(ran(current, m, fuel)).output),
    decreases fuel,
{
    if fuel > 0 {
        match reduction(current, m.globals) {
            Reduction::Next(t) => {
                lemma_output_only_grows(t, m, (fuel - 1) as nat);
            },
            Reduction::Define(name, value, t) => {
                lemma_output_only_grows(
                    t,
                    machine_after(Reduction::Define(name, value, t), m),
                    (fuel - 1) as nat,
                );
            },
            Reduction::Print(text, t) => {
                let m1 = machine_after(Reduction::Print(text, t), m);
                lemma_output_only_grows(t, m1, (fuel - 1) as nat);
            },
            _ => {},
        }
    }
}

/// Doing a job in instalments is doing it at a stretch: so many steps
/// and then, from where the job was left pending, so many more end as all
/// the steps together do.
pub proof fn lemma_job_in_instalments(
    j: JobView,
    macros: Globals,
    m: Machine,
    first: nat,
    more: nat,
)
    ensures
        job_ran(j, macros, m, first + more) == (match job_ran(j, macros, m, first) {
            JobRan::Pending(j1, m1) => job_ran(j1, macros, m1, more),
            other => other,
        }),
    decreases first,
{
    if first > 0 {
        match moved(j, macros, m) {
            Moved::Next(j2, m2) => {
                lemma_job_in_instalments(j2, macros, m2, (first - 1) as nat, more);
            },
            _ => {},
        }
    }
}

/// The outcome of a form is fixed by the form, the macros, the global
/// names, the text written so far and the steps allowed: the value or the
/// question it ends with, the whole of the error it fails with, what is
/// written, what is defined, and the macros after it. Two evaluators in
/// the same state that are given the same form end in the same state with
/// the same result.
pub proof fn lemma_evaluation_is_determined(
    t: Term,
    macros: Globals,
    m: Machine,
    limits: Limits,
    a: Result<Progress, Error>,
    b: Result<Progress, Error>,
)
    requires
        progress_agrees(a, evaluation(t, macros, m, limits).outcome),
        progress_agrees(b, evaluation(t, macros, m, limits).outcome),
    ensures
        match (a, b) {
            (Ok(Progress::Done(x)), Ok(Progress::Done(y))) => x@ == y@,
            (Ok(Progress::Pending(x)), Ok(Progress::Pending(y))) => x@ == y@,
            (Ok(Progress::Float(p, x)), Ok(Progress::Float(q, y))) => x@ == y@ && p.operator@
                == q.operator@ && terms_of(p.operands@) == terms_of(q.operands@)
                && p.continuation@ == q.continuation@,
            (Err(e), Err(f)) => e@.kind == f@.kind && e@.message == f@.message && e@.filename
                == f@.filename && e@.stack_trace =~= f@.stack_trace,
            _ => false,
        },
{
}

/// Whether `t` holds a `defmacro` as the head of one of its forms.
pub open spec fn holds_definition(t: Term) -> bool
    decreases t,
{
    match t {
        Term::Cons(h, rest) => *h == named("defmacro"@) || holds_definition(*h)
            || holds_definition(*rest),
        _ => false,
    }
}

/// How many steps the expansion of the form `t` takes where no macro is
/// defined.
pub open spec fn steps_of(t: Term) -> nat
    decreases t, 1nat,
{
    match t {
        Term::Cons(h, rest) => if list_items(*rest) is None {
            1
        } else {
            1 + steps_of(*h) + steps_after(*rest)
        },
        _ => 1,
    }
}

/// How many steps the expansion of the items of the chain `t` takes, once
/// the item before them is handed in.
pub open spec fn steps_after(t: Term) -> nat
    decreases t, 0nat,
{
    match t {
        Term::Cons(a, b) => 1 + steps_of(*a) + steps_after(*b),
        _ => 1,
    }
}

proof fn lemma_chain_grows(items: Seq<Term>, a: Term, b: Term)
    ensures
        chain_of(items.push(a), b) == chain_of(items, Term::Cons(Box::new(a), Box::new(b))),
    decreases items.len(),
{
    if items.len() == 0 {
        assert(items.push(a).drop_first() =~= Seq::<Term>::empty());
    } else {
        assert(items.push(a).drop_first() =~= items.drop_first().push(a));
        lemma_chain_grows(items.drop_first(), a, b);
    }
}

proof fn lemma_plain_expansion(t: Term, j: JobView, m: Machine, fuel: nat)
    requires
        !holds_definition(t),
        j.task == TaskView::Expand(t),
    ensures
        job_ran(j, Map::empty(), m, steps_of(t) + fuel) == job_ran(
            JobView { task: TaskView::Give(t), ..j },
            Map::empty(),
            m,
            fuel,
        ),
    decreases t, 1nat,
{
    reveal(moved);
    let macros = Map::<Seq<char>, Term>::empty();
    match t {
        Term::Cons(h, rest) => {
            if list_items(*rest) is Some {
                let j1 = JobView {
                    frames: j.frames.push(FrameView::Items(Seq::empty(), *rest)),
                    task: TaskView::Expand(*h),
                    ..j
                };
                assert(moved(j, macros, m) == Moved::Next(j1, m));
                assert(job_ran(j, macros, m, steps_of(t) + fuel) == job_ran(
                    j1,
                    macros,
                    m,
                    steps_of(*h) + (steps_after(*rest) + fuel),
                ));
                lemma_plain_expansion(*h, j1, m, steps_after(*rest) + fuel);
                let j2 = JobView { task: TaskView::Give(*h), ..j1 };
                assert(j1.frames.drop_last() =~= j.frames);
                lemma_plain_items(*rest, Seq::empty(), *h, j2, j.frames, m, fuel);
                lemma_chain_grows(Seq::empty(), *h, *rest);
                assert(chain_of(Seq::<Term>::empty(), t) == t);
            }
        },
        _ => {},
    }
}

proof fn lemma_plain_items(
    rest: Term,
    done: Seq<Term>,
    v: Term,
    j: JobView,
    below: Seq<FrameView>,
    m: Machine,
    fuel: nat,
)
    requires
        !holds_definition(rest),
        j.task == TaskView::Give(v),
        j.frames == below.push(FrameView::Items(done, rest)),
    ensures
        job_ran(j, Map::empty(), m, steps_after(rest) + fuel) == job_ran(
            JobView { frames: below, task: TaskView::Give(chain_of(done.push(v), rest)), ..j },
            Map::empty(),
            m,
            fuel,
        ),
    decreases rest, 0nat,
{
    reveal(moved);
    let macros = Map::<Seq<char>, Term>::empty();
    assert(j.frames.drop_last() =~= below);
    assert(j.frames.last() == FrameView::Items(done, rest));
    match rest {
        Term::Cons(a, b) => {
            let j1 = JobView {
                frames: below.push(FrameView::Items(done.push(v), *b)),
                task: TaskView::Expand(*a),
                ..j
            };
            assert(moved(j, macros, m) == Moved::Next(j1, m));
            assert(job_ran(j, macros, m, steps_after(rest) + fuel) == job_ran(
                j1,
                macros,
                m,
                steps_of(*a) + (steps_after(*b) + fuel),
            ));
            lemma_plain_expansion(*a, j1, m, steps_after(*b) + fuel);
            let j2 = JobView { task: TaskView::Give(*a), ..j1 };
            lemma_plain_items(*b, done.push(v), *a, j2, below, m, fuel);
            lemma_chain_grows(done.push(v), *a, *b);
        },
        _ => {
            let j1 = JobView {
                frames: below,
                task: TaskView::Give(chain_of(done.push(v), rest)),
                ..j
            };
            assert(moved(j, macros, m) == Moved::Next(j1, m));
        },
    }
}

/// Where no macro is defined, expansion changes nothing: a form without a
/// `defmacro` in it expands to itself, in steps that its size fixes, and
/// nothing is written or defined on the way.
pub proof fn lemma_expansion_without_macros(t: Term, depth: nat, m: Machine)
    requires
        !holds_definition(t),
    ensures
        job_ran(expansion_of(t, depth), Map::empty(), m, steps_of(t) + 1) == JobRan::Done(t, m),
{
    reveal(moved);
    let j = expansion_of(t, depth);
    lemma_plain_expansion(t, j, m, 1);
    let given = JobView { task: TaskView::Give(t), ..j };
    assert(moved(given, Map::empty(), m) == Moved::Done(t, m));
}

} // verus!
