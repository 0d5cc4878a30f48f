//! The arithmetic, logical and comparison operators.
//!
//! Integers are computed here. A floating-point operand makes the call a
//! question for the host: this library keeps such a number as its numeral
//! and does no arithmetic on it.

use vstd::prelude::*;
use vstd::string::*;
use std::rc::Rc;
use crate::cps::list_of_two;
use crate::error::{fails_with, Error, ErrorKind, Failure};
use crate::eval::builtin::{applied, both_bound};
use crate::eval::env::{agrees, bound_to, resolved, wrong, Env, Globals};
use crate::integer::{truncated_quotient, truncated_remainder, Integer};
use crate::text::is_text;
use crate::value::{share, terms_of, Term, Value};

verus! {

/// What one step of the evaluator does.
pub enum Reduction {
    /// Evaluation goes on with the expression.
    Next(Term),
    /// The name gets the value, and evaluation goes on with the expression.
    Define(Seq<char>, Term, Term),
    /// The text is written, and evaluation goes on with the expression.
    Print(Seq<char>, Term),
    /// Evaluation ends with the value.
    Halt(Term),
    /// The host is asked to apply the operator to the operands, at least
    /// one of them a floating-point number, and to hand the result to the
    /// continuation.
    Ask(Seq<char>, Seq<Term>, Term),
    /// Evaluation fails.
    Fail(Failure),
}

/// A question for the host: an operator, its operands, which are numbers,
/// and the continuation that takes the answer.
#[derive(Debug)]
pub struct FloatRequest {
    pub operator: String,
    pub operands: Vec<Rc<Value>>,
    pub continuation: Rc<Value>,
}

/// What one step of the evaluator gives back.
#[derive(Debug)]
pub enum Step {
    /// The expression to go on with.
    Next(Rc<Value>),
    /// The final value.
    Halt(Rc<Value>),
    /// A question for the host.
    Float(FloatRequest),
}

/// Whether a step is the one expected, as far as its result goes: the
/// value, the question, or the kind and the message of the error.
pub open spec fn step_agrees(r: Result<Step, Error>, expected: Reduction) -> bool {
    match expected {
        Reduction::Next(t) => r matches Ok(Step::Next(v)) && v@ == t,
        Reduction::Define(_, _, t) => r matches Ok(Step::Next(v)) && v@ == t,
        Reduction::Print(_, t) => r matches Ok(Step::Next(v)) && v@ == t,
        Reduction::Halt(t) => r matches Ok(Step::Halt(v)) && v@ == t,
        Reduction::Ask(operator, operands, k) => r matches Ok(Step::Float(q)) && q.operator@
            == operator && terms_of(q.operands@) == operands && q.continuation@ == k,
        Reduction::Fail(failure) => r matches Err(e) && e@.kind == failure.kind && e@.message
            == failure.message,
    }
}

/// The step that goes on with a value, or fails.
pub open spec fn next_or_fail(r: Result<Term, Failure>) -> Reduction {
    match r {
        Ok(t) => Reduction::Next(t),
        Err(failure) => Reduction::Fail(failure),
    }
}

/// Whether `t` is a number.
pub open spec fn is_number(t: Term) -> bool {
    t is Integer || t is Float
}

/// The failure of the first operand from the `i`-th on that is not
/// defined or stands for no number; `None` where each stands for a number.
pub open spec fn operand_flaw(args: Seq<Term>, globals: Globals, i: int) -> Option<Failure>
    decreases args.len() - i,
{
    if i < 1 || i >= args.len() {
        None
    } else {
        match bound_to(args[i], globals) {
            Ok(v) => if is_number(v) {
                operand_flaw(args, globals, i + 1)
            } else {
                Some(wrong("an arithmetic expression takes numeric arguments"@))
            },
            Err(failure) => Some(failure),
        }
    }
}

/// What the operands of the call stand for; the continuation is left out.
pub open spec fn operands(args: Seq<Term>, globals: Globals) -> Seq<Term> {
    Seq::new((args.len() - 1) as nat, |i: int| resolved(args[i + 1], globals)->0)
}

/// Whether one of the numbers is a floating-point number.
pub open spec fn any_float(xs: Seq<Term>) -> bool {
    exists|i: int| 0 <= i < xs.len() && #[trigger] xs[i] is Float
}

/// One arithmetic operation on integers. Division rounds toward zero and
/// fails on a zero divisor.
pub open spec fn integer_operation(op: Seq<char>, a: int, b: int) -> Option<int> {
    if op == "&+"@ {
        Some(a + b)
    } else if op == "&-"@ {
        Some(a - b)
    } else if op == "&*"@ {
        Some(a * b)
    } else if op == "&/"@ && b != 0 {
        Some(truncated_quotient(a, b))
    } else {
        None
    }
}

/// The first `n` integers combined from the left, starting with the first.
pub open spec fn folded(op: Seq<char>, xs: Seq<Term>, n: int) -> Option<int>
    decreases n,
{
    if n <= 1 {
        Some(xs[0]->Integer_0)
    } else {
        match folded(op, xs, n - 1) {
            Some(acc) => integer_operation(op, acc, xs[n - 1]->Integer_0),
            None => None,
        }
    }
}

/// The failure of combining integers: a division by zero, or an operator
/// that is none of the four.
pub open spec fn fold_failure(op: Seq<char>) -> Failure {
    if op == "&/"@ {
        wrong("division by zero"@)
    } else {
        wrong("unknown arithmetic operator"@)
    }
}

/// `(op k x1 … xn)` for `&+`, `&-`, `&*`, `&/`, with at least one operand.
/// Integers are combined from the left; a single operand of `&-` is
/// negated, and of the others is the result. With a floating-point operand
/// the host is asked.
pub open spec fn arithmetic_of(op: Seq<char>, args: Seq<Term>, globals: Globals) -> Reduction {
    if args.len() < 2 {
        Reduction::Fail(wrong("an arithmetic expression takes at least 1 argument"@))
    } else {
        match operand_flaw(args, globals, 1) {
            Some(failure) => Reduction::Fail(failure),
            None => {
                let xs = operands(args, globals);
                if any_float(xs) {
                    Reduction::Ask(op, xs, args[0])
                } else if xs.len() == 1 {
                    if op == "&-"@ {
                        Reduction::Next(applied(args[0], Term::Integer(-(xs[0]->Integer_0))))
                    } else {
                        Reduction::Next(applied(args[0], xs[0]))
                    }
                } else {
                    match folded(op, xs, xs.len() as int) {
                        Some(v) => Reduction::Next(applied(args[0], Term::Integer(v))),
                        None => Reduction::Fail(fold_failure(op)),
                    }
                }
            },
        }
    }
}

/// `(&% k x y)`: the remainder of two integers, with the sign of `x`; two
/// floating-point numbers are for the host; any other pair fails, and so
/// does a zero divisor.
pub open spec fn modulo_of(args: Seq<Term>, globals: Globals) -> Reduction {
    if args.len() != 3 {
        Reduction::Fail(wrong("modulo expressions take exactly 2 arguments"@))
    } else {
        match both_bound(args[1], args[2], globals) {
            Ok((Term::Integer(x), Term::Integer(y))) => if y == 0 {
                Reduction::Fail(wrong("division by zero"@))
            } else {
                Reduction::Next(applied(args[0], Term::Integer(truncated_remainder(x, y))))
            },
            Ok((Term::Float(x), Term::Float(y))) => Reduction::Ask(
                "&%"@,
                seq![Term::Float(x), Term::Float(y)],
                args[0],
            ),
            Ok((Term::Float(_), Term::Integer(_))) => Reduction::Fail(
                wrong("cannot take the integer modulo of a float"@),
            ),
            Ok(_) => Reduction::Fail(wrong("modulo expressions take two integers or two floats"@)),
            Err(failure) => Reduction::Fail(failure),
        }
    }
}

/// One comparison of integers.
pub open spec fn integer_comparison(op: Seq<char>, x: int, y: int) -> Option<bool> {
    if op == "&=="@ {
        Some(x == y)
    } else if op == "&!="@ {
        Some(x != y)
    } else if op == "&<"@ {
        Some(x < y)
    } else if op == "&>"@ {
        Some(x > y)
    } else if op == "&<="@ {
        Some(x <= y)
    } else if op == "&>="@ {
        Some(x >= y)
    } else {
        None
    }
}

/// `(op k x y)` for the six comparisons: two integers are compared here,
/// and with a floating-point number the host is asked.
pub open spec fn comparison_of(op: Seq<char>, args: Seq<Term>, globals: Globals) -> Reduction {
    if args.len() != 3 {
        Reduction::Fail(wrong("comparisons take exactly 2 values"@))
    } else {
        match both_bound(args[1], args[2], globals) {
            Ok((x, y)) => if !is_number(x) || !is_number(y) {
                Reduction::Fail(wrong("comparisons take two numeric values"@))
            } else if x is Integer && y is Integer {
                match integer_comparison(op, x->Integer_0, y->Integer_0) {
                    Some(b) => Reduction::Next(applied(args[0], Term::Bool(b))),
                    None => Reduction::Fail(wrong("unknown comparison"@)),
                }
            } else {
                Reduction::Ask(op, seq![x, y], args[0])
            },
            Err(failure) => Reduction::Fail(failure),
        }
    }
}

/// One logical operation on two booleans.
pub open spec fn boolean_operation(op: Seq<char>, x: bool, y: bool) -> Option<bool> {
    if op == "&and"@ {
        Some(x && y)
    } else if op == "&or"@ {
        Some(x || y)
    } else if op == "&xor"@ {
        Some(x != y)
    } else {
        None
    }
}

/// `(op k x y)` for `&and`, `&or`, `&xor`, on two booleans.
pub open spec fn logical_of(op: Seq<char>, args: Seq<Term>, globals: Globals) -> Result<
    Term,
    Failure,
> {
    if args.len() != 3 {
        Err(wrong("logical expressions take exactly 2 arguments"@))
    } else {
        match both_bound(args[1], args[2], globals) {
            Ok((Term::Bool(x), Term::Bool(y))) => match boolean_operation(op, x, y) {
                Some(b) => Ok(applied(args[0], Term::Bool(b))),
                None => Err(wrong("unknown logical operator"@)),
            },
            Ok(_) => Err(wrong("logical expressions take boolean arguments"@)),
            Err(failure) => Err(failure),
        }
    }
}

/// `(&not k x)` on a boolean.
pub open spec fn negation_of(args: Seq<Term>, globals: Globals) -> Result<Term, Failure> {
    if args.len() != 2 {
        Err(wrong("'not' expressions take exactly 1 argument"@))
    } else {
        match bound_to(args[1], globals) {
            Ok(Term::Bool(x)) => Ok(applied(args[0], Term::Bool(!x))),
            Ok(_) => Err(wrong("'not' expressions take a boolean argument"@)),
            Err(failure) => Err(failure),
        }
    }
}

fn failed(message: &str) -> (r: Result<Step, Error>)
    ensures
        fails_with(r, wrong(message@)),
{
    Err(Error::of_kind(ErrorKind::Evaluation, message))
}

fn refused(message: &str) -> (r: Result<Rc<Value>, Error>)
    ensures
        fails_with(r, wrong(message@)),
{
    Err(Error::of_kind(ErrorKind::Evaluation, message))
}

fn next(k: &Rc<Value>, v: &Rc<Value>) -> (r: Result<Step, Error>)
    ensures
        r matches Ok(Step::Next(e)) && e@ == applied(k@, v@),
{
    Ok(Step::Next(list_of_two(k, v)))
}

fn ask(operator: &String, operands: Vec<Rc<Value>>, k: &Rc<Value>) -> (r: Result<Step, Error>)
    ensures
        step_agrees(r, Reduction::Ask(operator@, terms_of(operands@), k@)),
{
    Ok(
        Step::Float(
            FloatRequest { operator: operator.clone(), operands, continuation: share(k) },
        ),
    )
}

fn integer_result(op: &String, a: &Integer, b: &Integer) -> (r: Option<Integer>)
    ensures
        match integer_operation(op@, a@, b@) {
            Some(v) => r is Some && r->0@ == v,
            None => r is None,
        },
{
    if is_text(op, "&+") {
        Some(a.plus(b))
    } else if is_text(op, "&-") {
        Some(a.minus(b))
    } else if is_text(op, "&*") {
        Some(a.times(b))
    } else if is_text(op, "&/") {
        a.quotient(b)
    } else {
        None
    }
}

/// An arithmetic expression.
pub fn arithmetic_expression(op: &String, args: &Vec<Rc<Value>>, env: &Env) -> (r: Result<
    Step,
    Error,
>)
    ensures
        step_agrees(r, arithmetic_of(op@, terms_of(args@), env@)),
        r is Err ==> r->Err_0@.is_plain(),
{
    if args.len() < 2 {
        return failed("an arithmetic expression takes at least 1 argument");
    }
    let ghost terms = terms_of(args@);
    let mut numbers: Vec<Rc<Value>> = Vec::new();
    let mut floats = false;
    let mut i: usize = 1;
    while i < args.len()
        invariant
            1 <= i <= args@.len(),
            terms == terms_of(args@),
            numbers@.len() == i - 1,
            operand_flaw(terms, env@, 1) == operand_flaw(terms, env@, i as int),
            forall|j: int|
                1 <= j < i ==> (#[trigger] resolved(terms[j], env@)) is Some && is_number(
                    resolved(terms[j], env@)->0,
                ),
            forall|j: int| 0 <= j < i - 1 ==> numbers@[j]@ == resolved(terms[j + 1], env@)->0,
            floats == exists|j: int| 0 <= j < i - 1 && #[trigger] terms_of(numbers@)[j] is Float,
        decreases args@.len() - i,
    {
        let ghost before = terms_of(numbers@);
        let v = match env.resolve(&args[i]) {
            Ok(v) => v,
            Err(e) => {
                return Err(e);
            },
        };
        match &*v {
            Value::Float(_) => {
                floats = true;
            },
            Value::Integer(_) => {},
            _ => {
                return failed("an arithmetic expression takes numeric arguments");
            },
        }
        numbers.push(v);
        proof {
            let after = terms_of(numbers@);
            assert(forall|j: int| 0 <= j < i - 1 ==> after[j] == before[j]);
            assert(after[i - 1] == v@);
            if floats && !(v@ is Float) {
                let j = choose|j: int| 0 <= j < i - 1 && #[trigger] before[j] is Float;
                assert(after[j] is Float);
            }
        }
        i = i + 1;
    }
    let ghost xs = operands(terms, env@);
    assert(terms_of(numbers@) =~= xs);
    if floats {
        return ask(op, numbers, &args[0]);
    }
    assert(forall|j: int| 0 <= j < xs.len() ==> #[trigger] xs[j] is Integer) by {
        assert forall|j: int| 0 <= j < xs.len() implies #[trigger] xs[j] is Integer by {
            assert(resolved(terms[j + 1], env@) is Some);
            assert(!(xs[j] is Float));
        }
    }
    if numbers.len() == 1 {
        return match &*numbers[0] {
            Value::Integer(x) => if is_text(op, "&-") {
                next(&args[0], &Value::integer(x.negated()))
            } else {
                next(&args[0], &numbers[0])
            },
            _ => failed("an arithmetic expression takes numeric arguments"),
        };
    }
    let mut acc = match &*numbers[0] {
        Value::Integer(x) => x.copy(),
        _ => {
            return failed("an arithmetic expression takes numeric arguments");
        },
    };
    let mut n: usize = 1;
    while n < numbers.len()
        invariant
            1 <= n <= numbers@.len(),
            xs == terms_of(numbers@),
            xs == operands(terms_of(args@), env@),
            args@.len() >= 2,
            xs.len() > 1,
            operand_flaw(terms_of(args@), env@, 1) is None,
            !any_float(xs),
            forall|j: int| 0 <= j < xs.len() ==> #[trigger] xs[j] is Integer,
            folded(op@, xs, n as int) == Some(acc@),
        decreases numbers@.len() - n,
    {
        let next_acc = match &*numbers[n] {
            Value::Integer(x) => integer_result(op, &acc, x),
            _ => None,
        };
        match next_acc {
            Some(v) => {
                acc = v;
            },
            None => {
                proof {
                    lemma_fold_fails(op@, xs, n + 1, xs.len() as int);
                }
                return if is_text(op, "&/") {
                    failed("division by zero")
                } else {
                    failed("unknown arithmetic operator")
                };
            },
        }
        n = n + 1;
    }
    next(&args[0], &Value::integer(acc))
}

proof fn lemma_fold_fails(op: Seq<char>, xs: Seq<Term>, n: int, m: int)
    requires
        1 <= n <= m,
        folded(op, xs, n) is None,
    ensures
        folded(op, xs, m) is None,
    decreases m - n,
{
    if n < m {
        lemma_fold_fails(op, xs, n, m - 1);
    }
}

/// The remainder of a division.
pub fn modulo(args: &Vec<Rc<Value>>, env: &Env) -> (r: Result<Step, Error>)
    ensures
        step_agrees(r, modulo_of(terms_of(args@), env@)),
        r is Err ==> r->Err_0@.is_plain(),
{
    if args.len() != 3 {
        return failed("modulo expressions take exactly 2 arguments");
    }
    let x = env.resolve(&args[1]);
    let y = env.resolve(&args[2]);
    match (x, y) {
        (Ok(x), Ok(y)) => match (&*x, &*y) {
            (Value::Integer(a), Value::Integer(b)) => match a.remainder(b) {
                Some(v) => next(&args[0], &Value::integer(v)),
                None => failed("division by zero"),
            },
            (Value::Float(_), Value::Float(_)) => {
                let mut numbers: Vec<Rc<Value>> = Vec::new();
                numbers.push(share(&x));
                numbers.push(share(&y));
                assert(terms_of(numbers@) =~= seq![x@, y@]);
                ask(&String::from_str("&%"), numbers, &args[0])
            },
            (Value::Float(_), Value::Integer(_)) => failed(
                "cannot take the integer modulo of a float",
            ),
            _ => failed("modulo expressions take two integers or two floats"),
        },
        (Err(e), _) => Err(e),
        (_, Err(e)) => Err(e),
    }
}

fn boolean_result(op: &String, x: bool, y: bool) -> (r: Option<bool>)
    ensures
        r == boolean_operation(op@, x, y),
{
    if is_text(op, "&and") {
        Some(x && y)
    } else if is_text(op, "&or") {
        Some(x || y)
    } else if is_text(op, "&xor") {
        Some(x != y)
    } else {
        None
    }
}

/// A logical operation on two booleans.
pub fn logical_operation(op: &String, args: &Vec<Rc<Value>>, env: &Env) -> (r: Result<
    Rc<Value>,
    Error,
>)
    ensures
        agrees(r, logical_of(op@, terms_of(args@), env@)),
{
    if args.len() != 3 {
        return refused("logical expressions take exactly 2 arguments");
    }
    let x = env.resolve(&args[1]);
    let y = env.resolve(&args[2]);
    match (x, y) {
        (Ok(x), Ok(y)) => match (&*x, &*y) {
            (Value::Bool(a), Value::Bool(b)) => match boolean_result(op, *a, *b) {
                Some(v) => Ok(list_of_two(&args[0], &Value::boolean(v))),
                None => refused("unknown logical operator"),
            },
            _ => refused("logical expressions take boolean arguments"),
        },
        (Err(e), _) => Err(e),
        (_, Err(e)) => Err(e),
    }
}

/// The negation of a boolean.
pub fn logical_negation(args: &Vec<Rc<Value>>, env: &Env) -> (r: Result<Rc<Value>, Error>)
    ensures
        agrees(r, negation_of(terms_of(args@), env@)),
{
    if args.len() != 2 {
        return refused("'not' expressions take exactly 1 argument");
    }
    let x = env.resolve(&args[1])?;
    match &*x {
        Value::Bool(b) => Ok(list_of_two(&args[0], &Value::boolean(!*b))),
        _ => refused("'not' expressions take a boolean argument"),
    }
}

fn integer_comparison_result(op: &String, x: &Integer, y: &Integer) -> (r: Option<bool>)
    ensures
        r == integer_comparison(op@, x@, y@),
{
    if is_text(op, "&==") {
        Some(x.is_equal(y))
    } else if is_text(op, "&!=") {
        Some(!x.is_equal(y))
    } else if is_text(op, "&<") {
        Some(x.is_less(y))
    } else if is_text(op, "&>") {
        Some(y.is_less(x))
    } else if is_text(op, "&<=") {
        Some(!y.is_less(x))
    } else if is_text(op, "&>=") {
        Some(!x.is_less(y))
    } else {
        None
    }
}

/// A comparison of two numbers.
pub fn comparison(op: &String, args: &Vec<Rc<Value>>, env: &Env) -> (r: Result<Step, Error>)
    ensures
        step_agrees(r, comparison_of(op@, terms_of(args@), env@)),
        r is Err ==> r->Err_0@.is_plain(),
{
    if args.len() != 3 {
        return failed("comparisons take exactly 2 values");
    }
    let x = env.resolve(&args[1]);
    let y = env.resolve(&args[2]);
    match (x, y) {
        (Ok(x), Ok(y)) => match (&*x, &*y) {
            (Value::Integer(a), Value::Integer(b)) => match integer_comparison_result(op, a, b) {
                Some(v) => next(&args[0], &Value::boolean(v)),
                None => failed("unknown comparison"),
            },
            (Value::Integer(_), Value::Float(_))
            | (Value::Float(_), Value::Integer(_))
            | (Value::Float(_), Value::Float(_)) => {
                let mut numbers: Vec<Rc<Value>> = Vec::new();
                numbers.push(share(&x));
                numbers.push(share(&y));
                assert(terms_of(numbers@) =~= seq![x@, y@]);
                ask(op, numbers, &args[0])
            },
            _ => failed("comparisons take two numeric values"),
        },
        (Err(e), _) => Err(e),
        (_, Err(e)) => Err(e),
    }
}

} // verus!
