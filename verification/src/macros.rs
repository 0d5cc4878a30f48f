//! Macros. A macro is a procedure on syntax: its call is replaced, before
//! anything is evaluated, by what the procedure makes of its arguments as
//! they are written.

use vstd::prelude::*;
use vstd::string::*;
use std::rc::Rc;
use crate::cps::{convert_expr, converted, is_named, malformed, named, sentinel};
use crate::error::{fails_with, Error, ErrorKind, Failure};
use crate::eval::builtin::requoted;
use crate::eval::eval_main::{handled, machine_left, progress_agrees, Progress};
use crate::eval::evaluator::Evaluator;
use crate::format::{format_names, formatted};
use crate::value::{list_of, share, term_of, terms_of, Term, Value};

verus! {

/// What a form at the top level is, as far as macros go.
pub enum Definition {
    /// No definition of a macro.
    Other,
    /// The definition of the macro of this name, with this procedure.
    Macro(Seq<char>, Term),
    /// A `defmacro` of the wrong shape.
    Malformed,
}

/// Whether every item of the chain is a name.
pub open spec fn all_names(t: Term) -> bool
    decreases t,
{
    match t {
        Term::Nil => true,
        Term::Cons(a, b) => *a is Name && all_names(*b),
        _ => false,
    }
}

/// What the form `t` defines. `(defmacro (name arg …) body)` defines the
/// macro `name` as `(lambda (arg …) body)`.
pub open spec fn definition_in(t: Term) -> Definition {
    match t {
        Term::Cons(h, r1) => if *h != named("defmacro"@) {
            Definition::Other
        } else {
            match *r1 {
                Term::Cons(signature, r2) => match (*signature, *r2) {
                    (Term::Cons(name, args), Term::Cons(body, r3)) => if *name is Name
                        && all_names(*args) && *r3 is Nil {
                        Definition::Macro(
                            name->Name_0,
                            list_of(seq![named("lambda"@), *args, *body]),
                        )
                    } else {
                        Definition::Malformed
                    },
                    _ => Definition::Malformed,
                },
                _ => Definition::Malformed,
            }
        },
        _ => Definition::Other,
    }
}

/// The arguments of a macro call, each as it is written: a pair or a name
/// is quoted, any other value stands for itself.
pub open spec fn quoted_items(t: Term) -> Term
    decreases t,
{
    match t {
        Term::Cons(a, b) => Term::Cons(Box::new(requoted(*a)), Box::new(quoted_items(*b))),
        _ => t,
    }
}

/// The expression that is run for a macro call: the call of the macro's
/// procedure on the quoted arguments, with its names formatted, in
/// continuation-passing style.
pub open spec fn expansion_call(function: Term, args: Term) -> Option<Term> {
    converted(
        formatted(Term::Cons(Box::new(function), Box::new(quoted_items(args)))),
        named(sentinel()),
    )
}

/// The failure of a `defmacro` of the wrong shape.
pub open spec fn bad_definition() -> Failure {
    Failure {
        kind: ErrorKind::Expansion,
        message: "expected syntax (defmacro (<name> <args>..) <macro-body>)"@,
    }
}

/// The failure of a `defmacro` inside an expression.
pub open spec fn nested_definition() -> Failure {
    Failure { kind: ErrorKind::Expansion, message: "cannot define a macro inside an expression"@ }
}

/// The failure of a macro call that is nested deeper than allowed in what
/// macro calls expand to.
pub open spec fn too_deep() -> Failure {
    Failure { kind: ErrorKind::Expansion, message: "macro expansion is nested too deep"@ }
}

/// The failure of a second definition of the macro `name`.
pub open spec fn defined_twice(name: Seq<char>) -> Failure {
    Failure {
        kind: ErrorKind::Expansion,
        message: "macro '"@ + name + "' has already been defined"@,
    }
}

fn all_are_names(list: &Rc<Value>) -> (r: bool)
    ensures
        r == all_names(list@),
    decreases list,
{
    proof {
        reveal_with_fuel(term_of, 2);
    }
    match &**list {
        Value::Nil => true,
        Value::Cons { car, cdr } => matches!(&**car, Value::Name(_)) && all_are_names(cdr),
        _ => false,
    }
}

/// What `parse_macro_definition` finds.
pub enum Found {
    /// No definition of a macro.
    Other,
    /// The name of the macro that is defined, and its procedure.
    Macro(String, Rc<Value>),
}

/// The macro that `expr` defines, if it is a `defmacro`; an error where it
/// is one of the wrong shape.
pub fn parse_macro_definition(expr: &Rc<Value>) -> (r: Result<Found, Error>)
    ensures
        match definition_in(expr@) {
            Definition::Other => r matches Ok(Found::Other),
            Definition::Macro(name, function) => r matches Ok(Found::Macro(n, f)) && n@ == name
                && f@ == function,
            Definition::Malformed => fails_with(r, bad_definition()),
        },
{
    proof {
        reveal_with_fuel(term_of, 4);
    }
    if let Value::Cons { car: head, cdr: r1 } = &**expr {
        if !is_named(head, "defmacro") {
            return Ok(Found::Other);
        }
        if let Value::Cons { car: signature, cdr: r2 } = &**r1 {
            if let Value::Cons { car: name, cdr: args } = &**signature {
                if let Value::Cons { car: body, cdr: r3 } = &**r2 {
                    if let Value::Name(n) = &**name {
                        if all_are_names(args) && r3.is_nil() {
                            let mut items: Vec<Rc<Value>> = Vec::new();
                            items.push(Value::named("lambda"));
                            items.push(share(args));
                            items.push(share(body));
                            assert(terms_of(items@) =~= seq![named("lambda"@), args@, body@]);
                            return Ok(Found::Macro(n.clone(), Value::cons_list(&items)));
                        }
                    }
                }
            }
        }
        Err(
            Error::of_kind(
                ErrorKind::Expansion,
                "expected syntax (defmacro (<name> <args>..) <macro-body>)",
            ),
        )
    } else {
        Ok(Found::Other)
    }
}

fn requote(v: &Rc<Value>) -> (r: Rc<Value>)
    ensures
        r@ == requoted(v@),
{
    match &**v {
        Value::Cons { .. } => Value::quoted(v),
        Value::Name(_) => Value::quoted(v),
        _ => share(v),
    }
}

fn generate_quoted_args(args: &Rc<Value>) -> (r: Rc<Value>)
    ensures
        r@ == quoted_items(args@),
    decreases args,
{
    match &**args {
        Value::Cons { car, cdr } => {
            let rest = generate_quoted_args(cdr);
            Value::pair(&requote(car), &rest)
        },
        _ => share(args),
    }
}

/// The expression that is run for the call of a macro with the procedure
/// `function` on the arguments `args`, as they are written.
pub fn to_executable_expression(function: &Rc<Value>, args: &Rc<Value>) -> (r: Result<
    Rc<Value>,
    Error,
>)
    ensures
        match expansion_call(function@, args@) {
            Some(call) => r matches Ok(v) && v@ == call,
            None => fails_with(r, malformed()),
        },
{
    let call = Value::pair(function, &generate_quoted_args(args));
    convert_expr(&format_names(&call))
}

/// The top-level form `expr` with the macro calls in it expanded, as far
/// as `fuel` steps go. The definition of a macro is installed, and gives
/// `nil`. A macro call may be nested at most `depth` deep in what macro
/// calls expand to. The body of a macro runs in the evaluator: where it
/// asks for floating-point arithmetic the question is handed out with the
/// job, and the job goes on with the answer.
pub fn recursively_expand_macros(
    expr: &Rc<Value>,
    evaluator: &mut Evaluator,
    depth: usize,
    fuel: usize,
) -> (r: Result<Progress, Error>)
    ensures
        progress_agrees(
            r,
            handled(
                expr@,
                old(evaluator).macros(),
                old(evaluator).machine(),
                false,
                depth as nat,
                fuel as nat,
            ).outcome,
        ),
        final(evaluator).machine() == machine_left(
            handled(
                expr@,
                old(evaluator).macros(),
                old(evaluator).machine(),
                false,
                depth as nat,
                fuel as nat,
            ).outcome,
        ),
        final(evaluator).macros() == handled(
            expr@,
            old(evaluator).macros(),
            old(evaluator).machine(),
            false,
            depth as nat,
            fuel as nat,
        ).macros,
{
    evaluator.handle(expr, false, depth, fuel)
}

} // verus!
