//! Calling a procedure: its body, with each parameter replaced by the
//! argument it was given. Names are replaced in the text of the body, so a
//! call never touches the global environment, and what a name stood for
//! before the call it stands for after it.
//!
//! What is quoted is data and keeps its names: inside the quoted tree of a
//! `&quote` only the names that the conversion made up, which stand for
//! what was unquoted, are replaced.

use vstd::prelude::*;
use vstd::string::*;
use std::rc::Rc;
use crate::cps::{is_named, named};
use crate::error::{Error, ErrorKind, Failure};
use crate::eval::env::{agrees, wrong};
use crate::text::joined;
use crate::text::{decimal_of, nat_text};
use crate::value::{copy_names, share, terms_of, Term, Value};

verus! {

/// The value given to the parameter `n` among the first `i` parameters; the
/// later of two parameters of one name counts.
pub open spec fn binding_of(names: Seq<Seq<char>>, values: Seq<Term>, n: Seq<char>, i: int) -> Option<
    Term,
>
    decreases i,
{
    if i <= 0 || i > names.len() || i > values.len() {
        None
    } else if names[i - 1] == n {
        Some(values[i - 1])
    } else {
        binding_of(names, values, n, i - 1)
    }
}

/// A name that the conversion makes up: it begins with `@@`, as no name of
/// a program does once it is formatted.
pub open spec fn is_made_up(n: Seq<char>) -> bool {
    n.len() >= 2 && n[0] == '@' && n[1] == '@'
}

/// What the name `n` is replaced by: its value where it is a parameter and
/// not hidden, and else itself.
pub open spec fn replaced(
    n: Seq<char>,
    names: Seq<Seq<char>>,
    values: Seq<Term>,
    hidden: Seq<Seq<char>>,
) -> Term {
    if hidden.contains(n) {
        Term::Name(n)
    } else {
        match binding_of(names, values, n, names.len() as int) {
            Some(v) => v,
            None => Term::Name(n),
        }
    }
}

/// The tree `t` with each parameter replaced by its value. The parameters
/// of a procedure inside `t` hide those of the same name in its body, and
/// so do the names in `hidden`; what is inside a quoted value stays.
pub open spec fn substituted(
    t: Term,
    names: Seq<Seq<char>>,
    values: Seq<Term>,
    hidden: Seq<Seq<char>>,
) -> Term
    decreases t,
{
    match t {
        Term::Name(n) => replaced(n, names, values, hidden),
        Term::Cons(a, b) => if *a == named("&quote"@) {
            Term::Cons(a, Box::new(substituted_quotation(*b, names, values, hidden)))
        } else {
            Term::Cons(
                Box::new(substituted(*a, names, values, hidden)),
                Box::new(substituted(*b, names, values, hidden)),
            )
        },
        Term::Lambda(ps, body) => Term::Lambda(
            ps,
            Box::new(substituted(*body, names, values, hidden + ps)),
        ),
        _ => t,
    }
}

/// What follows the head of a `&quote`, with the parameters replaced: in
/// the continuation as everywhere, and in the quoted tree as in data.
pub open spec fn substituted_quotation(
    t: Term,
    names: Seq<Seq<char>>,
    values: Seq<Term>,
    hidden: Seq<Seq<char>>,
) -> Term
    decreases t,
{
    match t {
        Term::Cons(k, data) => Term::Cons(
            Box::new(substituted(*k, names, values, hidden)),
            Box::new(substituted_data(*data, names, values, hidden)),
        ),
        _ => t,
    }
}

/// The quoted tree `t` with each parameter that the conversion made up
/// replaced by its value. Every other name in it stays, parameter or not.
pub open spec fn substituted_data(
    t: Term,
    names: Seq<Seq<char>>,
    values: Seq<Term>,
    hidden: Seq<Seq<char>>,
) -> Term
    decreases t,
{
    match t {
        Term::Name(n) => if is_made_up(n) {
            replaced(n, names, values, hidden)
        } else {
            t
        },
        Term::Cons(a, b) => Term::Cons(
            Box::new(substituted_data(*a, names, values, hidden)),
            Box::new(substituted_data(*b, names, values, hidden)),
        ),
        _ => t,
    }
}

/// The message of the error for a call with the wrong number of arguments.
pub open spec fn arity_message(wanted: nat, given: nat) -> Seq<char> {
    "function takes "@ + nat_text(wanted) + " arguments but received "@ + nat_text(given)
}

/// The call of `f` on `args`: `f` must be a procedure of as many
/// parameters; the call is its body with the arguments in their place.
pub open spec fn call_of(f: Term, args: Seq<Term>) -> Result<Term, Failure> {
    match f {
        Term::Lambda(ps, body) => if ps.len() == args.len() {
            Ok(substituted(*body, ps, args, Seq::empty()))
        } else {
            Err(wrong(arity_message(ps.len(), args.len())))
        },
        _ => Err(wrong("attempt to call a non-function value"@)),
    }
}

fn is_among(names: &Vec<String>, n: &String) -> (r: bool)
    ensures
        r == names.deep_view().contains(n@),
{
    let mut i: usize = 0;
    while i < names.len()
        invariant
            i <= names@.len(),
            forall|j: int| 0 <= j < i ==> names.deep_view()[j] != n@,
        decreases names@.len() - i,
    {
        if names[i] == *n {
            assert(names.deep_view()[i as int] == n@);
            return true;
        }
        i = i + 1;
    }
    false
}

fn bound_value(names: &Vec<String>, values: &Vec<Rc<Value>>, n: &String) -> (r: Option<Rc<Value>>)
    requires
        names@.len() == values@.len(),
    ensures
        match binding_of(names.deep_view(), terms_of(values@), n@, names@.len() as int) {
            Some(v) => r is Some && r->0@ == v,
            None => r is None,
        },
{
    let mut i: usize = names.len();
    while i > 0
        invariant
            i <= names@.len(),
            names@.len() == values@.len(),
            binding_of(names.deep_view(), terms_of(values@), n@, names@.len() as int)
                == binding_of(names.deep_view(), terms_of(values@), n@, i as int),
        decreases i,
    {
        i = i - 1;
        if names[i] == *n {
            return Some(share(&values[i]));
        }
    }
    None
}

fn joined_names(a: &Vec<String>, b: &Vec<String>) -> (r: Vec<String>)
    ensures
        r.deep_view() == a.deep_view() + b.deep_view(),
{
    let mut r = copy_names(a);
    let mut i: usize = 0;
    while i < b.len()
        invariant
            i <= b@.len(),
            r.deep_view() == a.deep_view() + b.deep_view().subrange(0, i as int),
        decreases b@.len() - i,
    {
        let ghost before = r.deep_view();
        r.push(b[i].clone());
        assert(r.deep_view() =~= before.push(b@[i as int]@));
        i = i + 1;
    }
    r
}

fn replace(expr: &Rc<Value>, n: &String, names: &Vec<String>, values: &Vec<Rc<Value>>, hidden: &Vec<
    String,
>) -> (r: Rc<Value>)
    requires
        names@.len() == values@.len(),
        expr@ == Term::Name(n@),
    ensures
        r@ == replaced(n@, names.deep_view(), terms_of(values@), hidden.deep_view()),
{
    if is_among(hidden, n) {
        share(expr)
    } else {
        match bound_value(names, values, n) {
            Some(v) => v,
            None => share(expr),
        }
    }
}

fn made_up(n: &String) -> (r: bool)
    ensures
        r == is_made_up(n@),
{
    let text = n.as_str();
    text.unicode_len() >= 2 && text.get_char(0) == '@' && text.get_char(1) == '@'
}

/// `expr` with each of the parameters `names` replaced by its value, but
/// for those that `hidden` or a procedure inside `expr` hides, and but for
/// the names of a program in what is quoted.
pub fn recursively_bind_args(
    expr: &Rc<Value>,
    names: &Vec<String>,
    values: &Vec<Rc<Value>>,
    hidden: &Vec<String>,
) -> (r: Rc<Value>)
    requires
        names@.len() == values@.len(),
    ensures
        r@ == substituted(expr@, names.deep_view(), terms_of(values@), hidden.deep_view()),
    decreases expr,
{
    match &**expr {
        Value::Name(n) => replace(expr, n, names, values, hidden),
        Value::Cons { car, cdr } => {
            if is_named(car, "&quote") {
                let b = bind_in_quotation(cdr, names, values, hidden);
                Rc::new(Value::Cons { car: share(car), cdr: b })
            } else {
                let a = recursively_bind_args(car, names, values, hidden);
                let b = recursively_bind_args(cdr, names, values, hidden);
                Rc::new(Value::Cons { car: a, cdr: b })
            }
        },
        Value::Lambda { args, body } => {
            let inner = joined_names(hidden, args);
            let b = recursively_bind_args(body, names, values, &inner);
            Rc::new(Value::Lambda { args: copy_names(args), body: b })
        },
        _ => share(expr),
    }
}

fn bind_in_quotation(
    expr: &Rc<Value>,
    names: &Vec<String>,
    values: &Vec<Rc<Value>>,
    hidden: &Vec<String>,
) -> (r: Rc<Value>)
    requires
        names@.len() == values@.len(),
    ensures
        r@ == substituted_quotation(
            expr@,
            names.deep_view(),
            terms_of(values@),
            hidden.deep_view(),
        ),
    decreases expr,
{
    match &**expr {
        Value::Cons { car, cdr } => {
            let k = recursively_bind_args(car, names, values, hidden);
            let data = bind_in_data(cdr, names, values, hidden);
            Rc::new(Value::Cons { car: k, cdr: data })
        },
        _ => share(expr),
    }
}

fn bind_in_data(
    expr: &Rc<Value>,
    names: &Vec<String>,
    values: &Vec<Rc<Value>>,
    hidden: &Vec<String>,
) -> (r: Rc<Value>)
    requires
        names@.len() == values@.len(),
    ensures
        r@ == substituted_data(expr@, names.deep_view(), terms_of(values@), hidden.deep_view()),
    decreases expr,
{
    match &**expr {
        Value::Name(n) => {
            if made_up(n) {
                replace(expr, n, names, values, hidden)
            } else {
                share(expr)
            }
        },
        Value::Cons { car, cdr } => {
            let a = bind_in_data(car, names, values, hidden);
            let b = bind_in_data(cdr, names, values, hidden);
            Rc::new(Value::Cons { car: a, cdr: b })
        },
        _ => share(expr),
    }
}

/// The call of the procedure `function` on the arguments `args`: the body
/// with the arguments in the place of the parameters. A value that is no
/// procedure cannot be called, and the number of arguments must be the
/// number of parameters.
pub fn evaluate_lambda_funcall(function: &Rc<Value>, args: &Vec<Rc<Value>>) -> (r: Result<
    Rc<Value>,
    Error,
>)
    ensures
        agrees(r, call_of(function@, terms_of(args@))),
{
    match &**function {
        Value::Lambda { args: names, body } => {
            if names.len() != args.len() {
                let wanted = decimal_of(names.len());
                let given = decimal_of(args.len());
                let mut message = joined("function takes ", wanted.as_str());
                message.append(" arguments but received ");
                message.append(given.as_str());
                return Err(Error::of_kind(ErrorKind::Evaluation, message.as_str()));
            }
            let hidden: Vec<String> = Vec::new();
            assert(hidden.deep_view() =~= Seq::<Seq<char>>::empty());
            Ok(recursively_bind_args(body, names, args, &hidden))
        },
        _ => Err(Error::of_kind(ErrorKind::Evaluation, "attempt to call a non-function value")),
    }
}

} // verus!
