//! The built-in operators on lists, quotations, types and text. Each takes
//! the arguments of its call, the continuation first, and gives the
//! expression to go on with: the continuation applied to the result.

use vstd::prelude::*;
use vstd::string::*;
use std::rc::Rc;
use crate::cps::{converted, list_of_two, malformed, CPSConverter};
use crate::error::{fails_with, Error, ErrorKind, Failure};
use crate::eval::env::{agrees, bound_to, resolved, wrong, Env, Globals};
use crate::value::{list_of, rendered, share, term_of, terms_of, Term, Value};

verus! {

/// The call of the continuation `k` on the value `v`.
pub open spec fn applied(k: Term, v: Term) -> Term {
    list_of(seq![k, v])
}

/// `t` without the quotation around it, if there is one.
pub open spec fn unquoted(t: Term) -> Term {
    match t {
        Term::Quote(inner) => *inner,
        _ => t,
    }
}

/// `t` quoted again where it would otherwise be evaluated: a pair or a name.
pub open spec fn requoted(t: Term) -> Term {
    match t {
        Term::Cons(_, _) => Term::Quote(Box::new(t)),
        Term::Name(_) => Term::Quote(Box::new(t)),
        _ => t,
    }
}

/// `(&car k x)`: `x` must stand for a quoted pair; `k` gets its first part.
pub open spec fn car_of(args: Seq<Term>, globals: Globals) -> Result<Term, Failure> {
    if args.len() != 2 {
        Err(wrong("function 'car' takes 1 argument"@))
    } else {
        match bound_to(args[1], globals) {
            Ok(Term::Quote(pair)) => match *pair {
                Term::Cons(a, _) => Ok(applied(args[0], requoted(*a))),
                _ => Err(wrong("function 'car' expected to receive cons pair"@)),
            },
            Ok(_) => Err(wrong("function 'car' expected to receive cons pair"@)),
            Err(failure) => Err(failure),
        }
    }
}

/// `(&cdr k x)`: `x` must stand for a quoted pair; `k` gets its second part.
pub open spec fn cdr_of(args: Seq<Term>, globals: Globals) -> Result<Term, Failure> {
    if args.len() != 2 {
        Err(wrong("function 'cdr' takes 1 argument"@))
    } else {
        match bound_to(args[1], globals) {
            Ok(Term::Quote(pair)) => match *pair {
                Term::Cons(_, b) => Ok(applied(args[0], requoted(*b))),
                _ => Err(wrong("function 'cdr' expected to receive cons pair"@)),
            },
            Ok(_) => Err(wrong("function 'cdr' expected to receive cons pair"@)),
            Err(failure) => Err(failure),
        }
    }
}

/// What two operands stand for, or the failure of the first of them that
/// is not defined.
pub open spec fn both_bound(a: Term, b: Term, globals: Globals) -> Result<(Term, Term), Failure> {
    match bound_to(a, globals) {
        Ok(x) => match bound_to(b, globals) {
            Ok(y) => Ok((x, y)),
            Err(failure) => Err(failure),
        },
        Err(failure) => Err(failure),
    }
}

/// `(&cons k a b)`: `k` gets the quoted pair of what `a` and `b` stand for,
/// each without its own quotation.
pub open spec fn cons_of(args: Seq<Term>, globals: Globals) -> Result<Term, Failure> {
    if args.len() != 3 {
        Err(wrong("function 'cons' expected 2 arguments"@))
    } else {
        match both_bound(args[1], args[2], globals) {
            Ok((a, b)) => Ok(
                applied(
                    args[0],
                    Term::Quote(
                        Box::new(Term::Cons(Box::new(unquoted(a)), Box::new(unquoted(b)))),
                    ),
                ),
            ),
            Err(failure) => Err(failure),
        }
    }
}

/// `(&eval k v)`: where `v` stands for a quotation, what is quoted is
/// converted to end in `k` and run; any other value goes to `k` as it is.
pub open spec fn eval_of(args: Seq<Term>, globals: Globals) -> Result<Term, Failure> {
    if args.len() != 2 {
        Err(wrong("function 'eval' takes exactly one argument"@))
    } else {
        match bound_to(args[1], globals) {
            Ok(Term::Quote(inner)) => match converted(*inner, args[0]) {
                Some(t) => Ok(t),
                None => Err(malformed()),
            },
            Ok(v) => Ok(applied(args[0], v)),
            Err(failure) => Err(failure),
        }
    }
}

/// `(&if c t f)`: `t` where `c` stands for true, `f` where it stands for
/// false. Both already end in the continuation of the whole.
pub open spec fn if_of(args: Seq<Term>, globals: Globals) -> Result<Term, Failure> {
    if args.len() != 3 {
        Err(wrong("if expression has syntax (if <condition> <true case> <false case>)"@))
    } else {
        match bound_to(args[0], globals) {
            Ok(Term::Bool(b)) => Ok(
                if b {
                    args[1]
                } else {
                    args[2]
                },
            ),
            Ok(_) => Err(wrong("if expression expected a boolean condition"@)),
            Err(failure) => Err(failure),
        }
    }
}

/// `(&quote k v)`: `k` gets `v` quoted, or `v` itself where it is quoted
/// already.
pub open spec fn quote_of(args: Seq<Term>) -> Result<Term, Failure> {
    if args.len() != 2 {
        Err(wrong("function 'quote' takes exactly one value"@))
    } else if args[1] is Quote {
        Ok(applied(args[0], args[1]))
    } else {
        Ok(applied(args[0], Term::Quote(Box::new(args[1]))))
    }
}

/// `(&equals? k x y)`: `k` gets whether `x` and `y` stand for the same
/// tree. Two floating-point numbers are the same where their numerals are:
/// to compare them as numbers is for `&==`.
pub open spec fn equals_of(args: Seq<Term>, globals: Globals) -> Result<Term, Failure> {
    if args.len() != 3 {
        Err(wrong("function 'equals?' takes exactly 2 parameters"@))
    } else {
        match both_bound(args[1], args[2], globals) {
            Ok((x, y)) => Ok(applied(args[0], Term::Bool(x == y))),
            Err(failure) => Err(failure),
        }
    }
}

/// The kinds of value that a type predicate asks for.
#[derive(Clone, Copy, Debug, PartialEq, Eq, Structural)]
pub enum Kind {
    Bool,
    Cons,
    Float,
    Int,
    Name,
    Nil,
    Quote,
    Str,
}

/// Whether `t` is of the kind.
pub open spec fn is_of_kind(t: Term, kind: Kind) -> bool {
    match kind {
        Kind::Bool => t is Bool,
        Kind::Cons => t is Cons,
        Kind::Float => t is Float,
        Kind::Int => t is Integer,
        Kind::Name => t is Name,
        Kind::Nil => t is Nil,
        Kind::Quote => t is Quote,
        Kind::Str => t is Text,
    }
}

/// A type predicate `(p k v)`: `k` gets whether what `v` stands for is of
/// the kind. One quotation around the value is looked through; only the
/// question whether the value is a quotation is asked of the value itself.
pub open spec fn type_test_of(args: Seq<Term>, globals: Globals, kind: Kind) -> Result<
    Term,
    Failure,
> {
    if args.len() != 2 {
        Err(wrong("a type predicate takes exactly one argument"@))
    } else {
        match bound_to(args[1], globals) {
            Ok(v) => Ok(
                applied(
                    args[0],
                    Term::Bool(
                        is_of_kind(
                            if kind == Kind::Quote {
                                v
                            } else {
                                unquoted(v)
                            },
                            kind,
                        ),
                    ),
                ),
            ),
            Err(failure) => Err(failure),
        }
    }
}

/// The text that printing `v` writes.
pub open spec fn printed(v: Term, newline: bool) -> Seq<char> {
    if newline {
        rendered(v) + "\n"@
    } else {
        rendered(v)
    }
}

/// `(&print k v)`: `k` gets what `v` stands for.
pub open spec fn print_of(args: Seq<Term>, globals: Globals) -> Result<Term, Failure> {
    if args.len() != 2 {
        Err(wrong("print takes 1 argument only"@))
    } else {
        match bound_to(args[1], globals) {
            Ok(v) => Ok(applied(args[0], v)),
            Err(failure) => Err(failure),
        }
    }
}

/// `(&panic k message)`: the failure that ends the program. It says what
/// `message` stands for.
pub open spec fn panic_of(args: Seq<Term>, globals: Globals) -> Failure {
    if args.len() != 2 {
        wrong("expected syntax (panic <message>)"@)
    } else {
        match bound_to(args[1], globals) {
            Ok(v) => Failure { kind: ErrorKind::UserPanic, message: rendered(v) },
            Err(failure) => failure,
        }
    }
}

/// `(&def k name v)`: the name that is defined and the value it gets.
pub open spec fn definition_of(args: Seq<Term>) -> Result<(Seq<char>, Term), Failure> {
    if args.len() != 3 {
        Err(wrong("expected syntax (def <name> <value>)"@))
    } else {
        match args[1] {
            Term::Name(n) => Ok((n, args[2])),
            _ => Err(wrong("expected name in def expression"@)),
        }
    }
}

fn unquote(v: &Rc<Value>) -> (r: Rc<Value>)
    ensures
        r@ == unquoted(v@),
{
    match &**v {
        Value::Quote(inner) => share(inner),
        _ => share(v),
    }
}

fn requote(v: &Rc<Value>) -> (r: Rc<Value>)
    ensures
        r@ == requoted(v@),
{
    match &**v {
        Value::Cons { .. } => Value::quoted(v),
        Value::Name(_) => Value::quoted(v),
        _ => share(v),
    }
}

fn failure(message: &str) -> (r: Result<Rc<Value>, Error>)
    ensures
        fails_with(r, wrong(message@)),
{
    Err(Error::of_kind(ErrorKind::Evaluation, message))
}

/// The first part of a quoted pair.
pub fn car(args: &Vec<Rc<Value>>, env: &Env) -> (r: Result<Rc<Value>, Error>)
    ensures
        agrees(r, car_of(terms_of(args@), env@)),
{
    proof {
        reveal_with_fuel(term_of, 3);
    }
    if args.len() != 2 {
        return failure("function 'car' takes 1 argument");
    }
    let x = env.resolve(&args[1])?;
    if let Value::Quote(pair) = &*x {
        if let Value::Cons { car, cdr: _ } = &**pair {
            return Ok(list_of_two(&args[0], &requote(car)));
        }
    }
    failure("function 'car' expected to receive cons pair")
}

/// The second part of a quoted pair.
pub fn cdr(args: &Vec<Rc<Value>>, env: &Env) -> (r: Result<Rc<Value>, Error>)
    ensures
        agrees(r, cdr_of(terms_of(args@), env@)),
{
    proof {
        reveal_with_fuel(term_of, 3);
    }
    if args.len() != 2 {
        return failure("function 'cdr' takes 1 argument");
    }
    let x = env.resolve(&args[1])?;
    if let Value::Quote(pair) = &*x {
        if let Value::Cons { car: _, cdr } = &**pair {
            return Ok(list_of_two(&args[0], &requote(cdr)));
        }
    }
    failure("function 'cdr' expected to receive cons pair")
}

/// The quoted pair of two values.
pub fn cons(args: &Vec<Rc<Value>>, env: &Env) -> (r: Result<Rc<Value>, Error>)
    ensures
        agrees(r, cons_of(terms_of(args@), env@)),
{
    if args.len() != 3 {
        return failure("function 'cons' expected 2 arguments");
    }
    let a = env.resolve(&args[1]);
    let b = env.resolve(&args[2]);
    match (a, b) {
        (Ok(a), Ok(b)) => {
            let pair = Value::pair(&unquote(&a), &unquote(&b));
            Ok(list_of_two(&args[0], &Value::quoted(&pair)))
        },
        (Err(e), _) => Err(e),
        (_, Err(e)) => Err(e),
    }
}

/// Runs what a quotation holds.
pub fn eval_quoted(args: &Vec<Rc<Value>>, env: &Env) -> (r: Result<Rc<Value>, Error>)
    ensures
        agrees(r, eval_of(terms_of(args@), env@)),
{
    if args.len() != 2 {
        return failure("function 'eval' takes exactly one argument");
    }
    let v = env.resolve(&args[1])?;
    match &*v {
        Value::Quote(inner) => CPSConverter::convert_expr_with_continuation(inner, &args[0]),
        _ => Ok(list_of_two(&args[0], &v)),
    }
}

/// Chooses a branch by a boolean.
pub fn if_expr(args: &Vec<Rc<Value>>, env: &Env) -> (r: Result<Rc<Value>, Error>)
    ensures
        agrees(r, if_of(terms_of(args@), env@)),
{
    if args.len() != 3 {
        return failure("if expression has syntax (if <condition> <true case> <false case>)");
    }
    let c = env.resolve(&args[0])?;
    match &*c {
        Value::Bool(b) => if *b {
            Ok(share(&args[1]))
        } else {
            Ok(share(&args[2]))
        },
        _ => failure("if expression expected a boolean condition"),
    }
}

/// Quotes a value.
pub fn quote_value(args: &Vec<Rc<Value>>) -> (r: Result<Rc<Value>, Error>)
    ensures
        agrees(r, quote_of(terms_of(args@))),
{
    if args.len() != 2 {
        return failure("function 'quote' takes exactly one value");
    }
    match &*args[1] {
        Value::Quote(_) => Ok(list_of_two(&args[0], &args[1])),
        _ => Ok(list_of_two(&args[0], &Value::quoted(&args[1]))),
    }
}

/// Whether two values are the same tree.
pub fn values_are_equal(args: &Vec<Rc<Value>>, env: &Env) -> (r: Result<Rc<Value>, Error>)
    ensures
        agrees(r, equals_of(terms_of(args@), env@)),
{
    if args.len() != 3 {
        return failure("function 'equals?' takes exactly 2 parameters");
    }
    let x = env.resolve(&args[1]);
    let y = env.resolve(&args[2]);
    match (x, y) {
        (Ok(x), Ok(y)) => Ok(list_of_two(&args[0], &Value::boolean(x.equals(&y)))),
        (Err(e), _) => Err(e),
        (_, Err(e)) => Err(e),
    }
}

fn value_is(v: &Value, kind: Kind) -> (r: bool)
    ensures
        r == is_of_kind(v@, kind),
{
    match kind {
        Kind::Bool => matches!(v, Value::Bool(_)),
        Kind::Cons => matches!(v, Value::Cons { .. }),
        Kind::Float => matches!(v, Value::Float(_)),
        Kind::Int => matches!(v, Value::Integer(_)),
        Kind::Name => matches!(v, Value::Name(_)),
        Kind::Nil => matches!(v, Value::Nil),
        Kind::Quote => matches!(v, Value::Quote(_)),
        Kind::Str => matches!(v, Value::String(_)),
    }
}

/// A type predicate for the given kind.
pub fn type_test(args: &Vec<Rc<Value>>, env: &Env, kind: Kind) -> (r: Result<Rc<Value>, Error>)
    ensures
        agrees(r, type_test_of(terms_of(args@), env@, kind)),
{
    if args.len() != 2 {
        return failure("a type predicate takes exactly one argument");
    }
    let v = env.resolve(&args[1])?;
    let answer = match kind {
        Kind::Quote => value_is(&v, kind),
        _ => value_is(&unquote(&v), kind),
    };
    Ok(list_of_two(&args[0], &Value::boolean(answer)))
}

/// Whether a value is a boolean.
pub fn value_is_bool(args: &Vec<Rc<Value>>, env: &Env) -> (r: Result<Rc<Value>, Error>)
    ensures
        agrees(r, type_test_of(terms_of(args@), env@, Kind::Bool)),
{
    type_test(args, env, Kind::Bool)
}

/// Whether a value is a pair.
pub fn value_is_cons(args: &Vec<Rc<Value>>, env: &Env) -> (r: Result<Rc<Value>, Error>)
    ensures
        agrees(r, type_test_of(terms_of(args@), env@, Kind::Cons)),
{
    type_test(args, env, Kind::Cons)
}

/// Whether a value is a floating-point number.
pub fn value_is_float(args: &Vec<Rc<Value>>, env: &Env) -> (r: Result<Rc<Value>, Error>)
    ensures
        agrees(r, type_test_of(terms_of(args@), env@, Kind::Float)),
{
    type_test(args, env, Kind::Float)
}

/// Whether a value is an integer.
pub fn value_is_int(args: &Vec<Rc<Value>>, env: &Env) -> (r: Result<Rc<Value>, Error>)
    ensures
        agrees(r, type_test_of(terms_of(args@), env@, Kind::Int)),
{
    type_test(args, env, Kind::Int)
}

/// Whether a value is `nil`.
pub fn value_is_nil(args: &Vec<Rc<Value>>, env: &Env) -> (r: Result<Rc<Value>, Error>)
    ensures
        agrees(r, type_test_of(terms_of(args@), env@, Kind::Nil)),
{
    type_test(args, env, Kind::Nil)
}

/// Whether a value is a name.
pub fn value_is_name(args: &Vec<Rc<Value>>, env: &Env) -> (r: Result<Rc<Value>, Error>)
    ensures
        agrees(r, type_test_of(terms_of(args@), env@, Kind::Name)),
{
    type_test(args, env, Kind::Name)
}

/// Whether a value is a string.
pub fn value_is_str(args: &Vec<Rc<Value>>, env: &Env) -> (r: Result<Rc<Value>, Error>)
    ensures
        agrees(r, type_test_of(terms_of(args@), env@, Kind::Str)),
{
    type_test(args, env, Kind::Str)
}

/// Whether a value is a quotation.
pub fn value_is_quote(args: &Vec<Rc<Value>>, env: &Env) -> (r: Result<Rc<Value>, Error>)
    ensures
        agrees(r, type_test_of(terms_of(args@), env@, Kind::Quote)),
{
    type_test(args, env, Kind::Quote)
}

/// Writes a value to `out`, with a line end after it where `newline` is
/// set, and hands the value on.
pub fn print_value(args: &Vec<Rc<Value>>, env: &Env, newline: bool, out: &mut Vec<String>) -> (r:
    Result<Rc<Value>, Error>)
    ensures
        agrees(r, print_of(terms_of(args@), env@)),
        r is Ok ==> final(out).deep_view() == old(out).deep_view().push(
            printed(resolved(terms_of(args@)[1], env@)->0, newline),
        ),
        r is Err ==> final(out).deep_view() == old(out).deep_view(),
{
    if args.len() != 2 {
        return failure("print takes 1 argument only");
    }
    let v = env.resolve(&args[1])?;
    let mut text = v.to_text();
    if newline {
        text.append("\n");
    }
    out.push(text);
    Ok(list_of_two(&args[0], &v))
}

/// The error that `(&panic k message)` ends the program with. Its message
/// is the text of what `message` stands for.
pub fn panic(args: &Vec<Rc<Value>>, env: &Env) -> (r: Result<Rc<Value>, Error>)
    ensures
        fails_with(r, panic_of(terms_of(args@), env@)),
{
    if args.len() != 2 {
        return failure("expected syntax (panic <message>)");
    }
    let v = env.resolve(&args[1])?;
    let text = v.to_text();
    Err(Error::of_kind(ErrorKind::UserPanic, text.as_str()))
}

/// Defines a global name and hands `nil` on.
pub fn define_value(args: &Vec<Rc<Value>>, env: &mut Env) -> (r: Result<Rc<Value>, Error>)
    ensures
        match definition_of(terms_of(args@)) {
            Ok((name, value)) => r is Ok && r->Ok_0@ == applied(terms_of(args@)[0], Term::Nil)
                && final(env)@ == old(env)@.insert(name, value),
            Err(failure) => fails_with(r, failure) && final(env)@ == old(env)@,
        },
{
    if args.len() != 3 {
        return failure("expected syntax (def <name> <value>)");
    }
    match &*args[1] {
        Value::Name(name) => {
            env.define(name.as_str(), &args[2]);
            Ok(list_of_two(&args[0], &Value::nil()))
        },
        _ => failure("expected name in def expression"),
    }
}

} // verus!
