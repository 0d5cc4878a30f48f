//! Name formatting: every identifier of a program gets the prefix `&`, so
//! that no name of the user's can be one that the interpreter makes up.

use vstd::prelude::*;
use vstd::string::*;
use std::rc::Rc;
use crate::text::joined;
use crate::value::{share, Term, Value};

verus! {

/// A name with its prefix: the name itself where it is empty or already
/// starts with `&`.
pub open spec fn prefixed(name: Seq<char>) -> Seq<char> {
    if name.len() == 0 || name[0] == '&' {
        name
    } else {
        "&"@ + name
    }
}

/// The tree with every name in it prefixed. Pairs are gone into; the inside
/// of a procedure or of a quoted value is left alone.
pub open spec fn formatted(t: Term) -> Term
    decreases t,
{
    match t {
        Term::Name(n) => Term::Name(prefixed(n)),
        Term::Cons(a, b) => Term::Cons(Box::new(formatted(*a)), Box::new(formatted(*b))),
        _ => t,
    }
}

/// Prefixes every name in `value` with `&`, unless it has the prefix already.
pub fn format_names(value: &Rc<Value>) -> (r: Rc<Value>)
    ensures
        r@ == formatted(value@),
    decreases value,
{
    match &**value {
        Value::Name(name) => {
            let text = name.as_str();
            if text.unicode_len() == 0 {
                share(value)
            } else if text.get_char(0) == '&' {
                share(value)
            } else {
                Rc::new(Value::Name(joined("&", text)))
            }
        },
        Value::Cons { car, cdr } => {
            let a = format_names(car);
            let b = format_names(cdr);
            Rc::new(Value::Cons { car: a, cdr: b })
        },
        _ => share(value),
    }
}

/// Formatting twice is formatting once.
pub proof fn lemma_format_is_idempotent(t: Term)
    ensures
        formatted(formatted(t)) == formatted(t),
    decreases t,
{
    match t {
        Term::Name(n) => {
            reveal_strlit("&");
        },
        Term::Cons(a, b) => {
            lemma_format_is_idempotent(*a);
            lemma_format_is_idempotent(*b);
        },
        _ => {},
    }
}

} // verus!
