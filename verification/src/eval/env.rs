//! The global environment: what each defined name stands for.

use vstd::prelude::*;
use vstd::string::*;
use std::rc::Rc;
use crate::error::{fails_with, Error, ErrorKind, Failure};
use crate::text::joined;
use crate::value::{share, Term, Value};

verus! {

/// The global environment as a mathematical map from names to trees.
pub type Globals = Map<Seq<char>, Term>;

/// One definition: a name and the value it stands for.
pub struct Binding {
    name: String,
    value: Rc<Value>,
}

/// The global environment. A new definition of a name takes the place of
/// the one before.
pub struct Env {
    globals: Vec<Binding>,
}

/// The map that the first `n` definitions make.
pub open spec fn bound(bindings: Seq<(Seq<char>, Term)>, n: int) -> Globals
    decreases n,
{
    if n <= 0 || n > bindings.len() {
        Map::empty()
    } else {
        bound(bindings, n - 1).insert(bindings[n - 1].0, bindings[n - 1].1)
    }
}

/// What `t` stands for: a name is looked up, anything else stands for
/// itself. `None` for a name that is not defined.
pub open spec fn resolved(t: Term, globals: Globals) -> Option<Term> {
    match t {
        Term::Name(n) => if globals.contains_key(n) {
            Some(globals[n])
        } else {
            None
        },
        _ => Some(t),
    }
}

/// A name without the prefix `&` that formatting gave it.
pub open spec fn unprefixed(name: Seq<char>) -> Seq<char> {
    if name.len() > 0 && name[0] == '&' {
        name.subrange(1, name.len() as int)
    } else {
        name
    }
}

/// The message of the error for a name that is not defined.
pub open spec fn unbound_message(name: Seq<char>) -> Seq<char> {
    "Unbound name '"@ + unprefixed(name) + "'"@
}

/// Whether a result is the one expected: the value, or the plain error of
/// the failure.
pub open spec fn agrees(r: Result<Rc<Value>, Error>, expected: Result<Term, Failure>) -> bool {
    match expected {
        Ok(t) => r is Ok && r->Ok_0@ == t,
        Err(failure) => fails_with(r, failure),
    }
}

/// The failure of an evaluation that says `message`.
pub open spec fn wrong(message: Seq<char>) -> Failure {
    Failure { kind: ErrorKind::Evaluation, message }
}

/// What `t` stands for, or the failure that says which name is not
/// defined.
pub open spec fn bound_to(t: Term, globals: Globals) -> Result<Term, Failure> {
    match resolved(t, globals) {
        Some(v) => Ok(v),
        None => Err(wrong(unbound_message(t->Name_0))),
    }
}

impl Env {
    /// The definitions, oldest first.
    pub closed spec fn definitions(&self) -> Seq<(Seq<char>, Term)> {
        Seq::new(self.globals@.len(), |i: int| (self.globals@[i].name@, self.globals@[i].value@))
    }

    /// An environment without definitions.
    pub fn new() -> (r: Env)
        ensures
            r@ == Map::<Seq<char>, Term>::empty(),
    {
        Env { globals: Vec::new() }
    }

    /// Defines `name` as `value`, in place of what it stood for before.
    pub fn define(&mut self, name: &str, value: &Rc<Value>)
        ensures
            final(self)@ == old(self)@.insert(name@, value@),
    {
        let ghost before = self.definitions();
        let wanted = String::from_str(name);
        let mut i: usize = self.globals.len();
        while i > 0
            invariant
                i <= self.globals@.len(),
                before == self.definitions(),
                self.globals == old(self).globals,
                wanted@ == name@,
                forall|j: int| i <= j < before.len() ==> before[j].0 != name@,
            decreases i,
        {
            i = i - 1;
            if self.globals[i].name == wanted {
                self.globals.set(i, Binding { name: wanted, value: share(value) });
                proof {
                    let after = self.definitions();
                    assert(after =~= before.update(i as int, (name@, value@)));
                    lemma_bound_update(before, after, i as int, before.len() as int);
                }
                return ;
            }
        }
        self.globals.push(Binding { name: wanted, value: share(value) });
        proof {
            let after = self.definitions();
            lemma_bound_prefix(before, after, before.len() as int);
        }
    }

    /// What `name` stands for, if it is defined.
    pub fn lookup(&self, name: &str) -> (r: Option<Rc<Value>>)
        ensures
            match r {
                Some(v) => self@.contains_key(name@) && self@[name@] == v@,
                None => !self@.contains_key(name@),
            },
    {
        let wanted = String::from_str(name);
        let mut i: usize = self.globals.len();
        let ghost all = self.definitions();
        while i > 0
            invariant
                i <= self.globals@.len(),
                all == self.definitions(),
                wanted@ == name@,
                self@.contains_key(name@) == bound(all, i as int).contains_key(name@),
                self@.contains_key(name@) ==> self@[name@] == bound(all, i as int)[name@],
            decreases i,
        {
            i = i - 1;
            if self.globals[i].name == wanted {
                return Some(share(&self.globals[i].value));
            }
        }
        None
    }

    /// What `value` stands for: a name is looked up, anything else stands
    /// for itself. A name that is not defined is an error, which names it
    /// without its prefix.
    pub fn resolve(&self, value: &Rc<Value>) -> (r: Result<Rc<Value>, Error>)
        ensures
            agrees(r, bound_to(value@, self@)),
    {
        match &**value {
            Value::Name(name) => match self.lookup(name.as_str()) {
                Some(v) => Ok(v),
                None => {
                    let text = name.as_str();
                    let n = text.unicode_len();
                    let shown = if n > 0 && text.get_char(0) == '&' {
                        text.substring_char(1, n)
                    } else {
                        text
                    };
                    let mut message = joined("Unbound name '", shown);
                    message.append("'");
                    Err(Error::of_kind(ErrorKind::Evaluation, message.as_str()))
                },
            },
            _ => Ok(share(value)),
        }
    }
}

impl View for Env {
    type V = Globals;

    closed spec fn view(&self) -> Globals {
        bound(self.definitions(), self.definitions().len() as int)
    }
}

proof fn lemma_bound_update(
    a: Seq<(Seq<char>, Term)>,
    b: Seq<(Seq<char>, Term)>,
    i: int,
    n: int,
)
    requires
        0 <= i < a.len(),
        b == a.update(i, (a[i].0, b[i].1)),
        forall|j: int| i < j < a.len() ==> a[j].0 != a[i].0,
        0 <= n <= a.len(),
    ensures
        bound(b, n) == (if n > i {
            bound(a, n).insert(a[i].0, b[i].1)
        } else {
            bound(a, n)
        }),
    decreases n,
{
    if n > 0 {
        lemma_bound_update(a, b, i, n - 1);
    }
}

proof fn lemma_bound_prefix(a: Seq<(Seq<char>, Term)>, b: Seq<(Seq<char>, Term)>, n: int)
    requires
        0 <= n <= a.len() <= b.len(),
        forall|i: int| 0 <= i < a.len() ==> a[i] == b[i],
    ensures
        bound(a, n) == bound(b, n),
    decreases n,
{
    if n > 0 {
        lemma_bound_prefix(a, b, n - 1);
    }
}

} // verus!
