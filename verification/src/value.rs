//! The one value that every stage works on, and the tree it stands for.

use vstd::prelude::*;
use vstd::string::*;
use std::rc::Rc;
use crate::integer::Integer;
use crate::text::decimal_text;

verus! {

/// What a `Value` stands for: a finite tree. Contracts speak of this tree.
pub enum Term {
    /// The empty list, which is also the unit value.
    Nil,
    Bool(bool),
    Integer(int),
    /// A floating-point number, by its numeral.
    Float(Seq<char>),
    /// A string, with the quote characters it was written with.
    Text(Seq<char>),
    /// An identifier.
    Name(Seq<char>),
    /// An ordered pair.
    Cons(Box<Term>, Box<Term>),
    /// A procedure: the names of its parameters, and its body.
    Lambda(Seq<Seq<char>>, Box<Term>),
    /// A value that is not to be evaluated.
    Quote(Box<Term>),
}

/// The universal value. Sub-values are shared by reference count and never
/// change once built.
#[derive(Debug)]
pub enum Value {
    Nil,
    Bool(bool),
    Integer(Integer),
    Float(String),
    String(String),
    Name(String),
    Cons { car: Rc<Value>, cdr: Rc<Value> },
    Lambda { args: Vec<String>, body: Rc<Value> },
    Quote(Rc<Value>),
}

/// The tree that `v` stands for.
pub open spec fn term_of(v: Value) -> Term
    decreases v,
{
    match v {
        Value::Nil => Term::Nil,
        Value::Bool(b) => Term::Bool(b),
        Value::Integer(i) => Term::Integer(i@),
        Value::Float(s) => Term::Float(s@),
        Value::String(s) => Term::Text(s@),
        Value::Name(s) => Term::Name(s@),
        Value::Cons { car, cdr } => Term::Cons(Box::new(term_of(*car)), Box::new(term_of(*cdr))),
        Value::Lambda { args, body } => Term::Lambda(args.deep_view(), Box::new(term_of(*body))),
        Value::Quote(inner) => Term::Quote(Box::new(term_of(*inner))),
    }
}

impl View for Value {
    type V = Term;

    open spec fn view(&self) -> Term {
        term_of(*self)
    }
}

/// The trees that a sequence of values stands for.
pub open spec fn terms_of(vs: Seq<Rc<Value>>) -> Seq<Term> {
    Seq::new(vs.len(), |i: int| vs[i]@)
}

/// The items of a proper list; `None` for anything else.
pub open spec fn list_items(t: Term) -> Option<Seq<Term>>
    decreases t,
{
    match t {
        Term::Nil => Some(Seq::empty()),
        Term::Cons(a, b) => match list_items(*b) {
            Some(rest) => Some(seq![*a] + rest),
            None => None,
        },
        _ => None,
    }
}

/// The items of the chain of pairs that `t` begins, whatever the chain
/// ends in; none for a value that is no pair.
pub open spec fn chain_items(t: Term) -> Seq<Term>
    decreases t,
{
    match t {
        Term::Cons(a, b) => seq![*a] + chain_items(*b),
        _ => Seq::empty(),
    }
}

/// The proper list of the given items.
pub open spec fn list_of(items: Seq<Term>) -> Term
    decreases items.len(),
{
    if items.len() == 0 {
        Term::Nil
    } else {
        Term::Cons(Box::new(items[0]), Box::new(list_of(items.drop_first())))
    }
}

/// The name that a tree is, or the empty text where it is no name.
pub open spec fn name_of(t: Term) -> Seq<char> {
    match t {
        Term::Name(n) => n,
        _ => Seq::empty(),
    }
}

/// The text a tree is shown as.
pub open spec fn rendered(t: Term) -> Seq<char>
    decreases t, 0nat,
{
    match t {
        Term::Nil => "nil"@,
        Term::Bool(b) => if b {
            "true"@
        } else {
            "false"@
        },
        Term::Integer(i) => decimal_text(i),
        Term::Float(s) => s,
        Term::Text(s) => s,
        Term::Name(s) => s,
        Term::Cons(a, b) => "("@ + rendered(*a) + rendered_tail(*b) + ")"@,
        Term::Lambda(_, _) => "<function>"@,
        Term::Quote(v) => "'"@ + rendered(*v),
    }
}

/// The text for what follows the first item of a list: each further item
/// after a space, and a tail that is not a list after ` . `.
pub open spec fn rendered_tail(t: Term) -> Seq<char>
    decreases t, 1nat,
{
    match t {
        Term::Nil => Seq::empty(),
        Term::Cons(a, b) => " "@ + rendered(*a) + rendered_tail(*b),
        _ => " . "@ + rendered(t),
    }
}

/// A second handle on a shared value. `Rc::clone` copies the pointer and
/// counts it: the value behind the new handle is the value behind the old.
#[verifier::external_body]
pub(crate) fn share(v: &Rc<Value>) -> (r: Rc<Value>)
    ensures
        r == *v,
{
    Rc::clone(v)
}

/// Copies of the given names.
pub fn copy_names(names: &Vec<String>) -> (r: Vec<String>)
    ensures
        r.deep_view() == names.deep_view(),
{
    let mut r: Vec<String> = Vec::new();
    let mut i: usize = 0;
    while i < names.len()
        invariant
            i <= names@.len(),
            r@.len() == i,
            forall|j: int| 0 <= j < i ==> r@[j]@ == names@[j]@,
        decreases names@.len() - i,
    {
        r.push(names[i].clone());
        i = i + 1;
    }
    r
}

/// Whether the two lists hold the same names in the same order.
pub fn same_names(a: &Vec<String>, b: &Vec<String>) -> (r: bool)
    ensures
        r == (a.deep_view() == b.deep_view()),
{
    if a.len() != b.len() {
        assert(a.deep_view().len() != b.deep_view().len());
        return false;
    }
    let mut i: usize = 0;
    while i < a.len()
        invariant
            i <= a@.len(),
            a@.len() == b@.len(),
            forall|j: int| 0 <= j < i ==> a@[j]@ == b@[j]@,
        decreases a@.len() - i,
    {
        if a[i] != b[i] {
            assert(a.deep_view()[i as int] != b.deep_view()[i as int]);
            return false;
        }
        i = i + 1;
    }
    assert(a.deep_view() =~= b.deep_view());
    true
}

impl Value {
    /// This value behind a counted reference.
    pub fn rc(self) -> (r: Rc<Value>)
        ensures
            *r == self,
    {
        Rc::new(self)
    }

    /// The value `nil`.
    pub fn nil() -> (r: Rc<Value>)
        ensures
            r@ == Term::Nil,
    {
        Rc::new(Value::Nil)
    }

    /// The boolean `b`.
    pub fn boolean(b: bool) -> (r: Rc<Value>)
        ensures
            r@ == Term::Bool(b),
    {
        Rc::new(Value::Bool(b))
    }

    /// The identifier written `name`.
    pub fn named(name: &str) -> (r: Rc<Value>)
        ensures
            r@ == Term::Name(name@),
    {
        Rc::new(Value::Name(String::from_str(name)))
    }

    /// The string `text`, which holds its own quote characters.
    pub fn text(text: &str) -> (r: Rc<Value>)
        ensures
            r@ == Term::Text(text@),
    {
        Rc::new(Value::String(String::from_str(text)))
    }

    /// The floating-point number written `numeral`.
    pub fn float(numeral: &str) -> (r: Rc<Value>)
        ensures
            r@ == Term::Float(numeral@),
    {
        Rc::new(Value::Float(String::from_str(numeral)))
    }

    /// The integer `i`.
    pub fn integer(i: Integer) -> (r: Rc<Value>)
        ensures
            r@ == Term::Integer(i@),
    {
        Rc::new(Value::Integer(i))
    }

    /// The quoted `inner`.
    pub fn quoted(inner: &Rc<Value>) -> (r: Rc<Value>)
        ensures
            r@ == Term::Quote(Box::new(inner@)),
    {
        Rc::new(Value::Quote(share(inner)))
    }

    /// The procedure with the given parameters and body.
    pub fn lambda(args: &Vec<String>, body: &Rc<Value>) -> (r: Rc<Value>)
        ensures
            r@ == Term::Lambda(args.deep_view(), Box::new(body@)),
    {
        Rc::new(Value::Lambda { args: copy_names(args), body: share(body) })
    }

    /// The pair of `car` and `cdr`.
    pub fn cons(car: &Rc<Value>, cdr: &Rc<Value>) -> (r: Value)
        ensures
            r@ == Term::Cons(Box::new(car@), Box::new(cdr@)),
    {
        Value::Cons { car: share(car), cdr: share(cdr) }
    }

    /// The pair of `car` and `cdr`, behind a counted reference.
    pub fn pair(car: &Rc<Value>, cdr: &Rc<Value>) -> (r: Rc<Value>)
        ensures
            r@ == Term::Cons(Box::new(car@), Box::new(cdr@)),
    {
        Rc::new(Value::cons(car, cdr))
    }

    /// The name that this value is, or the empty string where it is no name.
    pub fn name(&self) -> (n: String)
        ensures
            n@ == name_of(self@),
    {
        match self {
            Value::Name(n) => n.clone(),
            _ => String::new(),
        }
    }

    /// Whether this value is a pair.
    pub fn is_cons(&self) -> (r: bool)
        ensures
            r == (self@ is Cons),
    {
        match self {
            Value::Cons { .. } => true,
            _ => false,
        }
    }

    /// Whether this value is `nil`.
    pub fn is_nil(&self) -> (r: bool)
        ensures
            r == (self@ is Nil),
    {
        match self {
            Value::Nil => true,
            _ => false,
        }
    }

    /// This value once more, behind a counted reference of its own. The
    /// parts of a pair, a procedure or a quotation are shared, not copied.
    pub fn refcounted(&self) -> (r: Rc<Value>)
        ensures
            r@ == self@,
    {
        match self {
            Value::Nil => Value::nil(),
            Value::Bool(b) => Value::boolean(*b),
            Value::Integer(i) => Value::integer(i.copy()),
            Value::Float(s) => Value::float(s.as_str()),
            Value::String(s) => Value::text(s.as_str()),
            Value::Name(s) => Value::named(s.as_str()),
            Value::Cons { car, cdr } => Value::pair(car, cdr),
            Value::Lambda { args, body } => Value::lambda(args, body),
            Value::Quote(inner) => Value::quoted(inner),
        }
    }

    /// The number of pairs in the chain that this value begins: the number
    /// of items of a list, whatever ends it, and none for a value that is
    /// no pair.
    pub fn len(&self) -> (n: usize)
        ensures
            n == chain_items(self@).len(),
    {
        self.items().len()
    }

    /// The item at `index` of the chain that this value begins, counted
    /// from zero; `None` where the chain has no such item.
    pub fn index(&self, index: usize) -> (r: Option<Rc<Value>>)
        ensures
            match r {
                Some(v) => index < chain_items(self@).len() && v@ == chain_items(self@)[index as int],
                None => index >= chain_items(self@).len(),
            },
    {
        let items = self.items();
        if index < items.len() {
            Some(share(&items[index]))
        } else {
            None
        }
    }

    /// The items of the chain that this value begins, whatever ends it.
    pub fn items(&self) -> (r: Vec<Rc<Value>>)
        ensures
            terms_of(r@) == chain_items(self@),
    {
        let mut items: Vec<Rc<Value>> = Vec::new();
        let mut cursor: &Value = self;
        loop
            invariant
                chain_items(self@) == terms_of(items@) + chain_items(cursor@),
            decreases cursor,
        {
            match cursor {
                Value::Cons { car, cdr } => {
                    items.push(share(car));
                    cursor = &**cdr;
                },
                _ => {
                    return items;
                },
            }
        }
    }

    /// The items of this value where it is a proper list, `None` where it
    /// is anything else.
    pub fn to_list(&self) -> (r: Option<Vec<Rc<Value>>>)
        ensures
            match r {
                Some(items) => list_items(self@) == Some(terms_of(items@)),
                None => list_items(self@) is None,
            },
    {
        let mut items: Vec<Rc<Value>> = Vec::new();
        let mut cursor: &Value = self;
        loop
            invariant
                match list_items(cursor@) {
                    Some(rest) => list_items(self@) == Some(terms_of(items@) + rest),
                    None => list_items(self@) is None,
                },
            decreases cursor,
        {
            match cursor {
                Value::Cons { car, cdr } => {
                    items.push(share(car));
                    cursor = &**cdr;
                },
                Value::Nil => {
                    return Some(items);
                },
                _ => {
                    return None;
                },
            }
        }
    }

    /// The proper list of the given items.
    pub fn cons_list(xs: &Vec<Rc<Value>>) -> (r: Rc<Value>)
        ensures
            r@ == list_of(terms_of(xs@)),
    {
        let mut list = Value::nil();
        let mut i: usize = xs.len();
        while i > 0
            invariant
                i <= xs@.len(),
                list@ == list_of(terms_of(xs@).subrange(i as int, xs@.len() as int)),
            decreases i,
        {
            i = i - 1;
            let ghost tail = terms_of(xs@).subrange(i + 1, xs@.len() as int);
            let ghost whole = terms_of(xs@).subrange(i as int, xs@.len() as int);
            assert(whole.drop_first() =~= tail);
            list = Value::pair(&xs[i], &list);
        }
        assert(terms_of(xs@).subrange(0, xs@.len() as int) =~= terms_of(xs@));
        list
    }

    /// Whether the two values stand for the same tree. Two floating-point
    /// numbers are the same where their numerals are, so that `1.0` and
    /// `1.00` differ here: to compare them as numbers is for `&==`, which
    /// asks the host.
    pub fn equals(&self, other: &Value) -> (r: bool)
        ensures
            r == (self@ == other@),
        decreases self,
    {
        match (self, other) {
            (Value::Nil, Value::Nil) => true,
            (Value::Bool(a), Value::Bool(b)) => *a == *b,
            (Value::Integer(a), Value::Integer(b)) => a.is_equal(b),
            (Value::Float(a), Value::Float(b)) => *a == *b,
            (Value::String(a), Value::String(b)) => *a == *b,
            (Value::Name(a), Value::Name(b)) => *a == *b,
            (Value::Cons { car: a, cdr: x }, Value::Cons { car: b, cdr: y }) => {
                a.equals(b) && x.equals(y)
            },
            (Value::Lambda { args: a, body: x }, Value::Lambda { args: b, body: y }) => {
                same_names(a, b) && x.equals(y)
            },
            (Value::Quote(a), Value::Quote(b)) => a.equals(b),
            _ => false,
        }
    }

    /// Appends the text this value is shown as.
    fn write(&self, out: &mut String)
        ensures
            final(out)@ == old(out)@ + rendered(self@),
        decreases self, 0nat,
    {
        match self {
            Value::Nil => out.append("nil"),
            Value::Bool(b) => {
                if *b {
                    out.append("true")
                } else {
                    out.append("false")
                }
            },
            Value::Integer(i) => {
                let digits = i.to_text();
                out.append(digits.as_str())
            },
            Value::Float(s) => out.append(s.as_str()),
            Value::String(s) => out.append(s.as_str()),
            Value::Name(s) => out.append(s.as_str()),
            Value::Cons { car, cdr } => {
                out.append("(");
                car.write(out);
                cdr.write_tail(out);
                out.append(")");
            },
            Value::Lambda { .. } => out.append("<function>"),
            Value::Quote(inner) => {
                out.append("'");
                inner.write(out);
            },
        }
    }

    /// Appends the text for what follows the first item of a list.
    fn write_tail(&self, out: &mut String)
        ensures
            final(out)@ == old(out)@ + rendered_tail(self@),
        decreases self, 1nat,
    {
        match self {
            Value::Nil => {},
            Value::Cons { car, cdr } => {
                out.append(" ");
                car.write(out);
                cdr.write_tail(out);
            },
            _ => {
                out.append(" . ");
                self.write(out);
            },
        }
    }

    /// The text this value is shown as: numbers in base ten, `nil`, `true`
    /// and `false`, names and strings as they are stored, lists in round
    /// brackets with ` . ` before a tail that is no list, a quote mark
    /// before a quoted value, and `<function>` for a procedure.
    pub fn to_text(&self) -> (s: String)
        ensures
            s@ == rendered(self@),
    {
        let mut s = String::new();
        self.write(&mut s);
        s
    }
}

} // verus!
