//! Integers of any size. An `Integer` keeps its decimal numeral; the
//! arithmetic itself is done by the big-number library, on numerals.

use vstd::prelude::*;
use vstd::string::*;
use crate::text::{decimal_of, decimal_text, nat_text};

verus! {

/// Whether `s` is the decimal numeral of some integer.
pub open spec fn is_decimal(s: Seq<char>) -> bool {
    exists|i: int| s == #[trigger] decimal_text(i)
}

/// The value of a digit: `0`‥`9`, then the letters from ten on; 36 for any
/// other character.
pub open spec fn digit_value(c: char) -> int {
    if '0' <= c && c <= '9' {
        c as int - '0' as int
    } else if 'a' <= c && c <= 'z' {
        c as int - 'a' as int + 10
    } else if 'A' <= c && c <= 'Z' {
        c as int - 'A' as int + 10
    } else {
        36
    }
}

/// Whether `s` is a numeral in the given radix: a digit first, then digits
/// and underscores.
pub open spec fn is_numeral(s: Seq<char>, radix: int) -> bool {
    &&& s.len() > 0
    &&& digit_value(s[0]) < radix
    &&& forall|i: int| 0 <= i < s.len() ==> s[i] == '_' || digit_value(#[trigger] s[i]) < radix
}

/// The number that a numeral stands for; underscores only separate digits.
pub open spec fn numeral_value(s: Seq<char>, radix: int) -> int
    decreases s.len(),
{
    if s.len() == 0 {
        0
    } else if s.last() == '_' {
        numeral_value(s.drop_last(), radix)
    } else {
        numeral_value(s.drop_last(), radix) * radix + digit_value(s.last())
    }
}

/// The quotient rounded toward zero.
pub open spec fn truncated_quotient(a: int, b: int) -> int {
    let q = (if a < 0 { -a } else { a }) / (if b < 0 { -b } else { b });
    if (a < 0) == (b < 0) {
        q
    } else {
        -q
    }
}

/// What is left of `a` after the quotient rounded toward zero is taken out;
/// it has the sign of `a`.
pub open spec fn truncated_remainder(a: int, b: int) -> int {
    a - b * truncated_quotient(a, b)
}

/// Reads a numeral with `rug::Integer::from_str_radix` and writes the number
/// in decimal with `to_string_radix`. On a digit string (underscores allowed
/// after the first digit) the parse succeeds and gives the positional value.
#[verifier::external_body]
fn numeral_in_decimal(numeral: &str, radix: i32) -> (r: String)
    requires
        2 <= radix <= 36,
        is_numeral(numeral@, radix as int),
    ensures
        r@ == decimal_text(numeral_value(numeral@, radix as int)),
{
    rug::Integer::from_str_radix(numeral, radix).unwrap().to_string_radix(10)
}

/// `+` of `rug::Integer`, on decimal numerals: the numeral of the exact sum.
#[verifier::external_body]
fn decimal_sum(a: &str, b: &str) -> (r: String)
    requires
        is_decimal(a@),
        is_decimal(b@),
    ensures
        forall|x: int, y: int|
            a@ == #[trigger] decimal_text(x) && b@ == #[trigger] decimal_text(y) ==> r@
                == decimal_text(x + y),
{
    let x = rug::Integer::from_str_radix(a, 10).unwrap();
    let y = rug::Integer::from_str_radix(b, 10).unwrap();
    (x + y).to_string_radix(10)
}

/// `-` of `rug::Integer`, on decimal numerals: the numeral of the exact
/// difference.
#[verifier::external_body]
fn decimal_difference(a: &str, b: &str) -> (r: String)
    requires
        is_decimal(a@),
        is_decimal(b@),
    ensures
        forall|x: int, y: int|
            a@ == #[trigger] decimal_text(x) && b@ == #[trigger] decimal_text(y) ==> r@
                == decimal_text(x - y),
{
    let x = rug::Integer::from_str_radix(a, 10).unwrap();
    let y = rug::Integer::from_str_radix(b, 10).unwrap();
    (x - y).to_string_radix(10)
}

/// `*` of `rug::Integer`, on decimal numerals: the numeral of the exact
/// product.
#[verifier::external_body]
fn decimal_product(a: &str, b: &str) -> (r: String)
    requires
        is_decimal(a@),
        is_decimal(b@),
    ensures
        forall|x: int, y: int|
            a@ == #[trigger] decimal_text(x) && b@ == #[trigger] decimal_text(y) ==> r@
                == decimal_text(x * y),
{
    let x = rug::Integer::from_str_radix(a, 10).unwrap();
    let y = rug::Integer::from_str_radix(b, 10).unwrap();
    (x * y).to_string_radix(10)
}

/// `/` of `rug::Integer`, on decimal numerals. It rounds the quotient toward
/// zero, and panics on a zero divisor, which the precondition leaves out.
#[verifier::external_body]
fn decimal_quotient(a: &str, b: &str) -> (r: String)
    requires
        is_decimal(a@),
        is_decimal(b@),
        b@ != decimal_text(0),
    ensures
        forall|x: int, y: int|
            a@ == #[trigger] decimal_text(x) && b@ == #[trigger] decimal_text(y) ==> r@
                == decimal_text(truncated_quotient(x, y)),
{
    let x = rug::Integer::from_str_radix(a, 10).unwrap();
    let y = rug::Integer::from_str_radix(b, 10).unwrap();
    (x / y).to_string_radix(10)
}

/// `%` of `rug::Integer`, on decimal numerals. The remainder goes with the
/// quotient rounded toward zero; a zero divisor panics, and the
/// precondition leaves it out.
#[verifier::external_body]
fn decimal_remainder(a: &str, b: &str) -> (r: String)
    requires
        is_decimal(a@),
        is_decimal(b@),
        b@ != decimal_text(0),
    ensures
        forall|x: int, y: int|
            a@ == #[trigger] decimal_text(x) && b@ == #[trigger] decimal_text(y) ==> r@
                == decimal_text(truncated_remainder(x, y)),
{
    let x = rug::Integer::from_str_radix(a, 10).unwrap();
    let y = rug::Integer::from_str_radix(b, 10).unwrap();
    (x % y).to_string_radix(10)
}

/// `<` of `rug::Integer`, on decimal numerals: the order of the integers.
#[verifier::external_body]
fn decimal_less(a: &str, b: &str) -> (r: bool)
    requires
        is_decimal(a@),
        is_decimal(b@),
    ensures
        forall|x: int, y: int|
            a@ == #[trigger] decimal_text(x) && b@ == #[trigger] decimal_text(y) ==> r == (x
                < y),
{
    let x = rug::Integer::from_str_radix(a, 10).unwrap();
    let y = rug::Integer::from_str_radix(b, 10).unwrap();
    x < y
}

/// The integer that a decimal numeral stands for.
pub open spec fn decimal_value(s: Seq<char>) -> int {
    if s.len() > 0 && s[0] == '-' {
        -numeral_value(s.subrange(1, s.len() as int), 10)
    } else {
        numeral_value(s, 10)
    }
}

proof fn lemma_natural_round_trip(n: nat)
    ensures
        numeral_value(nat_text(n), 10) == n,
        nat_text(n).len() > 0,
        nat_text(n)[0] != '-',
    decreases n,
{
    if n < 10 {
        let s = nat_text(n);
        assert(numeral_value(s.drop_last(), 10) == 0);
    } else {
        lemma_natural_round_trip(n / 10);
        let s = nat_text(n);
        assert(s.drop_last() =~= nat_text(n / 10));
    }
}

/// A decimal numeral stands for the integer it was written for.
pub proof fn lemma_decimal_round_trip(i: int)
    ensures
        decimal_value(decimal_text(i)) == i,
{
    if i < 0 {
        lemma_natural_round_trip((-i) as nat);
        let s = decimal_text(i);
        assert(s.subrange(1, s.len() as int) =~= nat_text((-i) as nat));
    } else {
        lemma_natural_round_trip(i as nat);
    }
}

/// An integer of any size.
#[derive(Debug)]
pub struct Integer {
    digits: String,
}

impl View for Integer {
    type V = int;

    closed spec fn view(&self) -> int {
        decimal_value(self.digits@)
    }
}

fn digit_is_below(c: char, radix: i32) -> (r: bool)
    requires
        2 <= radix <= 36,
    ensures
        r == (digit_value(c) < radix),
{
    let v: u32 = c as u32;
    if '0' <= c && c <= '9' {
        v - 48 < radix as u32
    } else if 'a' <= c && c <= 'z' {
        v - 97 + 10 < radix as u32
    } else if 'A' <= c && c <= 'Z' {
        v - 65 + 10 < radix as u32
    } else {
        false
    }
}

impl Integer {
    #[verifier::type_invariant]
    spec fn well_formed(self) -> bool {
        is_decimal(self.digits@)
    }

    /// The digits are the numeral of the integer.
    proof fn lemma_digits(self)
        requires
            self.well_formed(),
        ensures
            self.digits@ == decimal_text(self@),
    {
        let i = choose|i: int| self.digits@ == decimal_text(i);
        lemma_decimal_round_trip(i);
    }

    /// The integer whose decimal numeral `digits` is.
    fn of_numeral(digits: String, Ghost(i): Ghost<int>) -> (r: Integer)
        requires
            digits@ == decimal_text(i),
        ensures
            r@ == i,
    {
        proof {
            lemma_decimal_round_trip(i);
        }
        Integer { digits }
    }

    /// Zero.
    pub fn zero() -> (r: Integer)
        ensures
            r@ == 0,
    {
        Integer::from_usize(0)
    }

    /// The integer `n`.
    pub fn from_usize(n: usize) -> (r: Integer)
        ensures
            r@ == n,
    {
        Integer::of_numeral(decimal_of(n), Ghost(n as int))
    }

    /// The integer that `numeral` stands for in the given radix, where it is
    /// a numeral: a digit first, then digits and underscores.
    pub fn parse_radix(numeral: &str, radix: i32) -> (r: Option<Integer>)
        requires
            2 <= radix <= 36,
        ensures
            match r {
                Some(i) => is_numeral(numeral@, radix as int) && i@ == numeral_value(
                    numeral@,
                    radix as int,
                ),
                None => !is_numeral(numeral@, radix as int),
            },
    {
        let n = numeral.unicode_len();
        if n == 0 {
            return None;
        }
        if !digit_is_below(numeral.get_char(0), radix) {
            return None;
        }
        let mut i: usize = 0;
        while i < n
            invariant
                2 <= radix <= 36,
                n == numeral@.len(),
                i <= n,
                forall|j: int|
                    0 <= j < i ==> numeral@[j] == '_' || digit_value(#[trigger] numeral@[j])
                        < radix,
            decreases n - i,
        {
            let c = numeral.get_char(i);
            if c != '_' && !digit_is_below(c, radix) {
                return None;
            }
            i = i + 1;
        }
        let digits = numeral_in_decimal(numeral, radix);
        Some(Integer::of_numeral(digits, Ghost(numeral_value(numeral@, radix as int))))
    }

    /// The decimal numeral of this integer.
    pub fn to_text(&self) -> (s: String)
        ensures
            s@ == decimal_text(self@),
    {
        proof {
            use_type_invariant(self);
            self.lemma_digits();
        }
        self.digits.clone()
    }

    /// A copy of this integer.
    pub fn copy(&self) -> (r: Integer)
        ensures
            r@ == self@,
    {
        proof {
            use_type_invariant(self);
        }
        Integer { digits: self.digits.clone() }
    }

    /// The sum.
    pub fn plus(&self, other: &Integer) -> (r: Integer)
        ensures
            r@ == self@ + other@,
    {
        proof {
            use_type_invariant(self);
            use_type_invariant(other);
            self.lemma_digits();
            other.lemma_digits();
        }
        let digits = decimal_sum(self.digits.as_str(), other.digits.as_str());
        Integer::of_numeral(digits, Ghost(self@ + other@))
    }

    /// The difference.
    pub fn minus(&self, other: &Integer) -> (r: Integer)
        ensures
            r@ == self@ - other@,
    {
        proof {
            use_type_invariant(self);
            use_type_invariant(other);
            self.lemma_digits();
            other.lemma_digits();
        }
        let digits = decimal_difference(self.digits.as_str(), other.digits.as_str());
        Integer::of_numeral(digits, Ghost(self@ - other@))
    }

    /// The product.
    pub fn times(&self, other: &Integer) -> (r: Integer)
        ensures
            r@ == self@ * other@,
    {
        proof {
            use_type_invariant(self);
            use_type_invariant(other);
            self.lemma_digits();
            other.lemma_digits();
        }
        let digits = decimal_product(self.digits.as_str(), other.digits.as_str());
        Integer::of_numeral(digits, Ghost(self@ * other@))
    }

    /// This integer with its sign changed.
    pub fn negated(&self) -> (r: Integer)
        ensures
            r@ == -self@,
    {
        Integer::zero().minus(self)
    }

    /// Whether this integer is below `other`.
    pub fn is_less(&self, other: &Integer) -> (r: bool)
        ensures
            r == (self@ < other@),
    {
        proof {
            use_type_invariant(self);
            use_type_invariant(other);
            self.lemma_digits();
            other.lemma_digits();
        }
        decimal_less(self.digits.as_str(), other.digits.as_str())
    }

    /// Whether the two integers are the same number.
    pub fn is_equal(&self, other: &Integer) -> (r: bool)
        ensures
            r == (self@ == other@),
    {
        proof {
            use_type_invariant(self);
            use_type_invariant(other);
            self.lemma_digits();
            other.lemma_digits();
        }
        self.digits == other.digits
    }

    /// Whether this integer is zero.
    pub fn is_zero(&self) -> (r: bool)
        ensures
            r == (self@ == 0),
    {
        let zero = Integer::zero();
        self.is_equal(&zero)
    }

    /// The quotient rounded toward zero; `None` where `other` is zero.
    pub fn quotient(&self, other: &Integer) -> (r: Option<Integer>)
        ensures
            match r {
                Some(q) => other@ != 0 && q@ == truncated_quotient(self@, other@),
                None => other@ == 0,
            },
    {
        if other.is_zero() {
            return None;
        }
        proof {
            use_type_invariant(self);
            use_type_invariant(other);
            self.lemma_digits();
            other.lemma_digits();
            lemma_decimal_round_trip(0);
        }
        let digits = decimal_quotient(self.digits.as_str(), other.digits.as_str());
        Some(Integer::of_numeral(digits, Ghost(truncated_quotient(self@, other@))))
    }

    /// The remainder that goes with `quotient`; `None` where `other` is zero.
    pub fn remainder(&self, other: &Integer) -> (r: Option<Integer>)
        ensures
            match r {
                Some(q) => other@ != 0 && q@ == truncated_remainder(self@, other@),
                None => other@ == 0,
            },
    {
        if other.is_zero() {
            return None;
        }
        proof {
            use_type_invariant(self);
            use_type_invariant(other);
            self.lemma_digits();
            other.lemma_digits();
            lemma_decimal_round_trip(0);
        }
        let digits = decimal_remainder(self.digits.as_str(), other.digits.as_str());
        Some(Integer::of_numeral(digits, Ghost(truncated_remainder(self@, other@))))
    }
}

} // verus!
