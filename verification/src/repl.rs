//! What a line-by-line front end needs to know: whether the text typed so
//! far is a whole number of forms.

use vstd::prelude::*;
use vstd::string::*;
use crate::error::{fails_with, Error, ErrorKind, Failure};
use crate::read::{run_end, scan, Class};
use crate::text::chars_of;

verus! {

/// Where the string or character literal that begins at `i` ends; `i`
/// itself where none begins there. A string runs from `"` to the next `"`
/// on its line, and a character literal is one character between two `'`.
pub open spec fn literal_end(s: Seq<char>, i: int) -> int {
    if s[i] == '"' {
        let e = run_end(s, i + 1, Class::InString);
        if e < s.len() && s[e] == '"' {
            e + 1
        } else {
            i
        }
    } else if s[i] == '\'' && s.len() - i > 2 && s[i + 1] != '\n' && s[i + 2] == '\'' {
        i + 3
    } else {
        i
    }
}

/// Whether `c` is a bracket: an opening one where `opening` is set, and
/// else a closing one.
pub open spec fn is_bracket(c: char, opening: bool) -> bool {
    if opening {
        c == '(' || c == '[' || c == '{'
    } else {
        c == ')' || c == ']' || c == '}'
    }
}

/// How many brackets, opening or closing, stand in the text from `i` on
/// outside its string and character literals. A bracket in a comment
/// counts like any other.
pub open spec fn brackets(s: Seq<char>, i: int, opening: bool) -> nat
    decreases s.len() - i,
{
    if i < 0 || i >= s.len() {
        0
    } else {
        let e = literal_end(s, i);
        if i < e <= s.len() {
            brackets(s, e, opening)
        } else if is_bracket(s[i], opening) {
            1 + brackets(s, i + 1, opening)
        } else {
            brackets(s, i + 1, opening)
        }
    }
}

/// The error for a text with more closing than opening brackets.
pub open spec fn unbalanced() -> Failure {
    Failure {
        kind: ErrorKind::Reader,
        message: "input string has more closing braces than opening braces"@,
    }
}

/// Whether `string` has as many closing brackets as opening ones, counted
/// outside its string and character literals. More closing than opening
/// brackets are an error.
pub fn brackets_are_balanced(string: &String) -> (r: Result<bool, Error>)
    ensures
        match r {
            Ok(balanced) => brackets(string@, 0, false) <= brackets(string@, 0, true) && balanced
                == (brackets(string@, 0, false) == brackets(string@, 0, true)),
            Err(_) => brackets(string@, 0, false) > brackets(string@, 0, true) && fails_with(
                r,
                unbalanced(),
            ),
        },
{
    let chars = chars_of(string.as_str());
    let mut opens: usize = 0;
    let mut closes: usize = 0;
    let mut i: usize = 0;
    while i < chars.len()
        invariant
            i <= chars@.len(),
            chars@ == string@,
            opens <= i,
            closes <= i,
            opens + brackets(chars@, i as int, true) == brackets(chars@, 0, true),
            closes + brackets(chars@, i as int, false) == brackets(chars@, 0, false),
        decreases chars@.len() - i,
    {
        let c = chars[i];
        if c == '"' {
            let e = scan(&chars, i + 1, Class::InString);
            if e < chars.len() && chars[e] == '"' {
                i = e + 1;
                continue ;
            }
        } else if c == '\'' && chars.len() - i > 2 && chars[i + 1] != '\n' && chars[i + 2]
            == '\'' {
            i = i + 3;
            continue ;
        }
        if c == '(' || c == '[' || c == '{' {
            opens = opens + 1;
        } else if c == ')' || c == ']' || c == '}' {
            closes = closes + 1;
        }
        i = i + 1;
    }
    if closes > opens {
        Err(
            Error::of_kind(
                ErrorKind::Reader,
                "input string has more closing braces than opening braces",
            ),
        )
    } else {
        Ok(closes == opens)
    }
}

} // verus!
