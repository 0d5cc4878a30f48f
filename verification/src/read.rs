//! The reader: from a source text to token trees, and from token trees to
//! values.
//!
//! A text is a sequence of forms. A form is a token, a bracketed list of
//! forms, or a form after one of the marks `'`, `` ` `` and `,`, which
//! stands for the list of `quote`, `quasiquote` or `unquote` and that form.
//! A comment runs from `#` to the end of its line. Whatever is no part of a
//! token, a mark or a bracket only separates.

use vstd::prelude::*;
use vstd::string::*;
use std::rc::Rc;
use crate::error::{fails_with, Error, ErrorKind, Failure};
use crate::integer::{is_numeral, numeral_value, Integer};
use crate::lexer::{trees_of, Expr, Tree};
use crate::text::{chars_of, decimal_of, is_text, joined, nat_text, string_of};
use crate::value::{list_of, terms_of, Term, Value};

verus! {

/// The classes of characters that a token is a run of.
#[derive(Clone, Copy, Debug, PartialEq, Eq, Structural)]
pub enum Class {
    /// What a name goes on with.
    Name,
    /// Decimal digits and `_`.
    Decimal,
    /// Hexadecimal digits and `_`.
    Hex,
    /// `0`, `1` and `_`.
    Binary,
    /// Anything but `"` and the end of the line.
    InString,
    /// Anything but the end of the line.
    InLine,
}

/// Whether `c` is a decimal digit.
pub open spec fn is_digit(c: char) -> bool {
    '0' <= c && c <= '9'
}

/// Whether `c` is a letter of the Latin alphabet.
pub open spec fn is_letter(c: char) -> bool {
    ('a' <= c && c <= 'z') || ('A' <= c && c <= 'Z')
}

/// Whether a name can begin with `c`.
pub open spec fn is_name_start(c: char) -> bool {
    is_letter(c) || c == '_' || c == '-' || c == '+' || c == '*' || c == '/' || c == '=' || c
        == '<' || c == '>' || c == ':' || c == '.' || c == '@' || c == '%' || c == '?' || c == '!'
}

/// Whether `c` belongs to the class.
pub open spec fn in_class(c: char, class: Class) -> bool {
    match class {
        Class::Name => is_name_start(c) || is_digit(c) || c == '&',
        Class::Decimal => is_digit(c) || c == '_',
        Class::Hex => is_digit(c) || ('a' <= c && c <= 'f') || ('A' <= c && c <= 'F') || c == '_',
        Class::Binary => c == '0' || c == '1' || c == '_',
        Class::InString => c != '"' && c != '\n',
        Class::InLine => c != '\n',
    }
}

/// Where the run of characters of the class that begins at `i` ends.
pub open spec fn run_end(s: Seq<char>, i: int, class: Class) -> int
    decreases s.len() - i,
{
    if 0 <= i < s.len() && in_class(s[i], class) {
        run_end(s, i + 1, class)
    } else {
        i
    }
}

/// The kinds of token.
#[derive(Clone, Copy, Debug, PartialEq, Eq, Structural)]
pub enum Token {
    /// A comment, or a character that only separates.
    Skip,
    Number,
    Name,
    /// A string or character literal.
    Text,
    /// The mark `'`.
    Quote,
    /// The mark `` ` ``.
    Quasiquote,
    /// The mark `,`.
    Unquote,
    Open,
    Close,
}

/// Where the numeric literal that begins at `i` ends: `0b` or `0x` and
/// digits of that radix, or decimal digits with at most one `.` in them.
pub open spec fn number_end(s: Seq<char>, i: int) -> int {
    if s[i] == '0' && i + 1 < s.len() && (s[i + 1] == 'b' || s[i + 1] == 'B') && run_end(
        s,
        i + 2,
        Class::Binary,
    ) > i + 2 {
        run_end(s, i + 2, Class::Binary)
    } else if s[i] == '0' && i + 1 < s.len() && (s[i + 1] == 'x' || s[i + 1] == 'X') && run_end(
        s,
        i + 2,
        Class::Hex,
    ) > i + 2 {
        run_end(s, i + 2, Class::Hex)
    } else {
        let e = run_end(s, i + 1, Class::Decimal);
        if e < s.len() && s[e] == '.' {
            run_end(s, e + 1, Class::Decimal)
        } else {
            e
        }
    }
}

/// The kind of the token that begins at `i`, and where it ends.
pub open spec fn lexeme_at(s: Seq<char>, i: int) -> (Token, int) {
    let c = s[i];
    if c == '#' {
        let e = run_end(s, i + 1, Class::InLine);
        (
            Token::Skip,
            if e < s.len() {
                e + 1
            } else {
                e
            },
        )
    } else if is_digit(c) {
        (Token::Number, number_end(s, i))
    } else if is_name_start(c) {
        (Token::Name, run_end(s, i + 1, Class::Name))
    } else if c == '"' {
        let e = run_end(s, i + 1, Class::InString);
        if e < s.len() && s[e] == '"' {
            (Token::Text, e + 1)
        } else {
            (Token::Skip, i + 1)
        }
    } else if c == '\'' {
        if i + 2 < s.len() && s[i + 1] != '\n' && s[i + 2] == '\'' {
            (Token::Text, i + 3)
        } else {
            (Token::Quote, i + 1)
        }
    } else if c == '`' {
        (Token::Quasiquote, i + 1)
    } else if c == ',' {
        (Token::Unquote, i + 1)
    } else if c == '(' || c == '[' || c == '{' {
        (Token::Open, i + 1)
    } else if c == ')' || c == ']' || c == '}' {
        (Token::Close, i + 1)
    } else {
        (Token::Skip, i + 1)
    }
}

/// The line and the column of the character at `i`, both counted from one.
pub open spec fn position_at(s: Seq<char>, i: int) -> (nat, nat)
    decreases i,
{
    if i <= 0 || i > s.len() {
        (1, 1)
    } else {
        let p = position_at(s, i - 1);
        if s[i - 1] == '\n' {
            ((p.0 + 1) as nat, 1)
        } else {
            (p.0, (p.1 + 1) as nat)
        }
    }
}

/// Whether the closing bracket `close` is of the style of `open`.
pub open spec fn closes(open: char, close: char) -> bool {
    (open == '(' && close == ')') || (open == '[' && close == ']') || (open == '{' && close
        == '}')
}

/// The name that a mark stands for.
pub open spec fn mark_name(mark: Token) -> Seq<char> {
    match mark {
        Token::Quote => "quote"@,
        Token::Quasiquote => "quasiquote"@,
        _ => "unquote"@,
    }
}

/// What reading one form finds.
pub enum Read {
    /// A form, and where the text goes on after it.
    Form(Tree, int),
    /// A closing bracket, and where the text goes on after it.
    Close(char, int),
    /// The end of the text.
    End,
    /// A list that is not closed, or closed with a bracket of another style.
    Bad,
}

/// The form that begins at or after `i`.
pub open spec fn read_form(s: Seq<char>, i: int) -> Read
    decreases s.len() - i, 0nat,
{
    if i < 0 || i >= s.len() {
        Read::End
    } else {
        let (kind, end) = lexeme_at(s, i);
        let position = position_at(s, i);
        if end <= i || end > s.len() {
            Read::Bad
        } else {
            match kind {
                Token::Skip => read_form(s, end),
                Token::Number => Read::Form(Tree::Number(s.subrange(i, end), position), end),
                Token::Name => Read::Form(Tree::Name(s.subrange(i, end), position), end),
                Token::Text => Read::Form(Tree::Text(s.subrange(i, end), position), end),
                Token::Open => match read_items(s, end, Some(s[i])) {
                    Some((items, next)) => Read::Form(
                        Tree::List(items, seq![s[i]], position),
                        next,
                    ),
                    None => Read::Bad,
                },
                Token::Close => Read::Close(s[i], end),
                _ => match read_form(s, end) {
                    Read::Form(t, next) => Read::Form(
                        Tree::List(
                            seq![Tree::Name(mark_name(kind), position), t],
                            "("@,
                            position,
                        ),
                        next,
                    ),
                    other => other,
                },
            }
        }
    }
}

/// The forms from `i` up to the bracket that closes the list opened with
/// `open`, or up to the end of the text where no list is open; and where
/// the text goes on. `None` where the list is not closed, or is closed with
/// a bracket of another style, or a bracket closes what was not opened.
pub open spec fn read_items(s: Seq<char>, i: int, open: Option<char>) -> Option<(Seq<Tree>, int)>
    decreases s.len() - i, 1nat,
{
    match read_form(s, i) {
        Read::Form(t, next) => if next <= i || next > s.len() {
            None
        } else {
            match read_items(s, next, open) {
                Some((rest, end)) => Some((seq![t] + rest, end)),
                None => None,
            }
        },
        Read::Close(c, next) => match open {
            Some(o) => if closes(o, c) {
                Some((Seq::empty(), next))
            } else {
                None
            },
            None => None,
        },
        Read::End => match open {
            Some(_) => None,
            None => Some((Seq::empty(), s.len() as int)),
        },
        Read::Bad => None,
    }
}

/// The token trees of a whole text.
pub open spec fn token_trees(s: Seq<char>) -> Option<Seq<Tree>> {
    match read_items(s, 0, None) {
        Some((items, _)) => Some(items),
        None => None,
    }
}

/// What can be wrong with the brackets of a text.
#[derive(Clone, Copy, Debug, PartialEq, Eq, Structural)]
pub enum Flaw {
    /// The text ends inside a list.
    Unclosed,
    /// A list is closed with a bracket of another style.
    Mismatched,
    /// A bracket closes what was not opened.
    Unopened,
}

/// What the error for a flaw says.
pub open spec fn flaw_text(flaw: Flaw) -> Seq<char> {
    match flaw {
        Flaw::Unclosed => "unexpected EOF (unclosed brackets)"@,
        Flaw::Mismatched => "closing bracket does not match the opening bracket"@,
        Flaw::Unopened => "unexpected closing bracket"@,
    }
}

/// The message of an error of the reader: the file, the line and the
/// column, and on a line of its own what is wrong.
pub open spec fn reader_message(filename: Seq<char>, position: (nat, nat), text: Seq<char>) -> Seq<
    char,
> {
    "reader error in "@ + filename + ":"@ + nat_text(position.0) + ":"@ + nat_text(position.1)
        + "\n"@ + text
}

/// Where reading the form at or after `i` goes wrong, and how: the place
/// just after the bracket that is wrong, or the end of the text. `None`
/// where nothing goes wrong.
pub open spec fn form_flaw(s: Seq<char>, i: int) -> Option<(int, Flaw)>
    decreases s.len() - i, 0nat,
{
    if i < 0 || i >= s.len() {
        None
    } else {
        let (kind, end) = lexeme_at(s, i);
        if end <= i || end > s.len() {
            None
        } else {
            match kind {
                Token::Skip => form_flaw(s, end),
                Token::Open => items_flaw(s, end, Some(s[i])),
                Token::Quote => form_flaw(s, end),
                Token::Quasiquote => form_flaw(s, end),
                Token::Unquote => form_flaw(s, end),
                _ => None,
            }
        }
    }
}

/// Where reading the items of a list from `i` goes wrong, and how.
pub open spec fn items_flaw(s: Seq<char>, i: int, open: Option<char>) -> Option<(int, Flaw)>
    decreases s.len() - i, 1nat,
{
    match read_form(s, i) {
        Read::Form(_, next) => if next <= i || next > s.len() {
            None
        } else {
            items_flaw(s, next, open)
        },
        Read::Close(c, next) => match open {
            Some(o) => if closes(o, c) {
                None
            } else {
                Some((next, Flaw::Mismatched))
            },
            None => Some((next, Flaw::Unopened)),
        },
        Read::End => match open {
            Some(_) => Some((s.len() as int, Flaw::Unclosed)),
            None => None,
        },
        Read::Bad => form_flaw(s, i),
    }
}

/// The failure of reading a text of more characters than can be counted.
pub open spec fn too_long() -> Failure {
    Failure { kind: ErrorKind::Reader, message: "the source text is too long"@ }
}

/// Whether an error tells the flaw, and where it is.
pub open spec fn tells(e: Error, filename: Seq<char>, s: Seq<char>, flaw: Option<(int, Flaw)>) -> bool {
    match flaw {
        Some((at, flaw)) => e@.kind == ErrorKind::Reader && e@.is_plain() && e@.message
            == reader_message(filename, position_at(s, at), flaw_text(flaw)),
        None => false,
    }
}

/// What the error for a numeric literal that is no number says.
pub open spec fn number_text(literal: Seq<char>) -> Seq<char> {
    "Could not parse '"@ + literal + "' as a number"@
}

/// The first numeric literal in the tree that is no number: where it
/// began, and its text.
pub open spec fn tree_flaw(t: Tree) -> Option<((nat, nat), Seq<char>)>
    decreases t, 0nat,
{
    match t {
        Tree::Number(s, p) => if number_of(s) is None {
            Some((p, s))
        } else {
            None
        },
        Tree::List(body, _, _) => trees_flaw(body, 0),
        _ => None,
    }
}

/// The first numeric literal in the trees from the `i`-th on that is no
/// number.
pub open spec fn trees_flaw(items: Seq<Tree>, i: int) -> Option<((nat, nat), Seq<char>)>
    decreases items, items.len() - i,
{
    if i < 0 || i >= items.len() {
        None
    } else {
        match tree_flaw(items[i]) {
            Some(flaw) => Some(flaw),
            None => trees_flaw(items, i + 1),
        }
    }
}

/// Whether an error tells the numeric literal that is no number.
pub open spec fn tells_number(e: Error, filename: Seq<char>, flaw: Option<((nat, nat), Seq<char>)>) -> bool {
    match flaw {
        Some((position, literal)) => e@.kind == ErrorKind::Reader && e@.is_plain() && e@.message
            == reader_message(filename, position, number_text(literal)),
        None => false,
    }
}

/// What a name stands for: `nil` and `null`, `true` and `false` are
/// literals, any other name is an identifier.
pub open spec fn literal_of(name: Seq<char>) -> Term {
    if name == "nil"@ || name == "null"@ {
        Term::Nil
    } else if name == "true"@ {
        Term::Bool(true)
    } else if name == "false"@ {
        Term::Bool(false)
    } else {
        Term::Name(name)
    }
}

/// The integer that a numeric literal without `.` stands for.
pub open spec fn integer_of(s: Seq<char>) -> Option<int> {
    if s.len() >= 2 && s[0] == '0' && (s[1] == 'b' || s[1] == 'B') {
        if is_numeral(s.subrange(2, s.len() as int), 2) {
            Some(numeral_value(s.subrange(2, s.len() as int), 2))
        } else {
            None
        }
    } else if s.len() >= 2 && s[0] == '0' && (s[1] == 'x' || s[1] == 'X') {
        if is_numeral(s.subrange(2, s.len() as int), 16) {
            Some(numeral_value(s.subrange(2, s.len() as int), 16))
        } else {
            None
        }
    } else if is_numeral(s, 10) {
        Some(numeral_value(s, 10))
    } else {
        None
    }
}

/// The number that a numeric literal stands for: a floating-point number
/// where it holds `.`, and else an integer.
pub open spec fn number_of(s: Seq<char>) -> Option<Term> {
    if s.contains('.') {
        Some(Term::Float(s))
    } else {
        match integer_of(s) {
            Some(i) => Some(Term::Integer(i)),
            None => None,
        }
    }
}

/// The value that a token tree stands for; `None` where a numeric literal
/// in it is no number.
pub open spec fn parsed(t: Tree) -> Option<Term>
    decreases t, 0nat,
{
    match t {
        Tree::Name(s, _) => Some(literal_of(s)),
        Tree::Text(s, _) => Some(Term::Text(s)),
        Tree::Number(s, _) => number_of(s),
        Tree::List(body, _, _) => match parsed_items(body, body.len() as int) {
            Some(items) => Some(list_of(items)),
            None => None,
        },
    }
}

/// The values that the first `n` of the trees stand for.
pub open spec fn parsed_items(items: Seq<Tree>, n: int) -> Option<Seq<Term>>
    decreases items, n,
{
    if n <= 0 || n > items.len() {
        Some(Seq::empty())
    } else {
        match (parsed_items(items, n - 1), parsed(items[n - 1])) {
            (Some(before), Some(t)) => Some(before.push(t)),
            _ => None,
        }
    }
}

/// The values of a whole text.
pub open spec fn values_of(s: Seq<char>) -> Option<Seq<Term>> {
    match token_trees(s) {
        Some(trees) => parsed_items(trees, trees.len() as int),
        None => None,
    }
}

fn digit(c: char) -> (r: bool)
    ensures
        r == is_digit(c),
{
    '0' <= c && c <= '9'
}

fn name_start(c: char) -> (r: bool)
    ensures
        r == is_name_start(c),
{
    ('a' <= c && c <= 'z') || ('A' <= c && c <= 'Z') || c == '_' || c == '-' || c == '+' || c
        == '*' || c == '/' || c == '=' || c == '<' || c == '>' || c == ':' || c == '.' || c == '@'
        || c == '%' || c == '?' || c == '!'
}

fn belongs(c: char, class: Class) -> (r: bool)
    ensures
        r == in_class(c, class),
{
    match class {
        Class::Name => name_start(c) || digit(c) || c == '&',
        Class::Decimal => digit(c) || c == '_',
        Class::Hex => digit(c) || ('a' <= c && c <= 'f') || ('A' <= c && c <= 'F') || c == '_',
        Class::Binary => c == '0' || c == '1' || c == '_',
        Class::InString => c != '"' && c != '\n',
        Class::InLine => c != '\n',
    }
}

pub(crate) fn scan(chars: &Vec<char>, i: usize, class: Class) -> (e: usize)
    requires
        i <= chars@.len(),
    ensures
        e == run_end(chars@, i as int, class),
        i <= e <= chars@.len(),
{
    let mut e: usize = i;
    while e < chars.len() && belongs(chars[e], class)
        invariant
            i <= e <= chars@.len(),
            run_end(chars@, i as int, class) == run_end(chars@, e as int, class),
        decreases chars@.len() - e,
    {
        e = e + 1;
    }
    e
}

fn number_ends(chars: &Vec<char>, i: usize) -> (e: usize)
    requires
        i < chars@.len() < usize::MAX,
    ensures
        e == number_end(chars@, i as int),
        i < e <= chars@.len(),
{
    if chars[i] == '0' && i + 1 < chars.len() && (chars[i + 1] == 'b' || chars[i + 1] == 'B') {
        let e = scan(chars, i + 2, Class::Binary);
        if e > i + 2 {
            return e;
        }
    }
    if chars[i] == '0' && i + 1 < chars.len() && (chars[i + 1] == 'x' || chars[i + 1] == 'X') {
        let e = scan(chars, i + 2, Class::Hex);
        if e > i + 2 {
            return e;
        }
    }
    let e = scan(chars, i + 1, Class::Decimal);
    if e < chars.len() && chars[e] == '.' {
        scan(chars, e + 1, Class::Decimal)
    } else {
        e
    }
}

/// The kind of the token that begins at `i`, and where it ends.
fn lexeme(chars: &Vec<char>, i: usize) -> (r: (Token, usize))
    requires
        i < chars@.len() < usize::MAX,
    ensures
        (r.0, r.1 as int) == lexeme_at(chars@, i as int),
        i < r.1 <= chars@.len(),
{
    let c = chars[i];
    if c == '#' {
        let e = scan(chars, i + 1, Class::InLine);
        if e < chars.len() {
            (Token::Skip, e + 1)
        } else {
            (Token::Skip, e)
        }
    } else if digit(c) {
        (Token::Number, number_ends(chars, i))
    } else if name_start(c) {
        (Token::Name, scan(chars, i + 1, Class::Name))
    } else if c == '"' {
        let e = scan(chars, i + 1, Class::InString);
        if e < chars.len() && chars[e] == '"' {
            (Token::Text, e + 1)
        } else {
            (Token::Skip, i + 1)
        }
    } else if c == '\'' {
        if i + 2 < chars.len() && chars[i + 1] != '\n' && chars[i + 2] == '\'' {
            (Token::Text, i + 3)
        } else {
            (Token::Quote, i + 1)
        }
    } else if c == '`' {
        (Token::Quasiquote, i + 1)
    } else if c == ',' {
        (Token::Unquote, i + 1)
    } else if c == '(' || c == '[' || c == '{' {
        (Token::Open, i + 1)
    } else if c == ')' || c == ']' || c == '}' {
        (Token::Close, i + 1)
    } else {
        (Token::Skip, i + 1)
    }
}

/// What one call of the reader gives.
pub enum Item {
    /// A form.
    Form(Expr),
    /// A closing bracket.
    Close(char),
    /// The end of the text.
    End,
}

/// Whether what the reader gave is what was to be found.
pub open spec fn found(r: Result<Item, Error>, index: int, expected: Read) -> bool {
    match expected {
        Read::Form(t, next) => r matches Ok(Item::Form(e)) && e@ == t && index == next,
        Read::Close(c, next) => r matches Ok(Item::Close(x)) && x == c && index == next,
        Read::End => r matches Ok(Item::End),
        Read::Bad => r matches Err(e) && e@.kind == ErrorKind::Reader,
    }
}

/// Reads a text form by form, and knows the line and the column it is at.
pub struct Reader {
    chars: Vec<char>,
    index: usize,
    line: usize,
    column: usize,
    filename: String,
}

impl Reader {
    /// The text that is read.
    pub closed spec fn source(&self) -> Seq<char> {
        self.chars@
    }

    /// How many characters have been read.
    pub closed spec fn index(&self) -> int {
        self.index as int
    }

    /// The name of the file that is read, for error messages.
    pub closed spec fn filename(&self) -> Seq<char> {
        self.filename@
    }

    /// The reader is inside its text and knows its line and column.
    pub closed spec fn wf(&self) -> bool {
        &&& self.index <= self.chars@.len() < usize::MAX
        &&& (self.line as nat, self.column as nat) == position_at(self.chars@, self.index as int)
        &&& self.line <= self.index + 1
        &&& self.column <= self.index + 1
    }

    /// A reader at the start of `source`, which `filename` names in error
    /// messages. A text of more characters than can be counted is refused.
    pub fn new(source: &str, filename: &str) -> (r: Result<Reader, Error>)
        ensures
            match r {
                Ok(reader) => reader.wf() && reader.source() == source@ && reader.index() == 0
                    && reader.filename() == filename@,
                Err(_) => source@.len() >= usize::MAX && fails_with(r, too_long()),
            },
    {
        let chars = chars_of(source);
        if chars.len() == usize::MAX {
            return Err(Error::of_kind(ErrorKind::Reader, "the source text is too long"));
        }
        Ok(Reader { chars, index: 0, line: 1, column: 1, filename: String::from_str(filename) })
    }

    /// An error of the reader, with the file, the line and the column that
    /// the reader is at.
    pub fn error_with_reader_position(&self, msg: &str) -> (e: Error)
        requires
            self.wf(),
        ensures
            e@.kind == ErrorKind::Reader,
            e@.is_plain(),
            e@.message == reader_message(
                self.filename(),
                position_at(self.source(), self.index()),
                msg@,
            ),
    {
        let line = decimal_of(self.line);
        let column = decimal_of(self.column);
        let mut message = joined("reader error in ", self.filename.as_str());
        message.append(":");
        message.append(line.as_str());
        message.append(":");
        message.append(column.as_str());
        message.append("\n");
        message.append(msg);
        Error::of_kind(ErrorKind::Reader, message.as_str())
    }

    fn advance(&mut self, end: usize)
        requires
            old(self).wf(),
            old(self).index <= end <= old(self).chars@.len(),
        ensures
            final(self).wf(),
            final(self).index == end,
            final(self).chars == old(self).chars,
            final(self).filename == old(self).filename,
            final(self).filename@ == old(self).filename@,
    {
        while self.index < end
            invariant
                self.wf(),
                self.index <= end <= self.chars@.len(),
                self.chars == old(self).chars,
                self.filename == old(self).filename,
            decreases end - self.index,
        {
            if self.chars[self.index] == '\n' {
                self.line = self.line + 1;
                self.column = 1;
            } else {
                self.column = self.column + 1;
            }
            self.index = self.index + 1;
        }
    }

    /// Whether the closing bracket is of the style of the opening bracket.
    pub fn match_closing_bracket(opening_bracket: char, closing_bracket: char) -> (r: bool)
        ensures
            r == closes(opening_bracket, closing_bracket),
    {
        (opening_bracket == '(' && closing_bracket == ')') || (opening_bracket == '['
            && closing_bracket == ']') || (opening_bracket == '{' && closing_bracket == '}')
    }

    /// Reads the token of the given kind that ends at `end`.
    fn read_atom(&mut self, kind: Token, end: usize) -> (e: Expr)
        requires
            old(self).wf(),
            old(self).index < end <= old(self).chars@.len(),
            kind == Token::Number || kind == Token::Name || kind == Token::Text,
        ensures
            final(self).wf(),
            final(self).index == end,
            final(self).chars == old(self).chars,
            final(self).filename@ == old(self).filename@,
            e@ == (match kind {
                Token::Number => Tree::Number(
                    old(self).chars@.subrange(old(self).index as int, end as int),
                    position_at(old(self).chars@, old(self).index as int),
                ),
                Token::Name => Tree::Name(
                    old(self).chars@.subrange(old(self).index as int, end as int),
                    position_at(old(self).chars@, old(self).index as int),
                ),
                _ => Tree::Text(
                    old(self).chars@.subrange(old(self).index as int, end as int),
                    position_at(old(self).chars@, old(self).index as int),
                ),
            }),
    {
        let string = string_of(&self.chars, self.index, end);
        let position = (self.line, self.column);
        self.advance(end);
        match kind {
            Token::Number => Expr::NumberLiteral { string, position },
            Token::Name => Expr::Name { string, position },
            _ => Expr::StringLiteral { string, position },
        }
    }

    /// Reads the next form, or the closing bracket or the end of the text
    /// that comes before any form.
    pub fn read(&mut self) -> (r: Result<Item, Error>)
        requires
            old(self).wf(),
        ensures
            final(self).wf(),
            final(self).source() == old(self).source(),
            final(self).index() >= old(self).index(),
            r matches Ok(Item::Form(_)) ==> final(self).index() > old(self).index(),
            r matches Ok(Item::End) ==> final(self).index() == old(self).source().len(),
            found(r, final(self).index(), read_form(old(self).source(), old(self).index())),
            final(self).filename() == old(self).filename(),
            r matches Err(e) ==> tells(
                e,
                old(self).filename(),
                old(self).source(),
                form_flaw(old(self).source(), old(self).index()),
            ),
        decreases old(self).source().len() - old(self).index(), 0nat,
    {
        loop
            invariant
                self.wf(),
                self.chars@ == old(self).chars@,
                self.filename@ == old(self).filename@,
                form_flaw(old(self).chars@, old(self).index as int) == form_flaw(
                    self.chars@,
                    self.index as int,
                ),
                old(self).index <= self.index,
                read_form(old(self).chars@, old(self).index as int) == read_form(
                    self.chars@,
                    self.index as int,
                ),
            decreases self.chars@.len() - self.index,
        {
            if self.index >= self.chars.len() {
                return Ok(Item::End);
            }
            let (kind, end) = lexeme(&self.chars, self.index);
            let c = self.chars[self.index];
            let position = (self.line, self.column);
            match kind {
                Token::Skip => {
                    self.advance(end);
                },
                Token::Number | Token::Name | Token::Text => {
                    let e = self.read_atom(kind, end);
                    return Ok(Item::Form(e));
                },
                Token::Open => {
                    self.advance(end);
                    let body = self.read_list(Some(c))?;
                    let ghost items = trees_of(body@);
                    let mut delim = String::new();
                    crate::text::push_char(&mut delim, c);
                    let list = Expr::List { body, delim, position };
                    assert(list@.items() =~= items);
                    return Ok(Item::Form(list));
                },
                Token::Close => {
                    self.advance(end);
                    return Ok(Item::Close(c));
                },
                Token::Quote | Token::Quasiquote | Token::Unquote => {
                    let ghost at = self.index as int;
                    self.advance(end);
                    let name = match kind {
                        Token::Quote => String::from_str("quote"),
                        Token::Quasiquote => String::from_str("quasiquote"),
                        _ => String::from_str("unquote"),
                    };
                    return match self.read()? {
                        Item::Form(e) => {
                            let ghost t = e@;
                            let mut body: Vec<Expr> = Vec::new();
                            body.push(Expr::Name { string: name, position });
                            body.push(e);
                            let ghost items = trees_of(body@);
                            let list = Expr::List {
                                body,
                                delim: String::from_str("("),
                                position,
                            };
                            assert(list@.items() =~= items);
                            assert(items =~= seq![
                                Tree::Name(mark_name(kind), position_at(self.chars@, at)),
                                t,
                            ]);
                            Ok(Item::Form(list))
                        },
                        other => Ok(other),
                    };
                },
            }
        }
    }

    /// Reads the forms up to the bracket that closes the list opened with
    /// `opening_bracket`, or up to the end of the text where there is none.
    pub fn read_list(&mut self, opening_bracket: Option<char>) -> (r: Result<Vec<Expr>, Error>)
        requires
            old(self).wf(),
        ensures
            final(self).wf(),
            final(self).source() == old(self).source(),
            final(self).index() >= old(self).index(),
            match read_items(old(self).source(), old(self).index(), opening_bracket) {
                Some((items, next)) => r matches Ok(body) && trees_of(body@) == items
                    && final(self).index() == next,
                None => r matches Err(e) && e@.kind == ErrorKind::Reader,
            },
            final(self).filename() == old(self).filename(),
            r matches Err(e) ==> tells(
                e,
                old(self).filename(),
                old(self).source(),
                items_flaw(old(self).source(), old(self).index(), opening_bracket),
            ),
        decreases old(self).source().len() - old(self).index(), 1nat,
    {
        let mut body: Vec<Expr> = Vec::new();
        let ghost whole = read_items(self.chars@, self.index as int, opening_bracket);
        loop
            invariant
                self.wf(),
                self.chars@ == old(self).chars@,
                old(self).index <= self.index,
                whole == read_items(old(self).chars@, old(self).index as int, opening_bracket),
                self.filename@ == old(self).filename@,
                items_flaw(old(self).chars@, old(self).index as int, opening_bracket)
                    == items_flaw(self.chars@, self.index as int, opening_bracket),
                whole == (match read_items(self.chars@, self.index as int, opening_bracket) {
                    Some((rest, next)) => Some((trees_of(body@) + rest, next)),
                    None => None,
                }),
            decreases self.chars@.len() - self.index,
        {
            match self.read() {
                Ok(Item::Form(e)) => {
                    body.push(e);
                },
                Ok(Item::Close(c)) => {
                    return match opening_bracket {
                        Some(o) => if Self::match_closing_bracket(o, c) {
                            Ok(body)
                        } else {
                            Err(
                                self.error_with_reader_position(
                                    "closing bracket does not match the opening bracket",
                                ),
                            )
                        },
                        None => Err(
                            self.error_with_reader_position("unexpected closing bracket"),
                        ),
                    };
                },
                Ok(Item::End) => {
                    return match opening_bracket {
                        Some(_) => Err(
                            self.error_with_reader_position("unexpected EOF (unclosed brackets)"),
                        ),
                        None => {
                            Ok(body)
                        },
                    };
                },
                Err(e) => {
                    return Err(e);
                },
            }
        }
    }
}

/// The token trees of `source`. A list that is not closed, a bracket that
/// closes a list of another style or none at all, and a text of more
/// characters than can be counted are errors.
pub fn tokenise(source: &str) -> (r: Result<Vec<Expr>, Error>)
    ensures
        match r {
            Ok(trees) => source@.len() < usize::MAX && token_trees(source@) == Some(
                trees_of(trees@),
            ),
            Err(e) => if source@.len() >= usize::MAX {
                fails_with(r, too_long())
            } else {
                token_trees(source@) is None && tells(
                    e,
                    "<source>"@,
                    source@,
                    items_flaw(source@, 0, None),
                )
            },
        },
{
    let mut reader = Reader::new(source, "<source>")?;
    reader.read_list(None)
}

fn has_point(text: &str) -> (r: bool)
    ensures
        r == text@.contains('.'),
{
    let chars = chars_of(text);
    let mut i: usize = 0;
    while i < chars.len()
        invariant
            i <= chars@.len(),
            chars@ == text@,
            forall|j: int| 0 <= j < i ==> chars@[j] != '.',
        decreases chars@.len() - i,
    {
        if chars[i] == '.' {
            return true;
        }
        i = i + 1;
    }
    false
}

/// The integer that a numeric literal without `.` stands for.
fn integer_literal(text: &str) -> (r: Option<Integer>)
    ensures
        match integer_of(text@) {
            Some(i) => r is Some && r->0@ == i,
            None => r is None,
        },
{
    let n = text.unicode_len();
    if n >= 2 && text.get_char(0) == '0' {
        let c = text.get_char(1);
        if c == 'b' || c == 'B' {
            return Integer::parse_radix(text.substring_char(2, n), 2);
        }
        if c == 'x' || c == 'X' {
            return Integer::parse_radix(text.substring_char(2, n), 16);
        }
    }
    Integer::parse_radix(text, 10)
}

/// The value that the name `name` stands for.
fn literal(name: &String) -> (r: Rc<Value>)
    ensures
        r@ == literal_of(name@),
{
    if is_text(name, "nil") || is_text(name, "null") {
        Value::nil()
    } else if is_text(name, "true") {
        Value::boolean(true)
    } else if is_text(name, "false") {
        Value::boolean(false)
    } else {
        Value::named(name.as_str())
    }
}

/// The value that a token tree stands for. A numeric literal that is no
/// number is an error, which names `filename` and where the literal began.
pub fn parse(expr: &Expr, filename: &str) -> (r: Result<Rc<Value>, Error>)
    ensures
        match parsed(expr@) {
            Some(t) => r is Ok && r->Ok_0@ == t,
            None => r is Err && r->Err_0@.kind == ErrorKind::Reader,
        },
        match r {
            Ok(_) => tree_flaw(expr@) is None,
            Err(e) => tells_number(e, filename@, tree_flaw(expr@)),
        },
    decreases expr,
{
    match expr {
        Expr::Name { string, .. } => Ok(literal(string)),
        Expr::StringLiteral { string, .. } => Ok(Value::text(string.as_str())),
        Expr::NumberLiteral { string, position } => {
            if has_point(string.as_str()) {
                Ok(Value::float(string.as_str()))
            } else {
                match integer_literal(string.as_str()) {
                    Some(i) => Ok(Value::integer(i)),
                    None => {
                        let line = decimal_of(position.0);
                        let column = decimal_of(position.1);
                        let mut text = joined("Could not parse '", string.as_str());
                        text.append("' as a number");
                        let mut message = joined("reader error in ", filename);
                        message.append(":");
                        message.append(line.as_str());
                        message.append(":");
                        message.append(column.as_str());
                        message.append("\n");
                        message.append(text.as_str());
                        Err(Error::of_kind(ErrorKind::Reader, message.as_str()))
                    },
                }
            }
        },
        Expr::List { body, .. } => {
            assert(trees_of(body@) =~= expr@.items());
            let items = parse_all(body, filename)?;
            Ok(Value::cons_list(&items))
        },
    }
}

/// The values that the token trees stand for.
pub fn parse_all(body: &Vec<Expr>, filename: &str) -> (r: Result<Vec<Rc<Value>>, Error>)
    ensures
        match parsed_items(trees_of(body@), body@.len() as int) {
            Some(items) => r is Ok && terms_of(r->Ok_0@) == items,
            None => r is Err && r->Err_0@.kind == ErrorKind::Reader,
        },
        match r {
            Ok(_) => trees_flaw(trees_of(body@), 0) is None,
            Err(e) => tells_number(e, filename@, trees_flaw(trees_of(body@), 0)),
        },
    decreases body,
{
    let ghost trees = trees_of(body@);
    let mut items: Vec<Rc<Value>> = Vec::new();
    let mut i: usize = 0;
    while i < body.len()
        invariant
            i <= body@.len(),
            trees == trees_of(body@),
            parsed_items(trees, i as int) == Some(terms_of(items@)),
            trees_flaw(trees, 0) == trees_flaw(trees, i as int),
        decreases body@.len() - i,
    {
        match parse(&body[i], filename) {
            Ok(v) => {
                items.push(v);
            },
            Err(e) => {
                proof {
                    lemma_parse_fails(trees, i + 1, trees.len() as int);
                }
                return Err(e);
            },
        }
        i = i + 1;
    }
    Ok(items)
}

proof fn lemma_parse_fails(items: Seq<Tree>, n: int, m: int)
    requires
        0 <= n <= m <= items.len(),
        parsed_items(items, n) is None,
    ensures
        parsed_items(items, m) is None,
    decreases m - n,
{
    if n < m {
        lemma_parse_fails(items, n, m - 1);
    }
}

/// The values of the source text `source`, which `filename` names in error
/// messages: one value for each form at the top level. A list that is not
/// closed, a bracket that closes a list of another style or none at all, a
/// numeric literal that is no number, and a text of more characters than
/// can be counted are errors.
pub fn read(source: &str, filename: &str) -> (r: Result<Vec<Rc<Value>>, Error>)
    ensures
        match r {
            Ok(values) => source@.len() < usize::MAX && values_of(source@) == Some(
                terms_of(values@),
            ),
            Err(e) => if source@.len() >= usize::MAX {
                fails_with(r, too_long())
            } else {
                values_of(source@) is None && match token_trees(source@) {
                    Some(trees) => tells_number(e, filename@, trees_flaw(trees, 0)),
                    None => tells(e, filename@, source@, items_flaw(source@, 0, None)),
                }
            },
        },
{
    let mut reader = Reader::new(source, filename)?;
    let trees = reader.read_list(None)?;
    parse_all(&trees, filename)
}

} // verus!
