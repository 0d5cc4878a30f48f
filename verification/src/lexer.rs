//! Token trees: what the reader makes of a source text before any meaning
//! is given to it. A token tree keeps the text of each token, the bracket
//! each list was opened with, and where each began.

use vstd::prelude::*;
use vstd::string::*;
use crate::text::is_text;

verus! {

/// A token tree.
#[derive(Debug)]
pub enum Expr {
    /// An identifier.
    Name { string: String, position: (usize, usize) },
    /// A string or character literal, with its quote characters.
    StringLiteral { string: String, position: (usize, usize) },
    /// A numeric literal.
    NumberLiteral { string: String, position: (usize, usize) },
    /// A bracketed list, with its opening bracket.
    List { body: Vec<Expr>, delim: String, position: (usize, usize) },
}

/// What a token tree holds, as mathematical values. A position is a line
/// and a column, both counted from one.
pub enum Tree {
    Name(Seq<char>, (nat, nat)),
    Text(Seq<char>, (nat, nat)),
    Number(Seq<char>, (nat, nat)),
    List(Seq<Tree>, Seq<char>, (nat, nat)),
}

/// The tree that `e` stands for.
pub open spec fn tree_of(e: Expr) -> Tree
    decreases e,
{
    match e {
        Expr::Name { string, position } => Tree::Name(
            string@,
            (position.0 as nat, position.1 as nat),
        ),
        Expr::StringLiteral { string, position } => Tree::Text(
            string@,
            (position.0 as nat, position.1 as nat),
        ),
        Expr::NumberLiteral { string, position } => Tree::Number(
            string@,
            (position.0 as nat, position.1 as nat),
        ),
        Expr::List { body, delim, position } => Tree::List(
            Seq::new(
                body@.len(),
                |i: int|
                    if 0 <= i < body@.len() {
                        tree_of(body[i])
                    } else {
                        Tree::List(Seq::empty(), Seq::empty(), (0, 0))
                    },
            ),
            delim@,
            (position.0 as nat, position.1 as nat),
        ),
    }
}

impl View for Expr {
    type V = Tree;

    open spec fn view(&self) -> Tree {
        tree_of(*self)
    }
}

/// The trees that a sequence of token trees stands for.
pub open spec fn trees_of(es: Seq<Expr>) -> Seq<Tree> {
    Seq::new(es.len(), |i: int| es[i]@)
}

impl Tree {
    /// The text of a token; the empty text for a list.
    pub open spec fn text(self) -> Seq<char> {
        match self {
            Tree::Name(s, _) => s,
            Tree::Text(s, _) => s,
            Tree::Number(s, _) => s,
            Tree::List(_, _, _) => Seq::empty(),
        }
    }

    /// Where the tree began.
    pub open spec fn position(self) -> (nat, nat) {
        match self {
            Tree::Name(_, p) => p,
            Tree::Text(_, p) => p,
            Tree::Number(_, p) => p,
            Tree::List(_, _, p) => p,
        }
    }

    /// The items of a list; none for a token.
    pub open spec fn items(self) -> Seq<Tree> {
        match self {
            Tree::List(body, _, _) => body,
            _ => Seq::empty(),
        }
    }

    /// The name of the kind of tree.
    pub open spec fn kind_name(self) -> Seq<char> {
        match self {
            Tree::Name(_, _) => "Name"@,
            Tree::Text(_, _) => "StringLiteral"@,
            Tree::Number(_, _) => "NumberLiteral"@,
            Tree::List(_, _, _) => "List"@,
        }
    }
}

/// The bracket that closes a list opened with `delim`.
pub open spec fn closing_of(delim: Seq<char>) -> Seq<char> {
    if delim == "("@ {
        ")"@
    } else if delim == "["@ {
        "]"@
    } else {
        "}"@
    }
}

/// The text a token tree is shown as: a token between two spaces, and a
/// list as its items between its brackets.
pub open spec fn shown(t: Tree) -> Seq<char>
    decreases t, 0nat,
{
    match t {
        Tree::List(body, delim, _) => delim + shown_items(body, body.len() as int) + closing_of(
            delim,
        ),
        _ => " "@ + t.text() + " "@,
    }
}

/// The texts of the first `n` trees, one after the other.
pub open spec fn shown_items(items: Seq<Tree>, n: int) -> Seq<char>
    decreases items, n,
{
    if n <= 0 || n > items.len() {
        Seq::empty()
    } else {
        shown_items(items, n - 1) + shown(items[n - 1])
    }
}

impl Expr {
    /// Appends the text this tree is shown as.
    fn write(&self, out: &mut String)
        ensures
            final(out)@ == old(out)@ + shown(self@),
        decreases self,
    {
        let ghost start = out@;
        match self {
            Expr::List { body, delim, .. } => {
                out.append(delim.as_str());
                let ghost items = self@.items();
                let mut i: usize = 0;
                while i < body.len()
                    invariant
                        i <= body@.len(),
                        items == self@.items(),
                        items.len() == body@.len(),
                        forall|j: int| 0 <= j < body@.len() ==> items[j] == body@[j]@,
                        self matches Expr::List { body: b, .. } && b == body,
                        out@ == start + delim@ + shown_items(items, i as int),
                    decreases body@.len() - i,
                {
                    body[i].write(out);
                    i = i + 1;
                }
                if is_text(delim, "(") {
                    out.append(")");
                } else if is_text(delim, "[") {
                    out.append("]");
                } else {
                    out.append("}");
                }
            },
            Expr::Name { string, .. } => {
                out.append(" ");
                out.append(string.as_str());
                out.append(" ");
            },
            Expr::StringLiteral { string, .. } => {
                out.append(" ");
                out.append(string.as_str());
                out.append(" ");
            },
            Expr::NumberLiteral { string, .. } => {
                out.append(" ");
                out.append(string.as_str());
                out.append(" ");
            },
        }
    }

    /// The text this tree is shown as: a token between two spaces, and a
    /// list as its items between its brackets.
    pub fn to_text(&self) -> (s: String)
        ensures
            s@ == shown(self@),
    {
        let mut s = String::new();
        self.write(&mut s);
        s
    }

    /// Whether this is a token with the text `s`.
    pub fn equals(&self, s: String) -> (r: bool)
        ensures
            r == (!(self@ is List) && self@.text() == s@),
    {
        match self {
            Expr::Name { string, .. } => s == *string,
            Expr::StringLiteral { string, .. } => s == *string,
            Expr::NumberLiteral { string, .. } => s == *string,
            _ => false,
        }
    }

    /// Whether this is a list opened with the bracket `s`.
    pub fn has_delim(&self, s: String) -> (r: bool)
        ensures
            r == (self@ matches Tree::List(_, delim, _) && delim == s@),
    {
        match self {
            Expr::List { delim, .. } => *delim == s,
            _ => false,
        }
    }

    /// Whether `t` is the name of this kind of tree: `Name`,
    /// `StringLiteral`, `NumberLiteral` or `List`.
    pub fn has_type(&self, t: String) -> (r: bool)
        ensures
            r == (self@.kind_name() == t@),
    {
        match self {
            Expr::Name { .. } => is_text(&t, "Name"),
            Expr::StringLiteral { .. } => is_text(&t, "StringLiteral"),
            Expr::NumberLiteral { .. } => is_text(&t, "NumberLiteral"),
            Expr::List { .. } => is_text(&t, "List"),
        }
    }

    /// Whether this is a token and no list.
    pub fn atomic(&self) -> (r: bool)
        ensures
            r == !(self@ is List),
    {
        match self {
            Expr::List { .. } => false,
            _ => true,
        }
    }

    /// Where this tree began: its line and its column.
    pub fn position(&self) -> (r: (usize, usize))
        ensures
            (r.0 as nat, r.1 as nat) == self@.position(),
    {
        match self {
            Expr::Name { position, .. } => *position,
            Expr::StringLiteral { position, .. } => *position,
            Expr::NumberLiteral { position, .. } => *position,
            Expr::List { position, .. } => *position,
        }
    }

    /// A copy of this tree.
    pub fn copy(&self) -> (r: Expr)
        ensures
            r@ == self@,
        decreases self,
    {
        match self {
            Expr::Name { string, position } => Expr::Name {
                string: string.clone(),
                position: *position,
            },
            Expr::StringLiteral { string, position } => Expr::StringLiteral {
                string: string.clone(),
                position: *position,
            },
            Expr::NumberLiteral { string, position } => Expr::NumberLiteral {
                string: string.clone(),
                position: *position,
            },
            Expr::List { body, delim, position } => {
                let mut items: Vec<Expr> = Vec::new();
                let mut i: usize = 0;
                while i < body.len()
                    invariant
                        i <= body@.len(),
                        items@.len() == i,
                        forall|j: int| 0 <= j < i ==> items@[j]@ == body@[j]@,
                        self matches Expr::List { body: b, .. } && b == body,
                    decreases body@.len() - i,
                {
                    items.push(body[i].copy());
                    i = i + 1;
                }
                let r = Expr::List { body: items, delim: delim.clone(), position: *position };
                assert(r@.items() =~= self@.items());
                r
            },
        }
    }

    /// The items of a list; none for a token.
    pub fn inner_values(&self) -> (r: Vec<Expr>)
        ensures
            trees_of(r@) == self@.items(),
    {
        match self.copy() {
            Expr::List { body, .. } => {
                body
            },
            _ => {
                let r: Vec<Expr> = Vec::new();
                r
            },
        }
    }
}

} // verus!
