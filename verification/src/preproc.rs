//! Name formatting on token trees: the same prefix that values get, given
//! before any value is made.

use vstd::prelude::*;
use vstd::string::*;
use crate::format::prefixed;
use crate::lexer::{trees_of, Expr, Tree};
use crate::text::joined;

verus! {

/// The token tree with every name in it prefixed with `&`.
pub open spec fn formatted_tree(t: Tree) -> Tree
    decreases t,
{
    match t {
        Tree::Name(s, p) => Tree::Name(prefixed(s), p),
        Tree::List(body, delim, p) => Tree::List(
            Seq::new(
                body.len(),
                |i: int|
                    if 0 <= i < body.len() {
                        formatted_tree(body[i])
                    } else {
                        t
                    },
            ),
            delim,
            p,
        ),
        _ => t,
    }
}

/// The trees, each formatted.
pub open spec fn formatted_trees(ts: Seq<Tree>) -> Seq<Tree> {
    Seq::new(ts.len(), |i: int| formatted_tree(ts[i]))
}

/// Prefixes every name in `expr` with `&`, unless it has the prefix.
pub fn format_names(expr: &Expr) -> (r: Expr)
    ensures
        r@ == formatted_tree(expr@),
    decreases expr,
{
    match expr {
        Expr::Name { string, position } => {
            let text = string.as_str();
            let formatted = if text.unicode_len() == 0 || text.get_char(0) == '&' {
                string.clone()
            } else {
                joined("&", text)
            };
            Expr::Name { string: formatted, position: *position }
        },
        Expr::List { body, delim, position } => {
            let mut items: Vec<Expr> = Vec::new();
            let mut i: usize = 0;
            while i < body.len()
                invariant
                    i <= body@.len(),
                    items@.len() == i,
                    forall|j: int| 0 <= j < i ==> items@[j]@ == formatted_tree(body@[j]@),
                    expr matches Expr::List { body: b, .. } && b == body,
                decreases body@.len() - i,
            {
                items.push(format_names(&body[i]));
                i = i + 1;
            }
            let r = Expr::List { body: items, delim: delim.clone(), position: *position };
            assert(r@.items() =~= formatted_tree(expr@).items());
            r
        },
        _ => expr.copy(),
    }
}

/// The expressions, each with its names formatted.
pub fn preproc_expressions(exprs: Vec<Expr>) -> (r: Vec<Expr>)
    ensures
        trees_of(r@) == formatted_trees(trees_of(exprs@)),
{
    let mut formatted: Vec<Expr> = Vec::new();
    let mut i: usize = 0;
    while i < exprs.len()
        invariant
            i <= exprs@.len(),
            formatted@.len() == i,
            forall|j: int| 0 <= j < i ==> formatted@[j]@ == formatted_tree(exprs@[j]@),
        decreases exprs@.len() - i,
    {
        formatted.push(format_names(&exprs[i]));
        i = i + 1;
    }
    formatted
}

} // verus!
