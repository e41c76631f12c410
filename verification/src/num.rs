//! Symbolic numbers.
//!
//! Arithmetic in this language is over machine floating-point numbers,
//! which the verified core does not compute with.  A number value is
//! therefore kept as the exact arithmetic expression that produced it:
//! a leaf is a numeral's spelling as written in the source (digits with
//! at most one decimal point), and each operator application adds one
//! node.  The evaluator's left-to-right fold is thus recorded
//! structurally, and a host folds the tree into its own numeric type in
//! exactly that order.

use vstd::prelude::*;

verus! {

/// An arithmetic expression over numeral spellings.
#[derive(Debug, PartialEq)]
pub enum NumExpr {
    /// A numeral as written in the source.
    Lit(String),
    Add(Box<NumExpr>, Box<NumExpr>),
    Sub(Box<NumExpr>, Box<NumExpr>),
    Mul(Box<NumExpr>, Box<NumExpr>),
    Div(Box<NumExpr>, Box<NumExpr>),
}

/// The mathematical mirror of `NumExpr`: leaves hold the numeral's
/// character sequence.
pub enum NumExprView {
    Lit(Seq<char>),
    Add(Box<NumExprView>, Box<NumExprView>),
    Sub(Box<NumExprView>, Box<NumExprView>),
    Mul(Box<NumExprView>, Box<NumExprView>),
    Div(Box<NumExprView>, Box<NumExprView>),
}

/// The mirror of a numeral expression.
pub open spec fn num_view(n: NumExpr) -> NumExprView
    decreases n,
{
    match n {
        NumExpr::Lit(s) => NumExprView::Lit(s@),
        NumExpr::Add(l, r) => NumExprView::Add(Box::new(num_view(*l)), Box::new(num_view(*r))),
        NumExpr::Sub(l, r) => NumExprView::Sub(Box::new(num_view(*l)), Box::new(num_view(*r))),
        NumExpr::Mul(l, r) => NumExprView::Mul(Box::new(num_view(*l)), Box::new(num_view(*r))),
        NumExpr::Div(l, r) => NumExprView::Div(Box::new(num_view(*l)), Box::new(num_view(*r))),
    }
}

impl View for NumExpr {
    type V = NumExprView;

    open spec fn view(&self) -> NumExprView {
        num_view(*self)
    }
}

/// The text a numeral expression renders as: a leaf is its spelling
/// as written; a node is the language's own prefix form, so a
/// computed number reads back as the expression that produced it.  A
/// host that folds numbers into a machine numeric type renders those
/// itself.
pub open spec fn render_num(n: NumExprView) -> Seq<char>
    decreases n,
{
    match n {
        NumExprView::Lit(s) => s,
        NumExprView::Add(l, r) => seq!['(', '+', ' '] + render_num(*l) + seq![' '] + render_num(
            *r,
        ) + seq![')'],
        NumExprView::Sub(l, r) => seq!['(', '-', ' '] + render_num(*l) + seq![' '] + render_num(
            *r,
        ) + seq![')'],
        NumExprView::Mul(l, r) => seq!['(', '*', ' '] + render_num(*l) + seq![' '] + render_num(
            *r,
        ) + seq![')'],
        NumExprView::Div(l, r) => seq!['(', '/', ' '] + render_num(*l) + seq![' '] + render_num(
            *r,
        ) + seq![')'],
    }
}

impl NumExpr {
    /// Appends this numeral expression's rendering to `out`.
    pub(crate) fn render_into(&self, out: &mut Vec<char>)
        ensures
            final(out)@ == old(out)@ + render_num(num_view(*self)),
        decreases self,
    {
        match self {
            NumExpr::Lit(s) => {
                let cs = crate::text::chars_of(s.as_str());
                let mut i: usize = 0;
                while i < cs.len()
                    invariant
                        i <= cs@.len(),
                        out@ == old(out)@ + cs@.subrange(0, i as int),
                    decreases cs@.len() - i,
                {
                    out.push(cs[i]);
                    proof {
                        assert(old(out)@ + cs@.subrange(0, i as int) + seq![cs@[i as int]]
                            =~= old(out)@ + cs@.subrange(0, (i + 1) as int));
                    }
                    i = i + 1;
                }
                proof {
                    assert(cs@.subrange(0, cs@.len() as int) =~= cs@);
                }
            },
            NumExpr::Add(l, r) => {
                out.push('(');
                out.push('+');
                out.push(' ');
                l.render_into(out);
                out.push(' ');
                r.render_into(out);
                out.push(')');
                proof {
                    assert(out@ =~= old(out)@ + render_num(num_view(*self)));
                }
            },
            NumExpr::Sub(l, r) => {
                out.push('(');
                out.push('-');
                out.push(' ');
                l.render_into(out);
                out.push(' ');
                r.render_into(out);
                out.push(')');
                proof {
                    assert(out@ =~= old(out)@ + render_num(num_view(*self)));
                }
            },
            NumExpr::Mul(l, r) => {
                out.push('(');
                out.push('*');
                out.push(' ');
                l.render_into(out);
                out.push(' ');
                r.render_into(out);
                out.push(')');
                proof {
                    assert(out@ =~= old(out)@ + render_num(num_view(*self)));
                }
            },
            NumExpr::Div(l, r) => {
                out.push('(');
                out.push('/');
                out.push(' ');
                l.render_into(out);
                out.push(' ');
                r.render_into(out);
                out.push(')');
                proof {
                    assert(out@ =~= old(out)@ + render_num(num_view(*self)));
                }
            },
        }
    }
}

impl Clone for NumExpr {
    /// An exact structural copy.
    fn clone(&self) -> (res: Self)
        ensures
            res@ == self@,
        decreases self,
    {
        match self {
            NumExpr::Lit(s) => NumExpr::Lit(s.clone()),
            NumExpr::Add(l, r) => NumExpr::Add(Box::new((**l).clone()), Box::new((**r).clone())),
            NumExpr::Sub(l, r) => NumExpr::Sub(Box::new((**l).clone()), Box::new((**r).clone())),
            NumExpr::Mul(l, r) => NumExpr::Mul(Box::new((**l).clone()), Box::new((**r).clone())),
            NumExpr::Div(l, r) => NumExpr::Div(Box::new((**l).clone()), Box::new((**r).clone())),
        }
    }
}

} // verus!
