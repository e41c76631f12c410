//! The recursive token-stream evaluator.
//!
//! Evaluation consumes the token sequence through a forward-only
//! cursor with one-token lookahead and reduces it to a single value:
//! no intermediate syntax tree is built.  Arithmetic operators are
//! n-ary and left-associative, folding operands with the value model's
//! binary operations; `=` assigns; parentheses group.  Successive
//! top-level statements are combined with the generic `apply` fold, so
//! a trailing function value picks up the next value as a curried
//! argument and two adjacent strings concatenate.
//!
//! A parenthesized group is evaluated in place: while inside a group,
//! a close parenthesis at the current depth acts as the end of the
//! enclosed sub-sequence, which reproduces exactly the behaviour of
//! collecting the enclosed tokens and evaluating them on their own.
//!
//! The whole behaviour is pinned by the specification functions below
//! ([`spec_eval`], [`spec_fold`], [`spec_eval_all`]); the executable
//! evaluator is proved to follow them step for step.

use crate::lex::tokens_view;
use crate::lex::Operator;
use crate::lex::Token;
use crate::lex::TokenType;
use crate::lex::TokenTypeView;
use crate::lex::TokenView;
use crate::vm::res_view;
use crate::vm::spec_add;
use crate::vm::spec_apply;
use crate::vm::spec_div;
use crate::vm::spec_mul;
use crate::vm::spec_sub;
use crate::vm::val_view;
use crate::vm::ErrorKind;
use crate::vm::VMState;
use crate::vm::VMValue;
use crate::vm::ValueView;
use crate::vm::VmError;
use vstd::prelude::*;

verus! {

/// The evaluator-visible interpreter state: the namespace, the token
/// currently being handled, and the output log.
pub struct EvalState {
    pub names: Map<Seq<char>, ValueView>,
    pub cur: TokenView,
    pub printed: Seq<Seq<ValueView>>,
}

/// One evaluation step's outcome: where the cursor stands afterwards,
/// the state afterwards, and the produced value or the error that
/// aborts the run.
pub struct EvalStep {
    pub pos: int,
    pub st: EvalState,
    pub out: Result<ValueView, ErrorKind>,
}

/// The evaluator-visible view of an interpreter state.
pub open spec fn state_of(vm: VMState) -> EvalState {
    EvalState { names: vm.names_map(), cur: vm.cur(), printed: vm.printed_log() }
}

/// Whether the cursor is exhausted: past the end, or — inside a
/// parenthesized group — standing on the close parenthesis that ends
/// the group.
pub open spec fn spec_cursor_empty(ts: Seq<TokenView>, pos: int, inside: bool) -> bool {
    pos >= ts.len() || (inside && ts[pos].token is RightParen)
}

/// Whether another expression is available before the next statement
/// boundary: the cursor is not exhausted and the next token is not a
/// statement separator.
pub open spec fn spec_expr_available(ts: Seq<TokenView>, pos: int, inside: bool) -> bool {
    !spec_cursor_empty(ts, pos, inside) && !(ts[pos].token is Semi)
}

/// A cursor advanced by a sub-evaluation that began at `from`:
/// evaluation always advances and never passes the end, so the
/// fallback arm is inert; it keeps the recursions below visibly
/// well-founded.
pub open spec fn spec_adv(len: int, from: int, to: int) -> int {
    if from < to <= len {
        to
    } else {
        from + 1
    }
}

/// One more nesting level, saturating at the top of the machine range
/// (a depth that large can never be closed again anyway).
pub open spec fn spec_deeper(depth: int) -> int {
    if depth >= usize::MAX {
        usize::MAX as int
    } else {
        depth + 1
    }
}

/// The cursor after skipping to the close parenthesis that brings
/// `depth` open groups down to zero, consuming it; or the end of the
/// input if the groups are never closed.
pub open spec fn spec_skip_group(ts: Seq<TokenView>, pos: int, depth: int) -> int
    decreases ts.len() - pos,
{
    if pos < 0 || pos >= ts.len() {
        pos
    } else if ts[pos].token is RightParen {
        if depth <= 1 {
            pos + 1
        } else {
            spec_skip_group(ts, pos + 1, depth - 1)
        }
    } else if ts[pos].token is LeftParen {
        spec_skip_group(ts, pos + 1, spec_deeper(depth))
    } else {
        spec_skip_group(ts, pos + 1, depth)
    }
}

/// The arithmetic operation an operator token folds with.  `Assign`
/// never reaches a fold.
pub open spec fn spec_arith(op: Operator, a: ValueView, b: ValueView) -> Result<
    ValueView,
    ErrorKind,
> {
    match op {
        Operator::Plus => spec_add(a, b),
        Operator::Dash => spec_sub(a, b),
        Operator::Slash => spec_div(a, b),
        Operator::Star => spec_mul(a, b),
        Operator::Assign => arbitrary(),
    }
}

/// Evaluates one expression starting at `pos`.
///
/// An exhausted cursor yields `Nil`.  A separator either recurses into
/// the following statement, yields the `EOF` sentinel when the input
/// ends, or yields `Nil` before another separator.  Numerals, strings
/// and literals yield their values, a literal resolving through the
/// reserved spellings and then the namespace (a miss is `Nil`, not an
/// error).  A leading close parenthesis is fatal; an open parenthesis
/// evaluates the enclosed group.  An operator folds the following
/// operands left to right; `=` binds a name.  The state's current
/// token follows every consumed token, so an error's position is the
/// state's current token when it arises.
pub open spec fn spec_eval(ts: Seq<TokenView>, pos: int, inside: bool, st: EvalState) -> EvalStep
    decreases ts.len() - pos, 0int,
{
    if pos < 0 || spec_cursor_empty(ts, pos, inside) {
        EvalStep { pos, st, out: Ok(ValueView::Nil) }
    } else {
        let t = ts[pos];
        let st1 = EvalState { names: st.names, cur: t, printed: st.printed };
        match t.token {
            TokenTypeView::Semi => {
                if spec_expr_available(ts, pos + 1, inside) {
                    spec_eval(ts, pos + 1, inside, st1)
                } else if spec_cursor_empty(ts, pos + 1, inside) {
                    EvalStep { pos: pos + 1, st: st1, out: Ok(ValueView::EOF) }
                } else {
                    EvalStep { pos: pos + 1, st: st1, out: Ok(ValueView::Nil) }
                }
            },
            TokenTypeView::Number(txt) => EvalStep {
                pos: pos + 1,
                st: st1,
                out: Ok(ValueView::Number(crate::num::NumExprView::Lit(txt))),
            },
            TokenTypeView::Str(txt) => EvalStep {
                pos: pos + 1,
                st: st1,
                out: Ok(ValueView::Str(txt)),
            },
            TokenTypeView::Literal(name) => {
                let v = if name == "nil"@ {
                    ValueView::Nil
                } else if name == "true"@ {
                    ValueView::Bool(true)
                } else if name == "false"@ {
                    ValueView::Bool(false)
                } else if st.names.contains_key(name) {
                    st.names[name]
                } else {
                    ValueView::Nil
                };
                EvalStep { pos: pos + 1, st: st1, out: Ok(v) }
            },
            TokenTypeView::RightParen => EvalStep {
                pos: pos + 1,
                st: st1,
                out: Err(ErrorKind::UnmatchedCloseParen),
            },
            TokenTypeView::LeftParen => {
                if spec_cursor_empty(ts, pos + 1, true) {
                    EvalStep {
                        pos: spec_skip_group(ts, pos + 1, 1),
                        st: st1,
                        out: Ok(ValueView::Nil),
                    }
                } else {
                    let sub = spec_eval(ts, pos + 1, true, st1);
                    match sub.out {
                        Ok(v) => EvalStep {
                            pos: spec_skip_group(ts, spec_adv(ts.len() as int, pos + 1, sub.pos), 1),
                            st: sub.st,
                            out: Ok(v),
                        },
                        Err(_) => sub,
                    }
                }
            },
            TokenTypeView::Operator(op) => {
                if op is Assign {
                    if spec_cursor_empty(ts, pos + 1, inside) {
                        EvalStep { pos: pos + 1, st: st1, out: Err(ErrorKind::ExpectedIdentifier) }
                    } else if !(ts[pos + 1].token is Literal) {
                        EvalStep { pos: pos + 2, st: st1, out: Err(ErrorKind::ExpectedIdentifier) }
                    } else {
                        let name = ts[pos + 1].token->Literal_0;
                        if spec_cursor_empty(ts, pos + 2, inside) {
                            EvalStep {
                                pos: pos + 2,
                                st: st1,
                                out: Err(ErrorKind::ExpectedExpression),
                            }
                        } else {
                            let vstep = spec_eval(ts, pos + 2, inside, st1);
                            match vstep.out {
                                Ok(v) => EvalStep {
                                    pos: vstep.pos,
                                    st: EvalState {
                                        names: vstep.st.names.insert(name, v),
                                        cur: vstep.st.cur,
                                        printed: vstep.st.printed,
                                    },
                                    out: Ok(v),
                                },
                                Err(_) => vstep,
                            }
                        }
                    }
                } else {
                    if spec_cursor_empty(ts, pos + 1, inside) {
                        EvalStep { pos: pos + 1, st: st1, out: Err(ErrorKind::ExpectedExpression) }
                    } else {
                        let first = spec_eval(ts, pos + 1, inside, st1);
                        match first.out {
                            Ok(acc) => spec_fold(
                                op,
                                acc,
                                ts,
                                spec_adv(ts.len() as int, pos + 1, first.pos),
                                inside,
                                first.st,
                            ),
                            Err(_) => first,
                        }
                    }
                }
            },
        }
    }
}

/// Folds further operands into `acc` with `op`, left to right, while
/// an expression is available before the next statement boundary.
pub open spec fn spec_fold(
    op: Operator,
    acc: ValueView,
    ts: Seq<TokenView>,
    pos: int,
    inside: bool,
    st: EvalState,
) -> EvalStep
    decreases ts.len() - pos, 1int,
{
    if pos < 0 || !spec_expr_available(ts, pos, inside) {
        EvalStep { pos, st, out: Ok(acc) }
    } else {
        let step = spec_eval(ts, pos, inside, st);
        match step.out {
            Err(_) => step,
            Ok(v) => {
                let next_pos = spec_adv(ts.len() as int, pos, step.pos);
                match spec_arith(op, acc, v) {
                    Ok(newacc) => spec_fold(op, newacc, ts, next_pos, inside, step.st),
                    Err(k) => EvalStep { pos: next_pos, st: step.st, out: Err(k) },
                }
            },
        }
    }
}

/// Folds the values of all top-level statements from `pos` on into
/// `ret` with the generic `apply` combination, stopping early on the
/// `EOF` sentinel.
pub open spec fn spec_eval_all_from(
    ts: Seq<TokenView>,
    pos: int,
    ret: ValueView,
    st: EvalState,
) -> (EvalState, Result<ValueView, ErrorKind>)
    decreases ts.len() - pos, 2int,
{
    if pos < 0 || pos >= ts.len() {
        (st, Ok(ret))
    } else {
        let step = spec_eval(ts, pos, false, st);
        match step.out {
            Err(k) => (step.st, Err(k)),
            Ok(v) => {
                if v is EOF {
                    (step.st, Ok(ret))
                } else {
                    let ap = spec_apply(ret, v, step.st.printed);
                    let st2 = EvalState {
                        names: step.st.names,
                        cur: step.st.cur,
                        printed: ap.1,
                    };
                    match ap.0 {
                        Ok(newret) => spec_eval_all_from(
                            ts,
                            spec_adv(ts.len() as int, pos, step.pos),
                            newret,
                            st2,
                        ),
                        Err(k) => (st2, Err(k)),
                    }
                }
            },
        }
    }
}

/// Reducing a whole token sequence to one value, starting from `Nil`.
pub open spec fn spec_eval_all(ts: Seq<TokenView>, st: EvalState) -> (EvalState, Result<
    ValueView,
    ErrorKind,
>) {
    spec_eval_all_from(ts, 0, ValueView::Nil, st)
}

/// Streams all top-level statements from `pos` on: each statement's
/// value is appended to the output log instead of being folded,
/// stopping early on the `EOF` sentinel.
pub open spec fn spec_exec_all_from(ts: Seq<TokenView>, pos: int, st: EvalState) -> (EvalState,
    Result<(), ErrorKind>,
)
    decreases ts.len() - pos, 2int,
{
    if pos < 0 || pos >= ts.len() {
        (st, Ok(()))
    } else {
        let step = spec_eval(ts, pos, false, st);
        match step.out {
            Err(k) => (step.st, Err(k)),
            Ok(v) => {
                if v is EOF {
                    (step.st, Ok(()))
                } else {
                    let st2 = EvalState {
                        names: step.st.names,
                        cur: step.st.cur,
                        printed: step.st.printed.push(seq![v]),
                    };
                    spec_exec_all_from(ts, spec_adv(ts.len() as int, pos, step.pos), st2)
                }
            },
        }
    }
}

/// The tree node an arithmetic operator builds from two numbers.
pub open spec fn spec_num_node(
    op: Operator,
    a: crate::num::NumExprView,
    b: crate::num::NumExprView,
) -> crate::num::NumExprView {
    match op {
        Operator::Plus => crate::num::NumExprView::Add(Box::new(a), Box::new(b)),
        Operator::Dash => crate::num::NumExprView::Sub(Box::new(a), Box::new(b)),
        Operator::Slash => crate::num::NumExprView::Div(Box::new(a), Box::new(b)),
        Operator::Star => crate::num::NumExprView::Mul(Box::new(a), Box::new(b)),
        Operator::Assign => arbitrary(),
    }
}

/// The left fold of `op` over numeral spellings, starting from `acc`:
/// `((acc ∘ n0) ∘ n1) ∘ …`.
pub open spec fn spec_num_fold(
    op: Operator,
    acc: crate::num::NumExprView,
    nums: Seq<Seq<char>>,
) -> crate::num::NumExprView
    decreases nums.len(),
{
    if nums.len() == 0 {
        acc
    } else {
        spec_num_fold(
            op,
            spec_num_node(op, acc, crate::num::NumExprView::Lit(nums[0])),
            nums.drop_first(),
        )
    }
}

/// The numeral spellings of the tokens in `[pos, end)`.
pub open spec fn spec_num_texts(ts: Seq<TokenView>, pos: int, end: int) -> Seq<Seq<char>> {
    ts.subrange(pos, end).map_values(|t: TokenView| t.token->Number_0)
}

proof fn lemma_fold_numbers(
    op: Operator,
    acc: crate::num::NumExprView,
    ts: Seq<TokenView>,
    pos: int,
    end: int,
    inside: bool,
    st: EvalState,
)
    requires
        !(op is Assign),
        0 <= pos <= end <= ts.len(),
        forall|m: int| pos <= m < end ==> ts[m].token is Number,
        !spec_expr_available(ts, end, inside),
    ensures
        spec_fold(op, ValueView::Number(acc), ts, pos, inside, st).out == Ok::<_, ErrorKind>(
            ValueView::Number(spec_num_fold(op, acc, spec_num_texts(ts, pos, end))),
        ),
    decreases end - pos,
{
    if pos == end {
        assert(spec_num_texts(ts, pos, end).len() == 0);
    } else {
        let step = spec_eval(ts, pos, inside, st);
        let acc2 = spec_num_node(op, acc, crate::num::NumExprView::Lit(ts[pos].token->Number_0));
        lemma_fold_numbers(op, acc2, ts, pos + 1, end, inside, step.st);
        assert(spec_num_texts(ts, pos, end).drop_first() =~= spec_num_texts(ts, pos + 1, end));
        assert(spec_num_texts(ts, pos, end)[0] == ts[pos].token->Number_0);
    }
}

/// Law: an arithmetic operator is n-ary and left-associative.  An
/// operator token whose following tokens, up to the next statement
/// boundary (`end`: a separator, the close of the enclosing group, or
/// the end of input), are all numerals evaluates to exactly the left
/// fold of its operation over those numerals — `(+ a b c)` is
/// `(a + b) + c` — and with a single operand the fold is that operand
/// itself: `(+ a)` is `a`.
pub proof fn lemma_operator_left_fold(
    op: Operator,
    ts: Seq<TokenView>,
    pos: int,
    end: int,
    inside: bool,
    st: EvalState,
)
    requires
        !(op is Assign),
        0 <= pos < ts.len(),
        ts[pos].token == TokenTypeView::Operator(op),
        pos + 1 < end <= ts.len(),
        forall|m: int| pos + 1 <= m < end ==> ts[m].token is Number,
        !spec_expr_available(ts, end, inside),
    ensures
        spec_eval(ts, pos, inside, st).out == Ok::<_, ErrorKind>(
            ValueView::Number(
                spec_num_fold(
                    op,
                    crate::num::NumExprView::Lit(ts[pos + 1].token->Number_0),
                    spec_num_texts(ts, pos + 2, end),
                ),
            ),
        ),
{
    let t = ts[pos];
    let st1 = EvalState { names: st.names, cur: t, printed: st.printed };
    let first = spec_eval(ts, pos + 1, inside, st1);
    assert(first.out == Ok::<_, ErrorKind>(
        ValueView::Number(crate::num::NumExprView::Lit(ts[pos + 1].token->Number_0)),
    ));
    lemma_fold_numbers(
        op,
        crate::num::NumExprView::Lit(ts[pos + 1].token->Number_0),
        ts,
        pos + 2,
        end,
        inside,
        first.st,
    );
}

/// Whether the cursor is exhausted at `pos`.
fn cursor_empty(tokens: &Vec<Token>, pos: usize, inside: bool) -> (r: bool)
    ensures
        r == spec_cursor_empty(tokens_view(tokens@), pos as int, inside),
{
    if pos >= tokens.len() {
        true
    } else {
        inside && matches!(tokens[pos].token, TokenType::RightParen)
    }
}

/// Whether another expression is available at `pos` before the next
/// statement boundary.
fn expr_available(tokens: &Vec<Token>, pos: usize, inside: bool) -> (r: bool)
    ensures
        r == spec_expr_available(tokens_view(tokens@), pos as int, inside),
{
    if cursor_empty(tokens, pos, inside) {
        false
    } else {
        !matches!(tokens[pos].token, TokenType::Semi)
    }
}

/// Skips to the close parenthesis that brings `depth0` open groups
/// down to zero, consuming it; or to the end of the input.
fn skip_group(tokens: &Vec<Token>, start: usize, depth0: usize) -> (j: usize)
    requires
        start <= tokens@.len(),
        depth0 >= 1,
    ensures
        j as int == spec_skip_group(tokens_view(tokens@), start as int, depth0 as int),
        start <= j <= tokens@.len(),
{
    let ghost ts = tokens_view(tokens@);
    let mut pos = start;
    let mut depth = depth0;
    while pos < tokens.len()
        invariant
            start <= pos <= tokens@.len(),
            ts == tokens_view(tokens@),
            depth >= 1,
            spec_skip_group(ts, pos as int, depth as int) == spec_skip_group(
                ts,
                start as int,
                depth0 as int,
            ),
        decreases tokens@.len() - pos,
    {
        match &tokens[pos].token {
            TokenType::RightParen => {
                if depth == 1 {
                    return pos + 1;
                }
                depth = depth - 1;
            },
            TokenType::LeftParen => {
                depth = if depth == usize::MAX {
                    depth
                } else {
                    depth + 1
                };
            },
            _ => {},
        }
        pos = pos + 1;
    }
    pos
}

/// Evaluates one expression starting at `*pos`, following
/// [`spec_eval`] exactly: the cursor, the state, and the outcome all
/// land where the specification says.
#[verifier::rlimit(50)]
fn eval_tokens(tokens: &Vec<Token>, pos: &mut usize, inside: bool, vm: &mut VMState) -> (r: Result<
    VMValue,
    ErrorKind,
>)
    requires
        *old(pos) <= tokens@.len(),
    ensures
        ({
            let step = spec_eval(
                tokens_view(tokens@),
                *old(pos) as int,
                inside,
                state_of(*old(vm)),
            );
            &&& *final(pos) as int == step.pos
            &&& state_of(*final(vm)) == step.st
            &&& res_view(r) == step.out
        }),
        *old(pos) <= *final(pos) <= tokens@.len(),
        !spec_cursor_empty(tokens_view(tokens@), *old(pos) as int, inside) ==> *final(pos) > *old(
            pos,
        ),
    decreases tokens@.len() - *old(pos), 0int,
{
    let _n = tokens.len();
    let ghost ts = tokens_view(tokens@);
    proof {
        assert(_n as int == tokens@.len());
        assert(ts.len() == tokens@.len());
    }
    if cursor_empty(tokens, *pos, inside) {
        return Ok(VMValue::Nil);
    }
    let tpos = *pos;
    vm.set_current(tokens[tpos].clone());
    *pos = tpos + 1;
    match &tokens[tpos].token {
        TokenType::Semi => {
            if expr_available(tokens, *pos, inside) {
                eval_tokens(tokens, pos, inside, vm)
            } else if cursor_empty(tokens, *pos, inside) {
                Ok(VMValue::EOF)
            } else {
                Ok(VMValue::Nil)
            }
        },
        TokenType::Number(txt) => Ok(VMValue::Number(crate::num::NumExpr::Lit(txt.clone()))),
        TokenType::Str(txt) => Ok(VMValue::Str(txt.clone())),
        TokenType::Literal(name) => {
            let nil_name = "nil".to_owned();
            let true_name = "true".to_owned();
            let false_name = "false".to_owned();
            if *name == nil_name {
                Ok(VMValue::Nil)
            } else if *name == true_name {
                Ok(VMValue::Bool(true))
            } else if *name == false_name {
                Ok(VMValue::Bool(false))
            } else {
                Ok(vm.get(name.as_str()))
            }
        },
        TokenType::RightParen => Err(ErrorKind::UnmatchedCloseParen),
        TokenType::LeftParen => {
            if cursor_empty(tokens, *pos, true) {
                let j = skip_group(tokens, *pos, 1);
                *pos = j;
                Ok(VMValue::Nil)
            } else {
                match eval_tokens(tokens, pos, true, vm) {
                    Ok(v) => {
                        let j = skip_group(tokens, *pos, 1);
                        *pos = j;
                        Ok(v)
                    },
                    Err(e) => Err(e),
                }
            }
        },
        TokenType::Operator(op) => {
            if matches!(op, Operator::Assign) {
                if cursor_empty(tokens, *pos, inside) {
                    return Err(ErrorKind::ExpectedIdentifier);
                }
                let ipos = *pos;
                *pos = ipos + 1;
                match &tokens[ipos].token {
                    TokenType::Literal(name) => {
                        if cursor_empty(tokens, *pos, inside) {
                            return Err(ErrorKind::ExpectedExpression);
                        }
                        match eval_tokens(tokens, pos, inside, vm) {
                            Ok(val) => {
                                vm.set(name.as_str(), val.clone());
                                Ok(val)
                            },
                            Err(e) => Err(e),
                        }
                    },
                    _ => Err(ErrorKind::ExpectedIdentifier),
                }
            } else {
                if cursor_empty(tokens, *pos, inside) {
                    return Err(ErrorKind::ExpectedExpression);
                }
                let theop = *op;
                match eval_tokens(tokens, pos, inside, vm) {
                    Ok(acc) => fold_operands(theop, acc, tokens, pos, inside, vm),
                    Err(e) => Err(e),
                }
            }
        },
    }
}

/// Folds further operands into `acc`, following [`spec_fold`]
/// exactly.
fn fold_operands(
    op: Operator,
    acc: VMValue,
    tokens: &Vec<Token>,
    pos: &mut usize,
    inside: bool,
    vm: &mut VMState,
) -> (r: Result<VMValue, ErrorKind>)
    requires
        *old(pos) <= tokens@.len(),
        !(op is Assign),
    ensures
        ({
            let step = spec_fold(
                op,
                val_view(acc),
                tokens_view(tokens@),
                *old(pos) as int,
                inside,
                state_of(*old(vm)),
            );
            &&& *final(pos) as int == step.pos
            &&& state_of(*final(vm)) == step.st
            &&& res_view(r) == step.out
        }),
        *old(pos) <= *final(pos) <= tokens@.len(),
    decreases tokens@.len() - *old(pos), 1int,
{
    if !expr_available(tokens, *pos, inside) {
        return Ok(acc);
    }
    match eval_tokens(tokens, pos, inside, vm) {
        Err(e) => Err(e),
        Ok(v) => {
            let combined = match op {
                Operator::Plus => acc.add(v),
                Operator::Dash => acc.sub(v),
                Operator::Slash => acc.div(v),
                Operator::Star => acc.mul(v),
                Operator::Assign => acc.add(v),
            };
            match combined {
                Ok(newacc) => fold_operands(op, newacc, tokens, pos, inside, vm),
                Err(k) => Err(k),
            }
        },
    }
}

/// Reduces a full token sequence to one value, folding successive
/// top-level statement values with the generic `apply` combination
/// and stopping early if the `EOF` sentinel is produced; or reports
/// the fatal diagnostic positioned at the token active when the
/// condition was detected.
#[verifier::loop_isolation(false)]
pub fn eval_all_tokens(tokens: Vec<Token>, vm: &mut VMState) -> (r: Result<VMValue, VmError>)
    ensures
        ({
            let o = spec_eval_all(tokens_view(tokens@), state_of(*old(vm)));
            &&& state_of(*final(vm)) == o.0
            &&& match o.1 {
                Ok(v) => r matches Ok(rv) && val_view(rv) == v,
                Err(k) => r matches Err(e) && e == (VmError {
                    kind: k,
                    row: o.0.cur.row,
                    col: o.0.cur.col,
                }),
            }
        }),
{
    let ghost ts = tokens_view(tokens@);
    let ghost o = spec_eval_all(ts, state_of(*vm));
    let mut pos: usize = 0;
    let mut ret = VMValue::Nil;
    proof {
        assert(ts.len() == tokens@.len());
    }
    while pos < tokens.len()
        invariant
            pos <= tokens@.len(),
            ts == tokens_view(tokens@),
            ts.len() == tokens@.len(),
            spec_eval_all_from(ts, pos as int, val_view(ret), state_of(*vm)) == o,
        decreases tokens@.len() - pos,
    {
        let ghost pos0 = pos as int;
        let ghost ret0 = val_view(ret);
        let ghost stv0 = state_of(*vm);
        let ghost step = spec_eval(ts, pos0, false, stv0);
        match eval_tokens(&tokens, &mut pos, false, vm) {
            Err(k) => {
                proof {
                    assert(spec_eval_all_from(ts, pos0, ret0, stv0) == (step.st, Err::<
                        ValueView,
                        ErrorKind,
                    >(k)));
                }
                let cur = vm.current();
                return Err(VmError { kind: k, row: cur.row, col: cur.col });
            },
            Ok(v) => {
                if matches!(v, VMValue::EOF) {
                    proof {
                        assert(spec_eval_all_from(ts, pos0, ret0, stv0) == (step.st, Ok::<
                            ValueView,
                            ErrorKind,
                        >(ret0)));
                    }
                    return Ok(ret);
                }
                proof {
                    assert(spec_adv(ts.len() as int, pos0, step.pos) == step.pos);
                }
                match ret.apply(v, vm) {
                    Ok(newret) => {
                        ret = newret;
                    },
                    Err(k) => {
                        let cur = vm.current();
                        return Err(VmError { kind: k, row: cur.row, col: cur.col });
                    },
                }
            },
        }
    }
    Ok(ret)
}

/// Streams a full token sequence: evaluates each top-level statement
/// in turn and appends its value to the output log instead of folding
/// results together, stopping early on the `EOF` sentinel.
#[verifier::loop_isolation(false)]
pub fn exec_all_tokens(tokens: Vec<Token>, vm: &mut VMState) -> (r: Result<(), VmError>)
    ensures
        ({
            let o = spec_exec_all_from(tokens_view(tokens@), 0, state_of(*old(vm)));
            &&& state_of(*final(vm)) == o.0
            &&& match o.1 {
                Ok(u) => r is Ok,
                Err(k) => r matches Err(e) && e == (VmError {
                    kind: k,
                    row: o.0.cur.row,
                    col: o.0.cur.col,
                }),
            }
        }),
{
    let ghost ts = tokens_view(tokens@);
    let ghost o = spec_exec_all_from(ts, 0, state_of(*vm));
    let mut pos: usize = 0;
    proof {
        assert(ts.len() == tokens@.len());
    }
    while pos < tokens.len()
        invariant
            pos <= tokens@.len(),
            ts == tokens_view(tokens@),
            ts.len() == tokens@.len(),
            spec_exec_all_from(ts, pos as int, state_of(*vm)) == o,
        decreases tokens@.len() - pos,
    {
        let ghost pos0 = pos as int;
        let ghost stv0 = state_of(*vm);
        let ghost step = spec_eval(ts, pos0, false, stv0);
        match eval_tokens(&tokens, &mut pos, false, vm) {
            Err(k) => {
                proof {
                    assert(spec_exec_all_from(ts, pos0, stv0) == (step.st, Err::<(), ErrorKind>(
                        k,
                    )));
                }
                let cur = vm.current();
                return Err(VmError { kind: k, row: cur.row, col: cur.col });
            },
            Ok(v) => {
                if matches!(v, VMValue::EOF) {
                    proof {
                        assert(spec_exec_all_from(ts, pos0, stv0) == (step.st, Ok::<(), ErrorKind>(
                            (),
                        )));
                    }
                    return Ok(());
                }
                proof {
                    assert(spec_adv(ts.len() as int, pos0, step.pos) == step.pos);
                }
                let ghost vv = val_view(v);
                let mut entry: Vec<VMValue> = Vec::new();
                entry.push(v);
                proof {
                    crate::vm::lemma_vals_view_elems(entry@);
                    assert(crate::vm::vals_view(entry@) =~= seq![vv]);
                }
                vm.push_printed(entry);
            },
        }
    }
    Ok(())
}

} // verus!
