//! The value model and the interpreter state.
//!
//! Values are a closed tagged union; combining two values yields a new
//! value, and every binary operation is partial: defined for specific
//! variant pairings and an error otherwise.  The interpreter state is
//! a single flat namespace from names to values, the source position
//! of the token currently being handled, and the output log that the
//! `print` builtin and the streaming evaluator append to.
//!
//! Every fallible operation reports its failure as an [`ErrorKind`];
//! the evaluator attaches the source position of the token active when
//! the condition was detected, giving a [`VmError`].  A reported error
//! ends the run: no partial result is recovered.

use crate::func::func_view;
use crate::func::Function;
use crate::lex::Token;
use crate::lex::TokenType;
use crate::lex::TokenView;
use crate::list::list_view;
use crate::list::List;
use crate::num::num_view;
use crate::num::NumExpr;
use crate::num::NumExprView;
use vstd::prelude::*;

verus! {

/// Why a run failed.  The first few variants are lexical, then come
/// the syntactic/evaluation errors, the operand type mismatches, and
/// the two structural failures.
#[derive(Clone, Copy, Debug, PartialEq, Eq, Structural)]
pub enum ErrorKind {
    /// A character that starts no token.
    UnexpectedChar(char),
    /// A string literal closed by a newline or by end of input.
    UnterminatedString,
    /// A `\` escape whose second character is not recognized.
    UnknownEscape(char),
    /// A close parenthesis with no open one before it.
    UnmatchedCloseParen,
    /// An operand was required and the statement or input ended
    /// instead.
    ExpectedExpression,
    /// The token after an assignment operator was not an identifier.
    ExpectedIdentifier,
    /// Addition of a string to a value that is not a string.
    AddStringMismatch,
    /// Addition of a number to a value that is not a number.
    AddNumberMismatch,
    /// Concatenation of a list with a value that is not a list.
    AddListMismatch,
    /// Addition on a value that supports no addition at all.
    CannotAdd,
    /// Subtraction where the left operand is a number but the right is
    /// not.
    SubNumberMismatch,
    /// Subtraction on a value that is not a number.
    CannotSub,
    /// Division where the left operand is a number but the right is
    /// not.
    DivNumberMismatch,
    /// Division on a value that is not a number.
    CannotDiv,
    /// Multiplication where the left operand is a number but the right
    /// is not.
    MulNumberMismatch,
    /// Multiplication on a value that is not a number.
    CannotMul,
    /// A list index that is negative or not below the list's length.
    IndexOutOfBounds,
    /// Application saturated a function whose body is a captured token
    /// sequence; evaluating such a body is an open extension point of
    /// this design, so reaching it is reported rather than guessed at.
    SourceBodyUnsupported,
}

/// A fatal diagnostic: the reason together with the 1-based source
/// position of the token active when the condition was detected.
#[derive(Clone, Copy, Debug, PartialEq, Eq, Structural)]
pub struct VmError {
    pub kind: ErrorKind,
    pub row: usize,
    pub col: usize,
}

/// A runtime value.  All variants are immutable after construction;
/// combining values builds new ones.  `Nil` is absence; `EOF` is the
/// sentinel meaning "no more top-level statements", distinguishable
/// from `Nil` so that top-level sequencing can detect real end of
/// input.
#[derive(Debug, PartialEq)]
pub enum VMValue {
    Number(NumExpr),
    Str(String),
    Bool(bool),
    List(Box<List>),
    Function(Box<Function>),
    Nil,
    EOF,
}

/// The mathematical mirror of `VMValue`.
pub enum ValueView {
    Number(NumExprView),
    Str(Seq<char>),
    Bool(bool),
    List(Seq<ValueView>),
    Function(crate::func::FunctionView),
    Nil,
    EOF,
}

/// The mirror of a value.
pub open spec fn val_view(v: VMValue) -> ValueView
    decreases v,
{
    match v {
        VMValue::Number(n) => ValueView::Number(num_view(n)),
        VMValue::Str(s) => ValueView::Str(s@),
        VMValue::Bool(b) => ValueView::Bool(b),
        VMValue::List(l) => ValueView::List(list_view(*l)),
        VMValue::Function(f) => ValueView::Function(func_view(*f)),
        VMValue::Nil => ValueView::Nil,
        VMValue::EOF => ValueView::EOF,
    }
}

/// The mirrors of a sequence of values.
pub open spec fn vals_view(s: Seq<VMValue>) -> Seq<ValueView>
    decreases s,
{
    if s.len() == 0 {
        Seq::empty()
    } else {
        seq![val_view(s[0])] + vals_view(s.drop_first())
    }
}

impl View for VMValue {
    type V = ValueView;

    open spec fn view(&self) -> ValueView {
        val_view(*self)
    }
}

/// The mirror of an operation's outcome.
pub open spec fn res_view(r: Result<VMValue, ErrorKind>) -> Result<ValueView, ErrorKind> {
    match r {
        Ok(v) => Ok(val_view(v)),
        Err(k) => Err(k),
    }
}

/// A value sequence's mirror is elementwise: same length, each
/// element mirrored in place.
pub proof fn lemma_vals_view_elems(s: Seq<VMValue>)
    ensures
        vals_view(s).len() == s.len(),
        forall|i: int| 0 <= i < s.len() ==> vals_view(s)[i] == val_view(s[i]),
    decreases s,
{
    if s.len() > 0 {
        lemma_vals_view_elems(s.drop_first());
        assert forall|i: int| 0 <= i < s.len() implies vals_view(s)[i] == val_view(s[i]) by {
            if i > 0 {
                assert(vals_view(s.drop_first())[i - 1] == val_view(s.drop_first()[i - 1]));
                assert(s.drop_first()[i - 1] == s[i]);
            }
        }
    }
}

pub proof fn lemma_vals_view_push(s: Seq<VMValue>, x: VMValue)
    ensures
        vals_view(s.push(x)) == vals_view(s).push(val_view(x)),
{
    lemma_vals_view_elems(s);
    lemma_vals_view_elems(s.push(x));
    assert(vals_view(s.push(x)) =~= vals_view(s).push(val_view(x)));
}

pub proof fn lemma_vals_view_drop_first(s: Seq<VMValue>)
    requires
        s.len() > 0,
    ensures
        vals_view(s) == seq![val_view(s[0])] + vals_view(s.drop_first()),
{
}

pub proof fn lemma_vals_view_concat(a: Seq<VMValue>, b: Seq<VMValue>)
    ensures
        vals_view(a + b) == vals_view(a) + vals_view(b),
{
    lemma_vals_view_elems(a);
    lemma_vals_view_elems(b);
    lemma_vals_view_elems(a + b);
    assert(vals_view(a + b) =~= vals_view(a) + vals_view(b));
}

/// Copies every value of a vector; the copy denotes the same sequence.
pub(crate) fn clone_values(v: &Vec<VMValue>) -> (r: Vec<VMValue>)
    ensures
        vals_view(r@) == vals_view(v@),
    decreases v@,
{
    let mut r: Vec<VMValue> = Vec::new();
    let mut i: usize = 0;
    while i < v.len()
        invariant
            i <= v@.len(),
            r@.len() == i,
            forall|m: int| 0 <= m < i ==> val_view(r@[m]) == val_view(v@[m]),
        decreases v@.len() - i,
    {
        r.push(v[i].clone());
        i = i + 1;
    }
    proof {
        lemma_vals_view_elems(r@);
        lemma_vals_view_elems(v@);
        assert(vals_view(r@) =~= vals_view(v@));
    }
    r
}

impl Clone for VMValue {
    /// A structural copy denoting the same value.
    fn clone(&self) -> (res: Self)
        ensures
            res@ == self@,
        decreases self,
    {
        match self {
            VMValue::Number(n) => VMValue::Number(n.clone()),
            VMValue::Str(s) => VMValue::Str(s.clone()),
            VMValue::Bool(b) => VMValue::Bool(*b),
            VMValue::List(l) => VMValue::List(Box::new((**l).clone())),
            VMValue::Function(f) => VMValue::Function(Box::new((**f).clone())),
            VMValue::Nil => VMValue::Nil,
            VMValue::EOF => VMValue::EOF,
        }
    }
}

/// The text a value renders as: numbers and booleans their textual
/// form, strings their raw text without quoting, lists a bracketed,
/// comma-separated sequence of the element renderings, `nil`
/// the literal text `nil`, a function an opaque placeholder, and the
/// end-of-input sentinel empty text.
pub open spec fn render_val(v: ValueView) -> Seq<char>
    decreases v,
{
    match v {
        ValueView::Number(n) => crate::num::render_num(n),
        ValueView::Str(s) => s,
        ValueView::Bool(b) => if b {
            seq!['t', 'r', 'u', 'e']
        } else {
            seq!['f', 'a', 'l', 's', 'e']
        },
        ValueView::List(elems) => seq!['['] + render_elems(elems) + seq![']'],
        ValueView::Function(_) => seq!['<', 'f', 'u', 'n', 'c', 't', 'i', 'o', 'n', '>'],
        ValueView::Nil => seq!['n', 'i', 'l'],
        ValueView::EOF => Seq::empty(),
    }
}

/// The comma-separated renderings of a list's elements.
pub open spec fn render_elems(s: Seq<ValueView>) -> Seq<char>
    decreases s,
{
    if s.len() == 0 {
        Seq::empty()
    } else if s.len() == 1 {
        render_val(s[0])
    } else {
        render_val(s[0]) + seq![',', ' '] + render_elems(s.drop_first())
    }
}

/// Addition: string concatenation, numeric addition, or list
/// concatenation, with the variant-specific error on any other
/// pairing.
pub open spec fn spec_add(a: ValueView, b: ValueView) -> Result<ValueView, ErrorKind> {
    match a {
        ValueView::Str(s) => match b {
            ValueView::Str(t) => Ok(ValueView::Str(s + t)),
            _ => Err(ErrorKind::AddStringMismatch),
        },
        ValueView::Number(x) => match b {
            ValueView::Number(y) => Ok(
                ValueView::Number(NumExprView::Add(Box::new(x), Box::new(y))),
            ),
            _ => Err(ErrorKind::AddNumberMismatch),
        },
        ValueView::List(xs) => match b {
            ValueView::List(ys) => Ok(ValueView::List(xs + ys)),
            _ => Err(ErrorKind::AddListMismatch),
        },
        _ => Err(ErrorKind::CannotAdd),
    }
}

/// Subtraction: numbers only.
pub open spec fn spec_sub(a: ValueView, b: ValueView) -> Result<ValueView, ErrorKind> {
    match a {
        ValueView::Number(x) => match b {
            ValueView::Number(y) => Ok(
                ValueView::Number(NumExprView::Sub(Box::new(x), Box::new(y))),
            ),
            _ => Err(ErrorKind::SubNumberMismatch),
        },
        _ => Err(ErrorKind::CannotSub),
    }
}

/// Division: numbers only.
pub open spec fn spec_div(a: ValueView, b: ValueView) -> Result<ValueView, ErrorKind> {
    match a {
        ValueView::Number(x) => match b {
            ValueView::Number(y) => Ok(
                ValueView::Number(NumExprView::Div(Box::new(x), Box::new(y))),
            ),
            _ => Err(ErrorKind::DivNumberMismatch),
        },
        _ => Err(ErrorKind::CannotDiv),
    }
}

/// Multiplication: numbers only.
pub open spec fn spec_mul(a: ValueView, b: ValueView) -> Result<ValueView, ErrorKind> {
    match a {
        ValueView::Number(x) => match b {
            ValueView::Number(y) => Ok(
                ValueView::Number(NumExprView::Mul(Box::new(x), Box::new(y))),
            ),
            _ => Err(ErrorKind::MulNumberMismatch),
        },
        _ => Err(ErrorKind::CannotMul),
    }
}

/// The generic fold combining two adjacent results: a string absorbs a
/// following string by concatenation, a function absorbs the next
/// value as a curried argument, and any other left value is simply
/// replaced by the right one.  Also yields the output log after the
/// step, since supplying an argument may invoke a native callback.
pub open spec fn spec_apply(a: ValueView, b: ValueView, printed: Seq<Seq<ValueView>>) -> (Result<
    ValueView,
    ErrorKind,
>, Seq<Seq<ValueView>>) {
    match a {
        ValueView::Str(_) => if b is Str {
            (spec_add(a, b), printed)
        } else {
            (Ok(b), printed)
        },
        ValueView::Function(f) => crate::func::spec_add_arg(f, b, printed),
        _ => (Ok(b), printed),
    }
}

impl VMValue {
    /// A number value from a numeral expression.
    pub fn new_num(val: NumExpr) -> (r: VMValue)
        ensures
            val_view(r) == ValueView::Number(num_view(val)),
    {
        VMValue::Number(val)
    }

    /// A string value with the given text.
    pub fn new_str(val: &str) -> (r: VMValue)
        ensures
            val_view(r) == ValueView::Str(val@),
    {
        VMValue::Str(val.to_owned())
    }

    /// The numeral expression inside a number value.
    pub fn as_num(&self) -> (r: Result<NumExpr, ()>)
        ensures
            self matches VMValue::Number(n) ==> r matches Ok(x) && num_view(x) == num_view(*n),
            !(self matches VMValue::Number(_)) ==> r is Err,
    {
        match self {
            VMValue::Number(n) => Ok(n.clone()),
            _ => Err(()),
        }
    }

    /// The text inside a string value.
    pub fn as_str(&self) -> (r: Result<String, ()>)
        ensures
            self matches VMValue::Str(s) ==> r matches Ok(x) && x@ == s@,
            !(self matches VMValue::Str(_)) ==> r is Err,
    {
        match self {
            VMValue::Str(s) => Ok(s.clone()),
            _ => Err(()),
        }
    }

    /// The list inside a list value.
    pub fn as_list(&self) -> (r: Result<&List, ()>)
        ensures
            self matches VMValue::List(l) ==> r matches Ok(x) && x@ == list_view(**l),
            !(self matches VMValue::List(_)) ==> r is Err,
    {
        match self {
            VMValue::List(l) => Ok(l),
            _ => Err(()),
        }
    }

    /// Addition, exactly as [`spec_add`] says.
    pub fn add(self, other: Self) -> (r: Result<VMValue, ErrorKind>)
        ensures
            res_view(r) == spec_add(val_view(self), val_view(other)),
    {
        match self {
            VMValue::Str(s) => match other {
                VMValue::Str(t) => Ok(VMValue::Str(crate::text::str_concat(s.as_str(), t.as_str()))),
                _ => Err(ErrorKind::AddStringMismatch),
            },
            VMValue::Number(x) => match other {
                VMValue::Number(y) => Ok(VMValue::Number(NumExpr::Add(Box::new(x), Box::new(y)))),
                _ => Err(ErrorKind::AddNumberMismatch),
            },
            VMValue::List(a) => match other {
                VMValue::List(b) => Ok(VMValue::List(a.append(&b))),
                _ => Err(ErrorKind::AddListMismatch),
            },
            _ => Err(ErrorKind::CannotAdd),
        }
    }

    /// Subtraction, exactly as [`spec_sub`] says.
    pub fn sub(self, other: Self) -> (r: Result<VMValue, ErrorKind>)
        ensures
            res_view(r) == spec_sub(val_view(self), val_view(other)),
    {
        match self {
            VMValue::Number(x) => match other {
                VMValue::Number(y) => Ok(VMValue::Number(NumExpr::Sub(Box::new(x), Box::new(y)))),
                _ => Err(ErrorKind::SubNumberMismatch),
            },
            _ => Err(ErrorKind::CannotSub),
        }
    }

    /// Division, exactly as [`spec_div`] says.
    pub fn div(self, other: Self) -> (r: Result<VMValue, ErrorKind>)
        ensures
            res_view(r) == spec_div(val_view(self), val_view(other)),
    {
        match self {
            VMValue::Number(x) => match other {
                VMValue::Number(y) => Ok(VMValue::Number(NumExpr::Div(Box::new(x), Box::new(y)))),
                _ => Err(ErrorKind::DivNumberMismatch),
            },
            _ => Err(ErrorKind::CannotDiv),
        }
    }

    /// Multiplication, exactly as [`spec_mul`] says.
    pub fn mul(self, other: Self) -> (r: Result<VMValue, ErrorKind>)
        ensures
            res_view(r) == spec_mul(val_view(self), val_view(other)),
    {
        match self {
            VMValue::Number(x) => match other {
                VMValue::Number(y) => Ok(VMValue::Number(NumExpr::Mul(Box::new(x), Box::new(y)))),
                _ => Err(ErrorKind::MulNumberMismatch),
            },
            _ => Err(ErrorKind::CannotMul),
        }
    }

    /// Appends this value's rendering to `out`.
    pub(crate) fn render_into(&self, out: &mut Vec<char>)
        ensures
            final(out)@ == old(out)@ + render_val(val_view(*self)),
        decreases self,
    {
        match self {
            VMValue::Number(n) => {
                n.render_into(out);
            },
            VMValue::Str(s) => {
                let cs = crate::text::chars_of(s.as_str());
                let mut i: usize = 0;
                while i < cs.len()
                    invariant
                        i <= cs@.len(),
                        out@ == old(out)@ + cs@.subrange(0, i as int),
                    decreases cs@.len() - i,
                {
                    out.push(cs[i]);
                    proof {
                        assert(old(out)@ + cs@.subrange(0, i as int) + seq![cs@[i as int]]
                            =~= old(out)@ + cs@.subrange(0, (i + 1) as int));
                    }
                    i = i + 1;
                }
                proof {
                    assert(cs@.subrange(0, cs@.len() as int) =~= cs@);
                }
            },
            VMValue::Bool(b) => {
                if *b {
                    out.push('t');
                    out.push('r');
                    out.push('u');
                    out.push('e');
                } else {
                    out.push('f');
                    out.push('a');
                    out.push('l');
                    out.push('s');
                    out.push('e');
                }
                proof {
                    assert(out@ =~= old(out)@ + render_val(val_view(*self)));
                }
            },
            VMValue::List(l) => {
                out.push('[');
                l.render_elems_into(out);
                out.push(']');
                proof {
                    assert(out@ =~= old(out)@ + render_val(val_view(*self)));
                }
            },
            VMValue::Function(_) => {
                out.push('<');
                out.push('f');
                out.push('u');
                out.push('n');
                out.push('c');
                out.push('t');
                out.push('i');
                out.push('o');
                out.push('n');
                out.push('>');
                proof {
                    assert(out@ =~= old(out)@ + render_val(val_view(*self)));
                }
            },
            VMValue::Nil => {
                out.push('n');
                out.push('i');
                out.push('l');
                proof {
                    assert(out@ =~= old(out)@ + render_val(val_view(*self)));
                }
            },
            VMValue::EOF => {
                proof {
                    assert(out@ =~= old(out)@ + render_val(val_view(*self)));
                }
            },
        }
    }

    /// The text this value displays as, per [`render_val`].
    pub fn render(&self) -> (r: String)
        ensures
            r@ == render_val(val_view(*self)),
    {
        let mut out: Vec<char> = Vec::new();
        proof {
            assert(out@ =~= Seq::<char>::empty());
        }
        self.render_into(&mut out);
        proof {
            assert(out@ =~= render_val(val_view(*self)));
        }
        crate::text::string_from_chars(&out)
    }

    /// The generic fold step, exactly as [`spec_apply`] says.  Only
    /// the output log of `vm` can change.
    pub fn apply(self, other: Self, vm: &mut VMState) -> (r: Result<VMValue, ErrorKind>)
        ensures
            res_view(r) == spec_apply(val_view(self), val_view(other), old(vm).printed_log()).0,
            final(vm).printed_log() == spec_apply(
                val_view(self),
                val_view(other),
                old(vm).printed_log(),
            ).1,
            final(vm).names_map() == old(vm).names_map(),
            final(vm).cur() == old(vm).cur(),
    {
        match self {
            VMValue::Str(s) => {
                if matches!(other, VMValue::Str(_)) {
                    VMValue::Str(s).add(other)
                } else {
                    Ok(other)
                }
            },
            VMValue::Function(f) => f.add_arg(other, vm),
            _ => Ok(other),
        }
    }
}

/// The interpreter state: the flat namespace, the position-bearing
/// token currently being handled, and the output log.
#[derive(Debug)]
pub struct VMState {
    names: Vec<(String, VMValue)>,
    current_token: Token,
    printed: Vec<Vec<VMValue>>,
}

/// The namespace an entry list denotes: later entries override earlier
/// ones.
spec fn map_of(entries: Seq<(String, VMValue)>) -> Map<Seq<char>, ValueView>
    decreases entries.len(),
{
    if entries.len() == 0 {
        Map::empty()
    } else {
        map_of(entries.drop_last()).insert(entries.last().0@, val_view(entries.last().1))
    }
}

proof fn lemma_map_of_found(entries: Seq<(String, VMValue)>, idx: int, k: Seq<char>)
    requires
        0 <= idx < entries.len(),
        entries[idx].0@ == k,
        forall|m: int| idx < m < entries.len() ==> entries[m].0@ != k,
    ensures
        map_of(entries).contains_key(k),
        map_of(entries)[k] == val_view(entries[idx].1),
    decreases entries.len(),
{
    if idx == entries.len() - 1 {
    } else {
        lemma_map_of_found(entries.drop_last(), idx, k);
    }
}

proof fn lemma_map_of_missing(entries: Seq<(String, VMValue)>, k: Seq<char>)
    requires
        forall|m: int| 0 <= m < entries.len() ==> entries[m].0@ != k,
    ensures
        !map_of(entries).contains_key(k),
    decreases entries.len(),
{
    if entries.len() > 0 {
        lemma_map_of_missing(entries.drop_last(), k);
    }
}

impl VMState {
    /// The namespace: what each defined name currently denotes.
    pub closed spec fn names_map(&self) -> Map<Seq<char>, ValueView> {
        map_of(self.names@)
    }

    /// The token currently being handled: produced last by the
    /// tokenizer or consumed last by the evaluator.  A fatal
    /// diagnostic reports its position.
    pub closed spec fn cur(&self) -> TokenView {
        self.current_token@
    }

    /// The output log: one entry per `print` call or streamed
    /// statement result, in order.
    pub closed spec fn printed_log(&self) -> Seq<Seq<ValueView>> {
        self.printed@.map_values(|v: Vec<VMValue>| vals_view(v@))
    }

    /// A fresh state: an empty output log, a placeholder current
    /// token, and the startup builtins registered.
    pub fn new() -> (r: VMState)
        ensures
            r.names_map() == Map::<Seq<char>, ValueView>::empty().insert(
                "print"@,
                crate::func::print_function_view(),
            ),
            r.printed_log() == Seq::<Seq<ValueView>>::empty(),
            r.cur() == (TokenView {
                token: crate::lex::TokenTypeView::Number("0"@),
                row: 0,
                col: 0,
            }),
    {
        let mut ret = VMState {
            names: Vec::new(),
            current_token: Token { token: TokenType::Number("0".to_owned()), row: 0, col: 0 },
            printed: Vec::new(),
        };
        proof {
            assert(ret.printed@.map_values(|v: Vec<VMValue>| vals_view(v@)) =~= Seq::<
                Seq<ValueView>,
            >::empty());
        }
        crate::func::populate_vm(&mut ret);
        ret
    }

    /// Registers a native callback as a callable value under `name`,
    /// awaiting `min_arity` arguments.
    pub fn register_native(&mut self, name: &str, callback: crate::func::NativeFn, min_arity: usize)
        ensures
            final(self).names_map() == old(self).names_map().insert(
                name@,
                ValueView::Function(
                    crate::func::FunctionView {
                        min_args: min_arity,
                        args: Seq::empty(),
                        src: crate::func::FunctionSourceView::Native(callback),
                    },
                ),
            ),
            final(self).printed_log() == old(self).printed_log(),
            final(self).cur() == old(self).cur(),
    {
        self.set(
            name,
            VMValue::Function(Box::new(Function::new_static(callback, min_arity))),
        );
    }

    /// Binds `key` to `val`, overwriting any previous binding.
    pub fn set(&mut self, key: &str, val: VMValue)
        ensures
            final(self).names_map() == old(self).names_map().insert(key@, val_view(val)),
            final(self).printed_log() == old(self).printed_log(),
            final(self).cur() == old(self).cur(),
    {
        self.names.push((key.to_owned(), val));
        proof {
            assert(self.names@.drop_last() =~= old(self).names@);
        }
    }

    /// The value bound to `key`, or `Nil` when the name is unset:
    /// a lookup miss is not an error.
    pub fn get(&self, key: &str) -> (r: VMValue)
        ensures
            val_view(r) == if self.names_map().contains_key(key@) {
                self.names_map()[key@]
            } else {
                ValueView::Nil
            },
    {
        let k = key.to_owned();
        let mut j = self.names.len();
        while j > 0
            invariant
                j <= self.names@.len(),
                k@ == key@,
                forall|m: int| j <= m < self.names@.len() ==> self.names@[m].0@ != key@,
            decreases j,
        {
            j = j - 1;
            if self.names[j].0 == k {
                proof {
                    lemma_map_of_found(self.names@, j as int, key@);
                }
                return self.names[j].1.clone();
            }
        }
        proof {
            lemma_map_of_missing(self.names@, key@);
        }
        VMValue::Nil
    }

    /// Appends one entry to the output log.
    pub(crate) fn push_printed(&mut self, entry: Vec<VMValue>)
        ensures
            final(self).printed_log() == old(self).printed_log().push(vals_view(entry@)),
            final(self).names_map() == old(self).names_map(),
            final(self).cur() == old(self).cur(),
    {
        self.printed.push(entry);
        proof {
            assert(self.printed@.map_values(|v: Vec<VMValue>| vals_view(v@)) =~= old(
                self,
            ).printed_log().push(vals_view(entry@)));
        }
    }

    /// Makes `t` the token currently being handled.
    pub fn set_current(&mut self, t: Token)
        ensures
            final(self).cur() == t@,
            final(self).names_map() == old(self).names_map(),
            final(self).printed_log() == old(self).printed_log(),
    {
        self.current_token = t;
    }

    /// The token currently being handled.
    pub fn current(&self) -> (r: &Token)
        ensures
            r@ == self.cur(),
    {
        &self.current_token
    }

    /// Tokenizes `src` and reduces the whole token sequence to one
    /// value, or reports the first fatal diagnostic with its source
    /// position.
    pub fn eval(&mut self, src: &str) -> (r: Result<VMValue, VmError>)
        ensures
            match crate::lex::spec_tokenize(src@) {
                Err(e) => {
                    &&& r matches Err(e2) && e2 == e
                    &&& final(self).names_map() == old(self).names_map()
                    &&& final(self).printed_log() == old(self).printed_log()
                    &&& final(self).cur() == old(self).cur()
                },
                Ok(ts) => ({
                    let st1 = crate::eval::EvalState {
                        names: old(self).names_map(),
                        cur: (if ts.len() > 0 {
                            ts.last()
                        } else {
                            old(self).cur()
                        }),
                        printed: old(self).printed_log(),
                    };
                    let o = crate::eval::spec_eval_all(ts, st1);
                    &&& crate::eval::state_of(*final(self)) == o.0
                    &&& match o.1 {
                        Ok(v) => r matches Ok(rv) && val_view(rv) == v,
                        Err(k) => r matches Err(e) && e == (VmError {
                            kind: k,
                            row: o.0.cur.row,
                            col: o.0.cur.col,
                        }),
                    }
                }),
            },
    {
        match crate::lex::tokenize(src, self) {
            Err(e) => Err(e),
            Ok(toks) => crate::eval::eval_all_tokens(toks, self),
        }
    }

    /// Tokenizes `src` and evaluates each top-level statement in
    /// turn, appending each statement's value to the output log
    /// instead of folding results together.
    pub fn exec(&mut self, src: &str) -> (r: Result<(), VmError>)
        ensures
            match crate::lex::spec_tokenize(src@) {
                Err(e) => {
                    &&& r matches Err(e2) && e2 == e
                    &&& final(self).names_map() == old(self).names_map()
                    &&& final(self).printed_log() == old(self).printed_log()
                    &&& final(self).cur() == old(self).cur()
                },
                Ok(ts) => ({
                    let st1 = crate::eval::EvalState {
                        names: old(self).names_map(),
                        cur: (if ts.len() > 0 {
                            ts.last()
                        } else {
                            old(self).cur()
                        }),
                        printed: old(self).printed_log(),
                    };
                    let o = crate::eval::spec_exec_all_from(ts, 0, st1);
                    &&& crate::eval::state_of(*final(self)) == o.0
                    &&& match o.1 {
                        Ok(u) => r is Ok,
                        Err(k) => r matches Err(e) && e == (VmError {
                            kind: k,
                            row: o.0.cur.row,
                            col: o.0.cur.col,
                        }),
                    }
                }),
            },
    {
        match crate::lex::tokenize(src, self) {
            Err(e) => Err(e),
            Ok(toks) => crate::eval::exec_all_tokens(toks, self),
        }
    }

    /// The output log's entries, for a host to render and emit.
    pub fn printed_entries(&self) -> (r: &Vec<Vec<VMValue>>)
        ensures
            r@.map_values(|v: Vec<VMValue>| vals_view(v@)) == self.printed_log(),
    {
        &self.printed
    }
}

} // verus!

