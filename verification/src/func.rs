//! Callable function values and arity-checked currying.
//!
//! A function value accumulates arguments one at a time.  Applying one
//! more argument to a function still under its arity yields a new
//! function value with that argument collected — the original is left
//! untouched, so partial applications are independent, reusable
//! values.  Applying the argument that meets the arity invokes the
//! body: a native body runs here; a source-backed body is an open
//! extension point of this design and reports an error instead of
//! guessing semantics.

use crate::lex::tokens_view;
use crate::lex::Token;
use crate::lex::TokenView;
use crate::vm::res_view;
use crate::vm::val_view;
use crate::vm::vals_view;
use crate::vm::ErrorKind;
use crate::vm::VMState;
use crate::vm::VMValue;
use crate::vm::ValueView;
use vstd::prelude::*;

verus! {

/// The native callbacks the library registers at startup.
#[derive(Clone, Copy, Debug, PartialEq, Eq, Structural)]
pub enum NativeFn {
    /// Records its arguments on the interpreter's output log and
    /// echoes the last of them.
    Print,
}

/// What a function runs when saturated: a native callback, or a token
/// sequence captured at definition time.
#[derive(Debug, PartialEq)]
pub enum FunctionSource {
    Native(NativeFn),
    Src(Vec<Token>),
}

/// The mathematical mirror of `FunctionSource`.
pub enum FunctionSourceView {
    Native(NativeFn),
    Src(Seq<TokenView>),
}

/// The mirror of a function body source.
pub open spec fn src_view(s: FunctionSource) -> FunctionSourceView {
    match s {
        FunctionSource::Native(n) => FunctionSourceView::Native(n),
        FunctionSource::Src(ts) => FunctionSourceView::Src(tokens_view(ts@)),
    }
}

impl View for FunctionSource {
    type V = FunctionSourceView;

    open spec fn view(&self) -> FunctionSourceView {
        src_view(*self)
    }
}

/// A callable value: a minimum arity, the arguments collected so far
/// (always fewer than the arity for a function that is still awaiting
/// arguments), and the body to invoke once the arity is met.
#[derive(Debug, PartialEq)]
pub struct Function {
    pub min_args: usize,
    pub args_coll: Vec<VMValue>,
    pub src: FunctionSource,
}

/// The mathematical mirror of `Function`.
pub struct FunctionView {
    pub min_args: usize,
    pub args: Seq<ValueView>,
    pub src: FunctionSourceView,
}

/// The mirror of a function value.
pub open spec fn func_view(f: Function) -> FunctionView
    decreases f,
{
    FunctionView { min_args: f.min_args, args: vals_view(f.args_coll@), src: src_view(f.src) }
}

impl Clone for FunctionSource {
    /// A structural copy denoting the same body.
    fn clone(&self) -> (res: Self)
        ensures
            res@ == self@,
    {
        match self {
            FunctionSource::Native(n) => FunctionSource::Native(*n),
            FunctionSource::Src(ts) => FunctionSource::Src(crate::lex::clone_tokens(ts)),
        }
    }
}

impl Clone for Function {
    /// A structural copy denoting the same function.
    fn clone(&self) -> (res: Self)
        ensures
            func_view(res) == func_view(*self),
        decreases self,
    {
        Function {
            min_args: self.min_args,
            args_coll: crate::vm::clone_values(&self.args_coll),
            src: self.src.clone(),
        }
    }
}

/// What invoking the native callback `n` on `args` returns: `print`
/// echoes its last argument, or `Nil` when there is none.
pub open spec fn spec_native_result(n: NativeFn, args: Seq<ValueView>) -> ValueView {
    match n {
        NativeFn::Print => if args.len() > 0 {
            args.last()
        } else {
            ValueView::Nil
        },
    }
}

/// Invoking a saturated function: the result (or the error for a
/// source-backed body) together with the output log after the call.
pub open spec fn spec_apply_saturated(f: FunctionView, printed: Seq<Seq<ValueView>>) -> (Result<
    ValueView,
    ErrorKind,
>, Seq<Seq<ValueView>>) {
    match f.src {
        FunctionSourceView::Native(n) => (Ok(spec_native_result(n, f.args)), printed.push(f.args)),
        FunctionSourceView::Src(_) => (Err(ErrorKind::SourceBodyUnsupported), printed),
    }
}

/// Supplying one more argument to a function value: a new function
/// still awaiting arguments, or — once the arity is met — the
/// invocation's outcome, with the output log after it.
pub open spec fn spec_add_arg(f: FunctionView, v: ValueView, printed: Seq<Seq<ValueView>>) -> (
    Result<ValueView, ErrorKind>,
    Seq<Seq<ValueView>>,
) {
    let extended = FunctionView { min_args: f.min_args, args: f.args.push(v), src: f.src };
    if extended.args.len() >= extended.min_args {
        spec_apply_saturated(extended, printed)
    } else {
        (Ok(ValueView::Function(extended)), printed)
    }
}

/// The `print` builtin as a value: native, arity 1, no argument
/// collected yet.
pub open spec fn print_function_view() -> ValueView {
    ValueView::Function(
        FunctionView {
            min_args: 1,
            args: Seq::empty(),
            src: FunctionSourceView::Native(NativeFn::Print),
        },
    )
}

impl Function {
    /// A fresh function around the native callback `f`, awaiting
    /// `num` arguments.
    pub fn new_static(f: NativeFn, num: usize) -> (r: Function)
        ensures
            func_view(r) == (FunctionView {
                min_args: num,
                args: Seq::empty(),
                src: FunctionSourceView::Native(f),
            }),
    {
        let r = Function { min_args: num, args_coll: Vec::new(), src: FunctionSource::Native(f) };
        proof {
            assert(vals_view(Seq::<VMValue>::empty()) =~= Seq::<ValueView>::empty());
        }
        r
    }

    /// A fresh function around the captured token sequence `tokens`,
    /// awaiting `num` arguments.
    pub fn new_dynamic(tokens: Vec<Token>, num: usize) -> (r: Function)
        ensures
            func_view(r) == (FunctionView {
                min_args: num,
                args: Seq::empty(),
                src: FunctionSourceView::Src(tokens_view(tokens@)),
            }),
    {
        let r = Function { min_args: num, args_coll: Vec::new(), src: FunctionSource::Src(tokens) };
        proof {
            assert(vals_view(Seq::<VMValue>::empty()) =~= Seq::<ValueView>::empty());
        }
        r
    }

    /// Invokes the function on its collected arguments: a native body
    /// runs; a source-backed body reports the unsupported-body error.
    /// Only the output log of `vm` can change.
    pub fn apply(self, vm: &mut VMState) -> (r: Result<VMValue, ErrorKind>)
        ensures
            res_view(r) == spec_apply_saturated(func_view(self), old(vm).printed_log()).0,
            final(vm).printed_log() == spec_apply_saturated(
                func_view(self),
                old(vm).printed_log(),
            ).1,
            final(vm).names_map() == old(vm).names_map(),
            final(vm).cur() == old(vm).cur(),
    {
        match self.src {
            FunctionSource::Src(_) => Err(ErrorKind::SourceBodyUnsupported),
            FunctionSource::Native(n) => match n {
                NativeFn::Print => Ok(print(self.args_coll, vm)),
            },
        }
    }

    /// Supplies `other` as the next curried argument.  The original
    /// function value is untouched; the result is a new function value
    /// or, once the arity is met, the invocation's outcome.
    pub fn add_arg(&self, other: VMValue, vm: &mut VMState) -> (r: Result<VMValue, ErrorKind>)
        ensures
            res_view(r) == spec_add_arg(
                func_view(*self),
                val_view(other),
                old(vm).printed_log(),
            ).0,
            final(vm).printed_log() == spec_add_arg(
                func_view(*self),
                val_view(other),
                old(vm).printed_log(),
            ).1,
            final(vm).names_map() == old(vm).names_map(),
            final(vm).cur() == old(vm).cur(),
    {
        let mut ret = self.clone();
        let ghost args_before = ret.args_coll@;
        ret.args_coll.push(other);
        proof {
            crate::vm::lemma_vals_view_push(args_before, other);
            crate::vm::lemma_vals_view_elems(args_before);
            crate::vm::lemma_vals_view_elems(args_before.push(other));
        }
        if ret.args_coll.len() >= ret.min_args {
            ret.apply(vm)
        } else {
            Ok(VMValue::Function(Box::new(ret)))
        }
    }
}

/// Law: currying.  For a native function of arity 2 with nothing
/// collected, applying one argument yields a function value still
/// awaiting one more, and touches no state.  Applying a second
/// argument to that partial application invokes the callback on both
/// arguments and logs the call.  The partial application is an
/// independent value, so reusing it with a different second argument
/// yields a different invocation — for `print`, which echoes its last
/// argument, the two results differ whenever the second arguments do.
pub proof fn lemma_currying(
    f: FunctionView,
    x: ValueView,
    y1: ValueView,
    y2: ValueView,
    printed: Seq<Seq<ValueView>>,
    printed2: Seq<Seq<ValueView>>,
)
    requires
        f.min_args == 2,
        f.args.len() == 0,
        f.src == FunctionSourceView::Native(NativeFn::Print),
    ensures
        spec_add_arg(f, x, printed) == (
            Ok::<_, ErrorKind>(
                ValueView::Function(
                    FunctionView { min_args: 2, args: seq![x], src: f.src },
                ),
            ),
            printed,
        ),
        ({
            let g = FunctionView { min_args: 2, args: seq![x], src: f.src };
            &&& spec_add_arg(g, y1, printed2) == (
                Ok::<_, ErrorKind>(y1),
                printed2.push(seq![x, y1]),
            )
            &&& spec_add_arg(g, y2, printed2) == (
                Ok::<_, ErrorKind>(y2),
                printed2.push(seq![x, y2]),
            )
            &&& y1 != y2 ==> spec_add_arg(g, y1, printed2).0 != spec_add_arg(g, y2, printed2).0
        }),
{
    assert(f.args.push(x) =~= seq![x]);
    let g = FunctionView { min_args: 2, args: seq![x], src: f.src };
    assert(g.args.push(y1) =~= seq![x, y1]);
    assert(g.args.push(y2) =~= seq![x, y2]);
    assert(seq![x, y1].last() == y1);
    assert(seq![x, y2].last() == y2);
}

/// Renders and echoes: records the argument list on the output log and
/// returns the last argument, or `Nil` when there is none.  (The log
/// holds the values themselves; presenting them is the host's side of
/// the interface.)
pub fn print(args: Vec<VMValue>, vm: &mut VMState) -> (r: VMValue)
    ensures
        val_view(r) == spec_native_result(NativeFn::Print, vals_view(args@)),
        final(vm).printed_log() == old(vm).printed_log().push(vals_view(args@)),
        final(vm).names_map() == old(vm).names_map(),
        final(vm).cur() == old(vm).cur(),
{
    proof {
        crate::vm::lemma_vals_view_elems(args@);
    }
    let r = if args.len() > 0 {
        args[args.len() - 1].clone()
    } else {
        VMValue::Nil
    };
    vm.push_printed(args);
    r
}

/// Registers the startup builtins: `print` with arity 1.
pub fn populate_vm(vm: &mut VMState)
    ensures
        final(vm).names_map() == old(vm).names_map().insert("print"@, print_function_view()),
        final(vm).printed_log() == old(vm).printed_log(),
        final(vm).cur() == old(vm).cur(),
{
    vm.register_native("print", NativeFn::Print, 1);
}

/// Law: a partial application is still awaiting arguments.  While one
/// more argument stays under the arity, supplying it builds a new
/// function value — same arity, same body, the argument collected at
/// the end — whose collected arguments remain fewer than its arity,
/// and nothing is invoked or logged.
pub proof fn lemma_partial_application_awaits(
    f: FunctionView,
    v: ValueView,
    printed: Seq<Seq<ValueView>>,
)
    requires
        f.args.len() + 1 < f.min_args,
    ensures
        ({
            let r = spec_add_arg(f, v, printed);
            &&& r.1 == printed
            &&& r.0 matches Ok(rv) && rv matches ValueView::Function(g) && g.args == f.args.push(v)
                && g.min_args == f.min_args && g.src == f.src && g.args.len() < g.min_args
        }),
{
}

} // verus!
