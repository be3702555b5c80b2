use vstd::prelude::*;

use crate::environment::Environment;
use crate::evaluate::{apply_builtin, apply_closure, apply_function, evolves, MAX_DEPTH};
use crate::lisp_error::LispError;
use crate::lisp_expression::{copy_expression, Expr, LispExpression};
use crate::semantics::{apply, param_names, valid_params};
use crate::value::{outputs_view, result_view, BuiltIn, LispOutput, Val};

verus! {

/// A function value that can be called on already evaluated arguments.
pub trait LispFunctionCall {
    /// The model of the function being called.
    spec fn callee(&self) -> Val;

    /// Calls the function on `args` within `env`, which holds the frames that closures
    /// capture. A call may add frames to `env` and change bindings in it.
    fn call(&self, args: Vec<LispOutput>, env: &mut Environment) -> (r: Result<
        LispOutput,
        LispError,
    >)
        requires
            old(env).wf(),
        ensures
            evolves(*old(env), *final(env)),
            (final(env)@.frames, result_view(r)) == apply(
                self.callee(),
                outputs_view(args@),
                old(env)@.frames,
                MAX_DEPTH as nat,
            ),
    ;
}


/// A function of the interpreter itself, told apart by which one it is.
#[derive(Debug, PartialEq)]
pub struct BuiltInFunction {
    pub function: BuiltIn,
}

impl BuiltInFunction {
    pub fn new(built_in_func: BuiltIn) -> (r: Self)
        ensures
            r.function == built_in_func,
    {
        BuiltInFunction { function: built_in_func }
    }
}

/// A closure: parameter names, a body, and the index of the frame it was defined in.
#[derive(Debug, PartialEq)]
pub struct Function {
    pub parameters: Vec<String>,
    pub body: LispExpression,
    pub enclosing_frame: usize,
}

impl Function {
    /// Builds a closure from a parameter list, which must be a list of distinct symbols.
    #[verifier::loop_isolation(false)]
    pub fn build(parameters: &LispExpression, body: LispExpression, enclosing_frame: usize) -> (r:
        Result<Self, LispError>)
        ensures
            match r {
                Ok(func) => valid_params(parameters@) && func.parameters@.map_values(
                    |s: String| s@,
                ) == param_names(parameters@->List_0) && func.body@ == body@
                    && func.enclosing_frame == enclosing_frame,
                Err(e) => !valid_params(parameters@) && e == LispError::BadSpecialForm,
            },
    {
        match parameters {
            LispExpression::List(param_expressions) => {
                let ghost ps = parameters@->List_0;
                let mut params: Vec<String> = Vec::new();
                let mut i: usize = 0;
                while i < param_expressions.len()
                    invariant
                        *parameters == LispExpression::List(*param_expressions),
                        ps == parameters@->List_0,
                        i <= param_expressions.len(),
                        params.len() == i,
                        forall|j: int| 0 <= j < i ==> ps[j] is Sym,
                        forall|j: int| 0 <= j < i ==> (#[trigger] params@[j])@ == ps[j]->Sym_0,
                        forall|j: int, k: int| 0 <= j < k < i ==> params@[j]@ != params@[k]@,
                    decreases param_expressions.len() - i,
                {
                    assert(ps[i as int] == param_expressions@[i as int]@);
                    match &param_expressions[i] {
                        LispExpression::Symbol(name) => {
                            let mut k: usize = 0;
                            while k < i
                                invariant
                                    i < param_expressions.len(),
                                    k <= i,
                                    params.len() == i,
                                    ps[i as int] == Expr::Sym(name@),
                                    forall|j: int| 0 <= j < k ==> params@[j]@ != name@,
                                decreases i - k,
                            {
                                if params[k] == *name {
                                    assert(!valid_params(parameters@)) by {
                                        assert(params@[k as int]@ == ps[k as int]->Sym_0);
                                    }
                                    return Err(LispError::BadSpecialForm);
                                }
                                k = k + 1;
                            }
                            params.push(name.clone());
                        },
                        _ => {
                            return Err(LispError::BadSpecialForm);
                        },
                    }
                    i = i + 1;
                }
                let func = Function { parameters: params, body, enclosing_frame };
                assert forall|a: int, b: int| 0 <= a < b < ps.len() implies (#[trigger] ps[a])->Sym_0
                    != (#[trigger] ps[b])->Sym_0 by {
                    assert(params@[a]@ == ps[a]->Sym_0);
                    assert(params@[b]@ == ps[b]->Sym_0);
                }
                assert(valid_params(parameters@));
                assert(func.parameters@.map_values(|s: String| s@) =~= param_names(ps));
                Ok(func)
            },
            _ => Err(LispError::BadSpecialForm),
        }
    }
}

/// A function value: one of the interpreter's own, or a closure.
#[derive(Debug, PartialEq)]
pub enum LispFunction {
    BuiltInFunction(BuiltInFunction),
    Function(Function),
}

/// The model of a function value.
pub open spec fn function_view(f: LispFunction) -> Val {
    match f {
        LispFunction::BuiltInFunction(b) => Val::Builtin(b.function),
        LispFunction::Function(c) => Val::Closure(
            c.parameters@.map_values(|s: String| s@),
            c.body@,
            c.enclosing_frame as nat,
        ),
    }
}

/// Deep copy of a function value.
pub fn copy_function(f: &LispFunction) -> (r: LispFunction)
    ensures
        function_view(r) == function_view(*f),
{
    match f {
        LispFunction::BuiltInFunction(b) => LispFunction::BuiltInFunction(
            BuiltInFunction { function: b.function },
        ),
        LispFunction::Function(c) => {
            let mut params: Vec<String> = Vec::new();
            let mut i: usize = 0;
            while i < c.parameters.len()
                invariant
                    i <= c.parameters.len(),
                    params@.len() == i,
                    forall|j: int| 0 <= j < i ==> (#[trigger] params@[j])@ == c.parameters@[j]@,
                decreases c.parameters.len() - i,
            {
                params.push(c.parameters[i].clone());
                i = i + 1;
            }
            let r = Function {
                parameters: params,
                body: copy_expression(&c.body),
                enclosing_frame: c.enclosing_frame,
            };
            assert(r.parameters@.map_values(|s: String| s@) =~= c.parameters@.map_values(
                |s: String| s@,
            ));
            LispFunction::Function(r)
        },
    }
}

impl LispFunctionCall for BuiltInFunction {
    open spec fn callee(&self) -> Val {
        Val::Builtin(self.function)
    }

    fn call(&self, args: Vec<LispOutput>, env: &mut Environment) -> (r: Result<
        LispOutput,
        LispError,
    >) {
        apply_builtin(self.function, args, env, MAX_DEPTH)
    }
}

impl LispFunctionCall for Function {
    open spec fn callee(&self) -> Val {
        function_view(LispFunction::Function(*self))
    }

    fn call(&self, args: Vec<LispOutput>, env: &mut Environment) -> (r: Result<
        LispOutput,
        LispError,
    >) {
        apply_closure(self, args, env, MAX_DEPTH)
    }
}

impl LispFunctionCall for LispFunction {
    open spec fn callee(&self) -> Val {
        function_view(*self)
    }

    fn call(&self, args: Vec<LispOutput>, env: &mut Environment) -> (r: Result<
        LispOutput,
        LispError,
    >) {
        apply_function(self, args, env, MAX_DEPTH)
    }
}

} // verus!
