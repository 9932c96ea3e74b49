//! Big-step evaluation of expressions under an environment.

use crate::ast::{lookup, EnvView, Environment, Expression, ExprView};
use vstd::pervasive::unreached;
use vstd::prelude::*;

verus! {

/// A terminal condition met while evaluating: a variable with no matching
/// binding, an operand or guard of the wrong kind, or an arithmetic result
/// outside the machine integer range.
#[derive(Clone, Copy, Debug, PartialEq, Eq)]
pub enum EvalError {
    UnboundVariable,
    TypeMismatch,
    Overflow,
}

/// Whether a mathematical integer fits the machine integers that value
/// literals carry.
pub open spec fn fits_i64(i: int) -> bool {
    i64::MIN <= i <= i64::MAX
}

/// The big-step semantics: what an expression evaluates to under an
/// environment, or on which terminal condition the evaluation stops.
/// Operands are evaluated left before right, the guard before the branch
/// taken, and a `let` bound before its body under the extended environment.
pub open spec fn eval_spec(env: EnvView, e: ExprView) -> Result<ExprView, EvalError>
    decreases e,
{
    match e {
        ExprView::Int(i) => Ok(ExprView::Int(i)),
        ExprView::Bool(b) => Ok(ExprView::Bool(b)),
        ExprView::If(e1, e2, e3) => match eval_spec(env, *e1) {
            Ok(v1) => match v1 {
                ExprView::Bool(b) => if b {
                    eval_spec(env, *e2)
                } else {
                    eval_spec(env, *e3)
                },
                _ => Err(EvalError::TypeMismatch),
            },
            Err(err) => Err(err),
        },
        ExprView::Plus(e1, e2) => match (eval_spec(env, *e1), eval_spec(env, *e2)) {
            (Ok(v1), Ok(v2)) => match (v1, v2) {
                (ExprView::Int(i1), ExprView::Int(i2)) => if fits_i64(i1 + i2) {
                    Ok(ExprView::Int(i1 + i2))
                } else {
                    Err(EvalError::Overflow)
                },
                _ => Err(EvalError::TypeMismatch),
            },
            (Err(err), _) => Err(err),
            (_, Err(err)) => Err(err),
        },
        ExprView::Minus(e1, e2) => match (eval_spec(env, *e1), eval_spec(env, *e2)) {
            (Ok(v1), Ok(v2)) => match (v1, v2) {
                (ExprView::Int(i1), ExprView::Int(i2)) => if fits_i64(i1 - i2) {
                    Ok(ExprView::Int(i1 - i2))
                } else {
                    Err(EvalError::Overflow)
                },
                _ => Err(EvalError::TypeMismatch),
            },
            (Err(err), _) => Err(err),
            (_, Err(err)) => Err(err),
        },
        ExprView::Times(e1, e2) => match (eval_spec(env, *e1), eval_spec(env, *e2)) {
            (Ok(v1), Ok(v2)) => match (v1, v2) {
                (ExprView::Int(i1), ExprView::Int(i2)) => if fits_i64(i1 * i2) {
                    Ok(ExprView::Int(i1 * i2))
                } else {
                    Err(EvalError::Overflow)
                },
                _ => Err(EvalError::TypeMismatch),
            },
            (Err(err), _) => Err(err),
            (_, Err(err)) => Err(err),
        },
        ExprView::Lt(e1, e2) => match (eval_spec(env, *e1), eval_spec(env, *e2)) {
            (Ok(v1), Ok(v2)) => match (v1, v2) {
                (ExprView::Int(i1), ExprView::Int(i2)) => Ok(ExprView::Bool(i1 < i2)),
                _ => Err(EvalError::TypeMismatch),
            },
            (Err(err), _) => Err(err),
            (_, Err(err)) => Err(err),
        },
        ExprView::Let(x, e1, e2) => match eval_spec(env, *e1) {
            Ok(v1) => eval_spec(env.insert(0, (*x, v1)), *e2),
            Err(err) => Err(err),
        },
        ExprView::Var(_) => match lookup(env, e) {
            Some(v) => Ok(v),
            None => Err(EvalError::UnboundVariable),
        },
    }
}

/// Evaluates an expression under an environment, reporting the terminal
/// condition — an unbound variable, an ill-typed operand, an out-of-range
/// result — instead of a value where one arises.
pub fn try_eval(env: &Environment, expr: &Expression) -> (r: Result<Expression, EvalError>)
    ensures
        match r {
            Ok(v) => eval_spec(env@, expr@) == Ok::<ExprView, EvalError>(v@),
            Err(err) => eval_spec(env@, expr@) == Err::<ExprView, EvalError>(err),
        },
    decreases expr,
{
    match expr {
        Expression::Int(i) => Ok(Expression::Int(*i)),
        Expression::Bool(b) => Ok(Expression::Bool(*b)),
        Expression::If(e1, e2, e3) => match try_eval(env, e1) {
            Ok(v1) => match v1 {
                Expression::Bool(b) => if b {
                    try_eval(env, e2)
                } else {
                    try_eval(env, e3)
                },
                _ => Err(EvalError::TypeMismatch),
            },
            Err(err) => Err(err),
        },
        Expression::Plus(e1, e2) => match (try_eval(env, e1), try_eval(env, e2)) {
            (Ok(v1), Ok(v2)) => match (v1, v2) {
                (Expression::Int(i1), Expression::Int(i2)) => match i1.checked_add(i2) {
                    Some(s) => Ok(Expression::Int(s)),
                    None => Err(EvalError::Overflow),
                },
                _ => Err(EvalError::TypeMismatch),
            },
            (Err(err), _) => Err(err),
            (_, Err(err)) => Err(err),
        },
        Expression::Minus(e1, e2) => match (try_eval(env, e1), try_eval(env, e2)) {
            (Ok(v1), Ok(v2)) => match (v1, v2) {
                (Expression::Int(i1), Expression::Int(i2)) => match i1.checked_sub(i2) {
                    Some(s) => Ok(Expression::Int(s)),
                    None => Err(EvalError::Overflow),
                },
                _ => Err(EvalError::TypeMismatch),
            },
            (Err(err), _) => Err(err),
            (_, Err(err)) => Err(err),
        },
        Expression::Times(e1, e2) => match (try_eval(env, e1), try_eval(env, e2)) {
            (Ok(v1), Ok(v2)) => match (v1, v2) {
                (Expression::Int(i1), Expression::Int(i2)) => match i1.checked_mul(i2) {
                    Some(s) => Ok(Expression::Int(s)),
                    None => Err(EvalError::Overflow),
                },
                _ => Err(EvalError::TypeMismatch),
            },
            (Err(err), _) => Err(err),
            (_, Err(err)) => Err(err),
        },
        Expression::Lt(e1, e2) => match (try_eval(env, e1), try_eval(env, e2)) {
            (Ok(v1), Ok(v2)) => match (v1, v2) {
                (Expression::Int(i1), Expression::Int(i2)) => Ok(Expression::Bool(i1 < i2)),
                _ => Err(EvalError::TypeMismatch),
            },
            (Err(err), _) => Err(err),
            (_, Err(err)) => Err(err),
        },
        Expression::Let(x, e1, e2) => match try_eval(env, e1) {
            Ok(v1) => {
                let mut inner = env.clone();
                inner.put((**x).clone(), v1);
                try_eval(&inner, e2)
            },
            Err(err) => Err(err),
        },
        Expression::Var(_) => match env.find(expr) {
            Some(v) => Ok(v),
            None => Err(EvalError::UnboundVariable),
        },
    }
}

/// Evaluates an expression under an environment. Pure structural recursion:
/// the result is exactly the value that the big-step semantics assigns.
pub fn eval(env: &Environment, expr: &Expression) -> (r: Expression)
    requires
        eval_spec(env@, expr@) is Ok,
    ensures
        Ok::<ExprView, EvalError>(r@) == eval_spec(env@, expr@),
{
    match try_eval(env, expr) {
        Ok(v) => v,
        Err(_) => unreached(),
    }
}

} // verus!
