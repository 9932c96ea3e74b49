//! Derivation synthesis: structural recursion parallel to the evaluator that
//! builds, for an expression judged under an environment, the proof tree of
//! the inference rules concluding its value.

use crate::ast::{lookup, EnvView, Environment, Expression, ExprView};
use crate::evaluator::{eval_spec, fits_i64, EvalError};
use crate::rule::{
    concludes, evaluated_spec, valid_rule, value_defined, Rule, RuleView,
};
use vstd::pervasive::unreached;
use vstd::prelude::*;

verus! {

/// The number of nodes of an expression; bounds the depth a derivation can
/// reach below its root.
pub open spec fn expr_size(e: ExprView) -> nat
    decreases e,
{
    match e {
        ExprView::Int(_) => 1,
        ExprView::Bool(_) => 1,
        ExprView::Var(_) => 1,
        ExprView::If(e1, e2, e3) => 1 + expr_size(*e1) + expr_size(*e2) + expr_size(*e3),
        ExprView::Plus(e1, e2) => 1 + expr_size(*e1) + expr_size(*e2),
        ExprView::Minus(e1, e2) => 1 + expr_size(*e1) + expr_size(*e2),
        ExprView::Times(e1, e2) => 1 + expr_size(*e1) + expr_size(*e2),
        ExprView::Lt(e1, e2) => 1 + expr_size(*e1) + expr_size(*e2),
        ExprView::Let(x, e1, e2) => 1 + expr_size(*x) + expr_size(*e1) + expr_size(*e2),
    }
}

/// An expression has at least one node.
pub proof fn lemma_expr_size_pos(e: ExprView)
    ensures
        expr_size(e) >= 1,
{
}

/// The derivation tree for `e` judged under `env`, rooted at rendering depth
/// `d`. Mirrors the evaluator rule by rule; the inference rule applied to a
/// conditional or a variable is chosen from the evaluated guard and from the
/// most recent binding, exactly as the big-step semantics does. Meaningful
/// whenever `eval_spec(env, e)` succeeds.
pub open spec fn solve_spec(env: EnvView, e: ExprView, d: nat) -> RuleView
    decreases e, env.len(),
{
    match e {
        ExprView::Int(i) => RuleView::EInt(env, i, d),
        ExprView::Bool(b) => RuleView::EBool(env, b, d),
        ExprView::If(e1, e2, e3) => {
            let r1 = solve_spec(env, *e1, d + 1);
            if evaluated_spec(r1) == ExprView::Bool(true) {
                RuleView::EIfT(
                    env,
                    *e1,
                    *e2,
                    *e3,
                    Box::new(r1),
                    Box::new(solve_spec(env, *e2, d + 1)),
                    d,
                )
            } else {
                RuleView::EIfF(
                    env,
                    *e1,
                    *e2,
                    *e3,
                    Box::new(r1),
                    Box::new(solve_spec(env, *e3, d + 1)),
                    d,
                )
            }
        },
        ExprView::Plus(e1, e2) => {
            let r1 = solve_spec(env, *e1, d + 1);
            let r2 = solve_spec(env, *e2, d + 1);
            match (evaluated_spec(r1), evaluated_spec(r2)) {
                (ExprView::Int(i1), ExprView::Int(i2)) => RuleView::EPlus(
                    env,
                    *e1,
                    *e2,
                    Box::new(r1),
                    Box::new(r2),
                    Box::new(
                        RuleView::BPlus(
                            ExprView::Int(i1),
                            ExprView::Int(i2),
                            ExprView::Int(i1 + i2),
                            d + 1,
                        ),
                    ),
                    d,
                ),
                _ => RuleView::EInt(env, 0, d),
            }
        },
        ExprView::Minus(e1, e2) => {
            let r1 = solve_spec(env, *e1, d + 1);
            let r2 = solve_spec(env, *e2, d + 1);
            match (evaluated_spec(r1), evaluated_spec(r2)) {
                (ExprView::Int(i1), ExprView::Int(i2)) => RuleView::EMinus(
                    env,
                    *e1,
                    *e2,
                    Box::new(r1),
                    Box::new(r2),
                    Box::new(
                        RuleView::BMinus(
                            ExprView::Int(i1),
                            ExprView::Int(i2),
                            ExprView::Int(i1 - i2),
                            d + 1,
                        ),
                    ),
                    d,
                ),
                _ => RuleView::EInt(env, 0, d),
            }
        },
        ExprView::Times(e1, e2) => {
            let r1 = solve_spec(env, *e1, d + 1);
            let r2 = solve_spec(env, *e2, d + 1);
            match (evaluated_spec(r1), evaluated_spec(r2)) {
                (ExprView::Int(i1), ExprView::Int(i2)) => RuleView::ETimes(
                    env,
                    *e1,
                    *e2,
                    Box::new(r1),
                    Box::new(r2),
                    Box::new(
                        RuleView::BTimes(
                            ExprView::Int(i1),
                            ExprView::Int(i2),
                            ExprView::Int(i1 * i2),
                            d + 1,
                        ),
                    ),
                    d,
                ),
                _ => RuleView::EInt(env, 0, d),
            }
        },
        ExprView::Lt(e1, e2) => {
            let r1 = solve_spec(env, *e1, d + 1);
            let r2 = solve_spec(env, *e2, d + 1);
            match (evaluated_spec(r1), evaluated_spec(r2)) {
                (ExprView::Int(i1), ExprView::Int(i2)) => RuleView::ELt(
                    env,
                    *e1,
                    *e2,
                    Box::new(r1),
                    Box::new(r2),
                    Box::new(
                        RuleView::BLt(
                            ExprView::Int(i1),
                            ExprView::Int(i2),
                            ExprView::Bool(i1 < i2),
                            d + 1,
                        ),
                    ),
                    d,
                ),
                _ => RuleView::EInt(env, 0, d),
            }
        },
        ExprView::Let(x, e1, e2) => {
            let r1 = solve_spec(env, *e1, d + 1);
            let r2 = solve_spec(env.insert(0, (*x, evaluated_spec(r1))), *e2, d + 1);
            RuleView::ELet(env, *x, *e1, *e2, Box::new(r1), Box::new(r2), d)
        },
        ExprView::Var(_) => {
            if env.len() > 0 && env[0].0 == e {
                RuleView::EVar1(env, e, d)
            } else if env.len() > 0 {
                RuleView::EVar2(env, e, Box::new(solve_spec(env.drop_first(), e, d + 1)), d)
            } else {
                RuleView::EVar1(env, e, d)
            }
        },
    }
}

/// Whenever evaluation succeeds, the synthesized derivation is a valid proof
/// tree concluding exactly that judgment: its root judges `e` under `env` at
/// depth `d`, every node is a correct instance of its inference rule, and the
/// root's value is the evaluation result.
pub proof fn lemma_solve_spec_ok(env: EnvView, e: ExprView, d: nat)
    requires
        eval_spec(env, e) is Ok,
    ensures
        valid_rule(solve_spec(env, e, d)),
        concludes(solve_spec(env, e, d), env, e, d),
        value_defined(solve_spec(env, e, d)),
        Ok::<ExprView, EvalError>(evaluated_spec(solve_spec(env, e, d))) == eval_spec(env, e),
    decreases e, env.len(),
{
    match e {
        ExprView::Int(_) => {},
        ExprView::Bool(_) => {},
        ExprView::If(e1, e2, e3) => {
            lemma_solve_spec_ok(env, *e1, d + 1);
            let r1 = solve_spec(env, *e1, d + 1);
            if evaluated_spec(r1) == ExprView::Bool(true) {
                lemma_solve_spec_ok(env, *e2, d + 1);
                let r2 = solve_spec(env, *e2, d + 1);
                assert(solve_spec(env, e, d) == RuleView::EIfT(
                    env,
                    *e1,
                    *e2,
                    *e3,
                    Box::new(r1),
                    Box::new(r2),
                    d,
                ));
            } else {
                lemma_solve_spec_ok(env, *e3, d + 1);
                let r2 = solve_spec(env, *e3, d + 1);
                assert(solve_spec(env, e, d) == RuleView::EIfF(
                    env,
                    *e1,
                    *e2,
                    *e3,
                    Box::new(r1),
                    Box::new(r2),
                    d,
                ));
            }
        },
        ExprView::Plus(e1, e2) => {
            lemma_solve_spec_ok(env, *e1, d + 1);
            lemma_solve_spec_ok(env, *e2, d + 1);
            let r1 = solve_spec(env, *e1, d + 1);
            let r2 = solve_spec(env, *e2, d + 1);
            match (evaluated_spec(r1), evaluated_spec(r2)) {
                (ExprView::Int(i1), ExprView::Int(i2)) => {
                    let r3 = RuleView::BPlus(
                        ExprView::Int(i1),
                        ExprView::Int(i2),
                        ExprView::Int(i1 + i2),
                        d + 1,
                    );
                    assert(evaluated_spec(r3) == ExprView::Int(i1 + i2));
                    assert(value_defined(r3));
                    assert(solve_spec(env, e, d) == RuleView::EPlus(
                        env,
                        *e1,
                        *e2,
                        Box::new(r1),
                        Box::new(r2),
                        Box::new(r3),
                        d,
                    ));
                },
                _ => {
                    assert(false);
                },
            }
        },
        ExprView::Minus(e1, e2) => {
            lemma_solve_spec_ok(env, *e1, d + 1);
            lemma_solve_spec_ok(env, *e2, d + 1);
            let r1 = solve_spec(env, *e1, d + 1);
            let r2 = solve_spec(env, *e2, d + 1);
            match (evaluated_spec(r1), evaluated_spec(r2)) {
                (ExprView::Int(i1), ExprView::Int(i2)) => {
                    let r3 = RuleView::BMinus(
                        ExprView::Int(i1),
                        ExprView::Int(i2),
                        ExprView::Int(i1 - i2),
                        d + 1,
                    );
                    assert(evaluated_spec(r3) == ExprView::Int(i1 - i2));
                    assert(value_defined(r3));
                    assert(solve_spec(env, e, d) == RuleView::EMinus(
                        env,
                        *e1,
                        *e2,
                        Box::new(r1),
                        Box::new(r2),
                        Box::new(r3),
                        d,
                    ));
                },
                _ => {
                    assert(false);
                },
            }
        },
        ExprView::Times(e1, e2) => {
            lemma_solve_spec_ok(env, *e1, d + 1);
            lemma_solve_spec_ok(env, *e2, d + 1);
            let r1 = solve_spec(env, *e1, d + 1);
            let r2 = solve_spec(env, *e2, d + 1);
            match (evaluated_spec(r1), evaluated_spec(r2)) {
                (ExprView::Int(i1), ExprView::Int(i2)) => {
                    let r3 = RuleView::BTimes(
                        ExprView::Int(i1),
                        ExprView::Int(i2),
                        ExprView::Int(i1 * i2),
                        d + 1,
                    );
                    assert(evaluated_spec(r3) == ExprView::Int(i1 * i2));
                    assert(value_defined(r3));
                    assert(solve_spec(env, e, d) == RuleView::ETimes(
                        env,
                        *e1,
                        *e2,
                        Box::new(r1),
                        Box::new(r2),
                        Box::new(r3),
                        d,
                    ));
                },
                _ => {
                    assert(false);
                },
            }
        },
        ExprView::Lt(e1, e2) => {
            lemma_solve_spec_ok(env, *e1, d + 1);
            lemma_solve_spec_ok(env, *e2, d + 1);
            let r1 = solve_spec(env, *e1, d + 1);
            let r2 = solve_spec(env, *e2, d + 1);
            match (evaluated_spec(r1), evaluated_spec(r2)) {
                (ExprView::Int(i1), ExprView::Int(i2)) => {
                    let r3 = RuleView::BLt(
                        ExprView::Int(i1),
                        ExprView::Int(i2),
                        ExprView::Bool(i1 < i2),
                        d + 1,
                    );
                    assert(evaluated_spec(r3) == ExprView::Bool(i1 < i2));
                    assert(value_defined(r3));
                    assert(solve_spec(env, e, d) == RuleView::ELt(
                        env,
                        *e1,
                        *e2,
                        Box::new(r1),
                        Box::new(r2),
                        Box::new(r3),
                        d,
                    ));
                },
                _ => {
                    assert(false);
                },
            }
        },
        ExprView::Let(x, e1, e2) => {
            lemma_solve_spec_ok(env, *e1, d + 1);
            let r1 = solve_spec(env, *e1, d + 1);
            let inner = env.insert(0, (*x, evaluated_spec(r1)));
            lemma_solve_spec_ok(inner, *e2, d + 1);
            let r2 = solve_spec(inner, *e2, d + 1);
            assert(solve_spec(env, e, d) == RuleView::ELet(
                env,
                *x,
                *e1,
                *e2,
                Box::new(r1),
                Box::new(r2),
                d,
            ));
        },
        ExprView::Var(_) => {
            assert(eval_spec(env, e) == match lookup(env, e) {
                Some(v) => Ok::<ExprView, EvalError>(v),
                None => Err::<ExprView, EvalError>(EvalError::UnboundVariable),
            });
            if env.len() > 0 && env[0].0 == e {
                assert(solve_spec(env, e, d) == RuleView::EVar1(env, e, d));
            } else {
                assert(env.len() > 0);
                lemma_solve_spec_ok(env.drop_first(), e, d + 1);
                let r1 = solve_spec(env.drop_first(), e, d + 1);
                assert(solve_spec(env, e, d) == RuleView::EVar2(env, e, Box::new(r1), d));
            }
        },
    }
}

/// The root of the synthesized derivation displays exactly the value the
/// big-step semantics assigns to the expression.
pub proof fn lemma_solve_root_value(env: EnvView, e: ExprView, d: nat)
    requires
        eval_spec(env, e) is Ok,
    ensures
        Ok::<ExprView, EvalError>(evaluated_spec(solve_spec(env, e, d))) == eval_spec(env, e),
{
    lemma_solve_spec_ok(env, e, d);
}

/// Every derivation the builder synthesizes for a successfully evaluating
/// expression is internally consistent: each compound node is a correct
/// instance of its inference rule, its displayed value read off its
/// designated result-bearing premise, recursively down to the leaves.
pub proof fn lemma_solve_valid(env: EnvView, e: ExprView, d: nat)
    requires
        eval_spec(env, e) is Ok,
    ensures
        valid_rule(solve_spec(env, e, d)),
        concludes(solve_spec(env, e, d), env, e, d),
{
    lemma_solve_spec_ok(env, e, d);
}

/// Builds the derivation tree for `expr` judged under `env`, rooted at
/// rendering depth `depth`: exactly the tree the mathematical builder
/// describes, hence — by `lemma_solve_spec_ok` — a valid proof whose root
/// value is the evaluation result.
#[verifier::rlimit(100)]
#[verifier::spinoff_prover]
pub fn solve(env: &Environment, expr: &Expression, depth: usize) -> (r: Rule)
    requires
        eval_spec(env@, expr@) is Ok,
        depth + expr_size(expr@) + env@.len() <= usize::MAX,
    ensures
        r@ == solve_spec(env@, expr@, depth as nat),
    decreases expr, env@.len(),
{
    match expr {
        Expression::Int(i) => Rule::EInt(env.clone(), *i, depth),
        Expression::Bool(b) => Rule::EBool(env.clone(), *b, depth),
        Expression::If(e1, e2, e3) => {
            let r1 = solve(env, e1, depth + 1);
            proof {
                lemma_solve_spec_ok(env@, e1@, (depth + 1) as nat);
            }
            let c = r1.evaluated();
            match c {
                Expression::Bool(true) => {
                    let r2 = solve(env, e2, depth + 1);
                    let node = Rule::EIfT(
                        env.clone(),
                        (**e1).clone(),
                        (**e2).clone(),
                        (**e3).clone(),
                        Box::new(r1),
                        Box::new(r2),
                        depth,
                    );
                    proof {
                        assert(node@ == solve_spec(env@, expr@, depth as nat));
                    }
                    node
                },
                Expression::Bool(false) => {
                    let r2 = solve(env, e3, depth + 1);
                    let node = Rule::EIfF(
                        env.clone(),
                        (**e1).clone(),
                        (**e2).clone(),
                        (**e3).clone(),
                        Box::new(r1),
                        Box::new(r2),
                        depth,
                    );
                    proof {
                        assert(node@ == solve_spec(env@, expr@, depth as nat));
                    }
                    node
                },
                _ => unreached(),
            }
        },
        Expression::Plus(e1, e2) => {
            let r1 = solve(env, e1, depth + 1);
            let r2 = solve(env, e2, depth + 1);
            proof {
                lemma_solve_spec_ok(env@, e1@, (depth + 1) as nat);
                lemma_solve_spec_ok(env@, e2@, (depth + 1) as nat);
            }
            let v1 = r1.evaluated();
            let v2 = r2.evaluated();
            match (v1, v2) {
                (Expression::Int(i1), Expression::Int(i2)) => {
                    proof {
                        assert(fits_i64(i1 as int + i2 as int));
                    }
                    let r3 = Rule::BPlus(
                        Expression::Int(i1),
                        Expression::Int(i2),
                        Expression::Int(i1 + i2),
                        depth + 1,
                    );
                    let node = Rule::EPlus(
                        env.clone(),
                        (**e1).clone(),
                        (**e2).clone(),
                        Box::new(r1),
                        Box::new(r2),
                        Box::new(r3),
                        depth,
                    );
                    proof {
                        let d1 = (depth as nat) + 1;
                        let s1 = solve_spec(env@, e1@, d1);
                        let s2 = solve_spec(env@, e2@, d1);
                        assert(evaluated_spec(s1) == ExprView::Int(i1 as int));
                        assert(evaluated_spec(s2) == ExprView::Int(i2 as int));
                        let b = RuleView::BPlus(
                            ExprView::Int(i1 as int),
                            ExprView::Int(i2 as int),
                            ExprView::Int(i1 as int + i2 as int),
                            d1,
                        );
                        assert(r3@ == b);
                        assert(solve_spec(env@, expr@, depth as nat) == RuleView::EPlus(
                            env@,
                            e1@,
                            e2@,
                            Box::new(s1),
                            Box::new(s2),
                            Box::new(b),
                            depth as nat,
                        ));
                        assert(node@ == solve_spec(env@, expr@, depth as nat));
                    }
                    node
                },
                _ => unreached(),
            }
        },
        Expression::Minus(e1, e2) => {
            let r1 = solve(env, e1, depth + 1);
            let r2 = solve(env, e2, depth + 1);
            proof {
                lemma_solve_spec_ok(env@, e1@, (depth + 1) as nat);
                lemma_solve_spec_ok(env@, e2@, (depth + 1) as nat);
            }
            let v1 = r1.evaluated();
            let v2 = r2.evaluated();
            match (v1, v2) {
                (Expression::Int(i1), Expression::Int(i2)) => {
                    proof {
                        assert(fits_i64(i1 as int - i2 as int));
                    }
                    let r3 = Rule::BMinus(
                        Expression::Int(i1),
                        Expression::Int(i2),
                        Expression::Int(i1 - i2),
                        depth + 1,
                    );
                    let node = Rule::EMinus(
                        env.clone(),
                        (**e1).clone(),
                        (**e2).clone(),
                        Box::new(r1),
                        Box::new(r2),
                        Box::new(r3),
                        depth,
                    );
                    proof {
                        let d1 = (depth as nat) + 1;
                        let s1 = solve_spec(env@, e1@, d1);
                        let s2 = solve_spec(env@, e2@, d1);
                        assert(evaluated_spec(s1) == ExprView::Int(i1 as int));
                        assert(evaluated_spec(s2) == ExprView::Int(i2 as int));
                        let b = RuleView::BMinus(
                            ExprView::Int(i1 as int),
                            ExprView::Int(i2 as int),
                            ExprView::Int(i1 as int - i2 as int),
                            d1,
                        );
                        assert(r3@ == b);
                        assert(solve_spec(env@, expr@, depth as nat) == RuleView::EMinus(
                            env@,
                            e1@,
                            e2@,
                            Box::new(s1),
                            Box::new(s2),
                            Box::new(b),
                            depth as nat,
                        ));
                        assert(node@ == solve_spec(env@, expr@, depth as nat));
                    }
                    node
                },
                _ => unreached(),
            }
        },
        Expression::Times(e1, e2) => {
            let r1 = solve(env, e1, depth + 1);
            let r2 = solve(env, e2, depth + 1);
            proof {
                lemma_solve_spec_ok(env@, e1@, (depth + 1) as nat);
                lemma_solve_spec_ok(env@, e2@, (depth + 1) as nat);
            }
            let v1 = r1.evaluated();
            let v2 = r2.evaluated();
            match (v1, v2) {
                (Expression::Int(i1), Expression::Int(i2)) => {
                    proof {
                        assert(fits_i64(i1 as int * i2 as int));
                    }
                    let r3 = Rule::BTimes(
                        Expression::Int(i1),
                        Expression::Int(i2),
                        Expression::Int(i1 * i2),
                        depth + 1,
                    );
                    let node = Rule::ETimes(
                        env.clone(),
                        (**e1).clone(),
                        (**e2).clone(),
                        Box::new(r1),
                        Box::new(r2),
                        Box::new(r3),
                        depth,
                    );
                    proof {
                        let d1 = (depth as nat) + 1;
                        let s1 = solve_spec(env@, e1@, d1);
                        let s2 = solve_spec(env@, e2@, d1);
                        assert(evaluated_spec(s1) == ExprView::Int(i1 as int));
                        assert(evaluated_spec(s2) == ExprView::Int(i2 as int));
                        let b = RuleView::BTimes(
                            ExprView::Int(i1 as int),
                            ExprView::Int(i2 as int),
                            ExprView::Int(i1 as int * i2 as int),
                            d1,
                        );
                        assert(r3@ == b);
                        assert(solve_spec(env@, expr@, depth as nat) == RuleView::ETimes(
                            env@,
                            e1@,
                            e2@,
                            Box::new(s1),
                            Box::new(s2),
                            Box::new(b),
                            depth as nat,
                        ));
                        assert(node@ == solve_spec(env@, expr@, depth as nat));
                    }
                    node
                },
                _ => unreached(),
            }
        },
        Expression::Lt(e1, e2) => {
            let r1 = solve(env, e1, depth + 1);
            let r2 = solve(env, e2, depth + 1);
            proof {
                lemma_solve_spec_ok(env@, e1@, (depth + 1) as nat);
                lemma_solve_spec_ok(env@, e2@, (depth + 1) as nat);
            }
            let v1 = r1.evaluated();
            let v2 = r2.evaluated();
            match (v1, v2) {
                (Expression::Int(i1), Expression::Int(i2)) => {
                    let r3 = Rule::BLt(
                        Expression::Int(i1),
                        Expression::Int(i2),
                        Expression::Bool(i1 < i2),
                        depth + 1,
                    );
                    let node = Rule::ELt(
                        env.clone(),
                        (**e1).clone(),
                        (**e2).clone(),
                        Box::new(r1),
                        Box::new(r2),
                        Box::new(r3),
                        depth,
                    );
                    proof {
                        let d1 = (depth as nat) + 1;
                        let s1 = solve_spec(env@, e1@, d1);
                        let s2 = solve_spec(env@, e2@, d1);
                        assert(evaluated_spec(s1) == ExprView::Int(i1 as int));
                        assert(evaluated_spec(s2) == ExprView::Int(i2 as int));
                        let b = RuleView::BLt(
                            ExprView::Int(i1 as int),
                            ExprView::Int(i2 as int),
                            ExprView::Bool((i1 as int) < (i2 as int)),
                            d1,
                        );
                        assert(r3@ == b);
                        assert(solve_spec(env@, expr@, depth as nat) == RuleView::ELt(
                            env@,
                            e1@,
                            e2@,
                            Box::new(s1),
                            Box::new(s2),
                            Box::new(b),
                            depth as nat,
                        ));
                        assert(node@ == solve_spec(env@, expr@, depth as nat));
                    }
                    node
                },
                _ => unreached(),
            }
        },
        Expression::Let(x, e1, e2) => {
            let r1 = solve(env, e1, depth + 1);
            proof {
                lemma_solve_spec_ok(env@, e1@, (depth + 1) as nat);
            }
            let v1 = r1.evaluated();
            let mut inner = env.clone();
            inner.put((**x).clone(), v1);
            proof {
                lemma_expr_size_pos(x@);
                let d1 = (depth as nat) + 1;
                let v1s = evaluated_spec(solve_spec(env@, e1@, d1));
                assert(v1@ == v1s);
                assert(inner@ == env@.insert(0, (x@, v1s)));
                assert(eval_spec(inner@, e2@) is Ok);
            }
            let r2 = solve(&inner, e2, depth + 1);
            let node = Rule::ELet(
                env.clone(),
                (**x).clone(),
                (**e1).clone(),
                (**e2).clone(),
                Box::new(r1),
                Box::new(r2),
                depth,
            );
            proof {
                assert(node@ == solve_spec(env@, expr@, depth as nat));
            }
            node
        },
        Expression::Var(_) => {
            if env.len() > 0 {
                let top = env.most_recent();
                if top.0.same_as(expr) {
                    let node = Rule::EVar1(env.clone(), expr.clone(), depth);
                    proof {
                        assert(node@ == solve_spec(env@, expr@, depth as nat));
                    }
                    node
                } else {
                    let rest = env.without_most_recent();
                    let r1 = solve(&rest, expr, depth + 1);
                    let node = Rule::EVar2(env.clone(), expr.clone(), Box::new(r1), depth);
                    proof {
                        assert(node@ == solve_spec(env@, expr@, depth as nat));
                    }
                    node
                }
            } else {
                unreached()
            }
        },
    }
}

} // verus!
