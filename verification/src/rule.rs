//! Derivation trees: one node per inference-rule instance, carrying the
//! judgment's operands, the sub-derivations that prove its premises, and the
//! depth at which the node is rendered.

use crate::ast::{EnvView, Environment, Expression, ExprView};
use crate::evaluator::fits_i64;
use vstd::prelude::*;

verus! {

/// Mathematical model of a derivation node.
#[verifier::ext_equal]
pub enum RuleView {
    EInt(EnvView, int, nat),
    EBool(EnvView, bool, nat),
    EIfT(EnvView, ExprView, ExprView, ExprView, Box<RuleView>, Box<RuleView>, nat),
    EIfF(EnvView, ExprView, ExprView, ExprView, Box<RuleView>, Box<RuleView>, nat),
    EPlus(EnvView, ExprView, ExprView, Box<RuleView>, Box<RuleView>, Box<RuleView>, nat),
    EMinus(EnvView, ExprView, ExprView, Box<RuleView>, Box<RuleView>, Box<RuleView>, nat),
    ETimes(EnvView, ExprView, ExprView, Box<RuleView>, Box<RuleView>, Box<RuleView>, nat),
    ELt(EnvView, ExprView, ExprView, Box<RuleView>, Box<RuleView>, Box<RuleView>, nat),
    BPlus(ExprView, ExprView, ExprView, nat),
    BMinus(ExprView, ExprView, ExprView, nat),
    BTimes(ExprView, ExprView, ExprView, nat),
    BLt(ExprView, ExprView, ExprView, nat),
    EVar1(EnvView, ExprView, nat),
    EVar2(EnvView, ExprView, Box<RuleView>, nat),
    ELet(EnvView, ExprView, ExprView, ExprView, Box<RuleView>, Box<RuleView>, nat),
}

/// A derivation node. Evaluation judgments (`E-*`) carry the environment they
/// are judged under, the sub-expressions of the judged expression, their
/// sub-derivations, and the rendering depth; primitive-operation judgments
/// (`B-*`) carry two already-evaluated operands and the combined result.
#[derive(Debug, PartialEq)]
pub enum Rule {
    EInt(Environment, i64, usize),
    EBool(Environment, bool, usize),
    EIfT(Environment, Expression, Expression, Expression, Box<Rule>, Box<Rule>, usize),
    EIfF(Environment, Expression, Expression, Expression, Box<Rule>, Box<Rule>, usize),
    EPlus(Environment, Expression, Expression, Box<Rule>, Box<Rule>, Box<Rule>, usize),
    EMinus(Environment, Expression, Expression, Box<Rule>, Box<Rule>, Box<Rule>, usize),
    ETimes(Environment, Expression, Expression, Box<Rule>, Box<Rule>, Box<Rule>, usize),
    ELt(Environment, Expression, Expression, Box<Rule>, Box<Rule>, Box<Rule>, usize),
    BPlus(Expression, Expression, Expression, usize),
    BMinus(Expression, Expression, Expression, usize),
    BTimes(Expression, Expression, Expression, usize),
    BLt(Expression, Expression, Expression, usize),
    EVar1(Environment, Expression, usize),
    EVar2(Environment, Expression, Box<Rule>, usize),
    ELet(Environment, Expression, Expression, Expression, Box<Rule>, Box<Rule>, usize),
}

/// The mathematical model of a derivation node.
pub open spec fn rule_view(r: Rule) -> RuleView
    decreases r,
{
    match r {
        Rule::EInt(env, i, d) => RuleView::EInt(env@, i as int, d as nat),
        Rule::EBool(env, b, d) => RuleView::EBool(env@, b, d as nat),
        Rule::EIfT(env, e1, e2, e3, r1, r2, d) => RuleView::EIfT(
            env@,
            e1@,
            e2@,
            e3@,
            Box::new(rule_view(*r1)),
            Box::new(rule_view(*r2)),
            d as nat,
        ),
        Rule::EIfF(env, e1, e2, e3, r1, r2, d) => RuleView::EIfF(
            env@,
            e1@,
            e2@,
            e3@,
            Box::new(rule_view(*r1)),
            Box::new(rule_view(*r2)),
            d as nat,
        ),
        Rule::EPlus(env, e1, e2, r1, r2, r3, d) => RuleView::EPlus(
            env@,
            e1@,
            e2@,
            Box::new(rule_view(*r1)),
            Box::new(rule_view(*r2)),
            Box::new(rule_view(*r3)),
            d as nat,
        ),
        Rule::EMinus(env, e1, e2, r1, r2, r3, d) => RuleView::EMinus(
            env@,
            e1@,
            e2@,
            Box::new(rule_view(*r1)),
            Box::new(rule_view(*r2)),
            Box::new(rule_view(*r3)),
            d as nat,
        ),
        Rule::ETimes(env, e1, e2, r1, r2, r3, d) => RuleView::ETimes(
            env@,
            e1@,
            e2@,
            Box::new(rule_view(*r1)),
            Box::new(rule_view(*r2)),
            Box::new(rule_view(*r3)),
            d as nat,
        ),
        Rule::ELt(env, e1, e2, r1, r2, r3, d) => RuleView::ELt(
            env@,
            e1@,
            e2@,
            Box::new(rule_view(*r1)),
            Box::new(rule_view(*r2)),
            Box::new(rule_view(*r3)),
            d as nat,
        ),
        Rule::BPlus(e1, e2, e3, d) => RuleView::BPlus(e1@, e2@, e3@, d as nat),
        Rule::BMinus(e1, e2, e3, d) => RuleView::BMinus(e1@, e2@, e3@, d as nat),
        Rule::BTimes(e1, e2, e3, d) => RuleView::BTimes(e1@, e2@, e3@, d as nat),
        Rule::BLt(e1, e2, e3, d) => RuleView::BLt(e1@, e2@, e3@, d as nat),
        Rule::EVar1(env, x, d) => RuleView::EVar1(env@, x@, d as nat),
        Rule::EVar2(env, x, r1, d) => RuleView::EVar2(
            env@,
            x@,
            Box::new(rule_view(*r1)),
            d as nat,
        ),
        Rule::ELet(env, x, e1, e2, r1, r2, d) => RuleView::ELet(
            env@,
            x@,
            e1@,
            e2@,
            Box::new(rule_view(*r1)),
            Box::new(rule_view(*r2)),
            d as nat,
        ),
    }
}

impl View for Rule {
    type V = RuleView;

    open spec fn view(&self) -> RuleView {
        rule_view(*self)
    }
}

/// The value a derivation node's judgment concludes with: a leaf's own value,
/// or — for a compound node — the value of its designated result-bearing
/// premise (the branch taken, the primitive-operation result, the looked-up
/// binding, the `let` body).
pub open spec fn evaluated_spec(r: RuleView) -> ExprView
    decreases r,
{
    match r {
        RuleView::EInt(_, i, _) => ExprView::Int(i),
        RuleView::EBool(_, b, _) => ExprView::Bool(b),
        RuleView::EIfT(_, _, _, _, _, r2, _) => evaluated_spec(*r2),
        RuleView::EIfF(_, _, _, _, _, r2, _) => evaluated_spec(*r2),
        RuleView::EPlus(_, _, _, _, _, r3, _) => evaluated_spec(*r3),
        RuleView::EMinus(_, _, _, _, _, r3, _) => evaluated_spec(*r3),
        RuleView::ETimes(_, _, _, _, _, r3, _) => evaluated_spec(*r3),
        RuleView::ELt(_, _, _, _, _, r3, _) => evaluated_spec(*r3),
        RuleView::BPlus(_, _, e3, _) => e3,
        RuleView::BMinus(_, _, e3, _) => e3,
        RuleView::BTimes(_, _, e3, _) => e3,
        RuleView::BLt(_, _, e3, _) => e3,
        RuleView::EVar1(env, _, _) => env[0].1,
        RuleView::EVar2(_, _, r1, _) => evaluated_spec(*r1),
        RuleView::ELet(_, _, _, _, _, r2, _) => evaluated_spec(*r2),
    }
}

/// Whether the chain of result-bearing premises that `evaluated_spec` walks
/// is defined: every `E-Var1` node along it has at least one binding.
pub open spec fn value_defined(r: RuleView) -> bool
    decreases r,
{
    match r {
        RuleView::EIfT(_, _, _, _, _, r2, _) => value_defined(*r2),
        RuleView::EIfF(_, _, _, _, _, r2, _) => value_defined(*r2),
        RuleView::EPlus(_, _, _, _, _, r3, _) => value_defined(*r3),
        RuleView::EMinus(_, _, _, _, _, r3, _) => value_defined(*r3),
        RuleView::ETimes(_, _, _, _, _, r3, _) => value_defined(*r3),
        RuleView::ELt(_, _, _, _, _, r3, _) => value_defined(*r3),
        RuleView::EVar1(env, _, _) => env.len() > 0,
        RuleView::EVar2(_, _, r1, _) => value_defined(*r1),
        RuleView::ELet(_, _, _, _, _, r2, _) => value_defined(*r2),
        _ => true,
    }
}

/// Whether a node is an evaluation judgment (`E-*`), as opposed to a
/// primitive-operation judgment (`B-*`).
pub open spec fn is_eval_rule(r: RuleView) -> bool {
    match r {
        RuleView::BPlus(_, _, _, _) => false,
        RuleView::BMinus(_, _, _, _) => false,
        RuleView::BTimes(_, _, _, _) => false,
        RuleView::BLt(_, _, _, _) => false,
        _ => true,
    }
}

/// The environment an evaluation judgment is judged under.
pub open spec fn rule_env(r: RuleView) -> EnvView {
    match r {
        RuleView::EInt(env, _, _) => env,
        RuleView::EBool(env, _, _) => env,
        RuleView::EIfT(env, _, _, _, _, _, _) => env,
        RuleView::EIfF(env, _, _, _, _, _, _) => env,
        RuleView::EPlus(env, _, _, _, _, _, _) => env,
        RuleView::EMinus(env, _, _, _, _, _, _) => env,
        RuleView::ETimes(env, _, _, _, _, _, _) => env,
        RuleView::ELt(env, _, _, _, _, _, _) => env,
        RuleView::EVar1(env, _, _) => env,
        RuleView::EVar2(env, _, _, _) => env,
        RuleView::ELet(env, _, _, _, _, _, _) => env,
        _ => Seq::empty(),
    }
}

/// The expression an evaluation judgment is about.
pub open spec fn rule_expr(r: RuleView) -> ExprView {
    match r {
        RuleView::EInt(_, i, _) => ExprView::Int(i),
        RuleView::EBool(_, b, _) => ExprView::Bool(b),
        RuleView::EIfT(_, e1, e2, e3, _, _, _) => ExprView::If(
            Box::new(e1),
            Box::new(e2),
            Box::new(e3),
        ),
        RuleView::EIfF(_, e1, e2, e3, _, _, _) => ExprView::If(
            Box::new(e1),
            Box::new(e2),
            Box::new(e3),
        ),
        RuleView::EPlus(_, e1, e2, _, _, _, _) => ExprView::Plus(Box::new(e1), Box::new(e2)),
        RuleView::EMinus(_, e1, e2, _, _, _, _) => ExprView::Minus(Box::new(e1), Box::new(e2)),
        RuleView::ETimes(_, e1, e2, _, _, _, _) => ExprView::Times(Box::new(e1), Box::new(e2)),
        RuleView::ELt(_, e1, e2, _, _, _, _) => ExprView::Lt(Box::new(e1), Box::new(e2)),
        RuleView::EVar1(_, x, _) => x,
        RuleView::EVar2(_, x, _, _) => x,
        RuleView::ELet(_, x, e1, e2, _, _, _) => ExprView::Let(
            Box::new(x),
            Box::new(e1),
            Box::new(e2),
        ),
        _ => ExprView::Bool(false),
    }
}

/// The depth at which a node is rendered.
pub open spec fn rule_depth(r: RuleView) -> nat {
    match r {
        RuleView::EInt(_, _, d) => d,
        RuleView::EBool(_, _, d) => d,
        RuleView::EIfT(_, _, _, _, _, _, d) => d,
        RuleView::EIfF(_, _, _, _, _, _, d) => d,
        RuleView::EPlus(_, _, _, _, _, _, d) => d,
        RuleView::EMinus(_, _, _, _, _, _, d) => d,
        RuleView::ETimes(_, _, _, _, _, _, d) => d,
        RuleView::ELt(_, _, _, _, _, _, d) => d,
        RuleView::BPlus(_, _, _, d) => d,
        RuleView::BMinus(_, _, _, d) => d,
        RuleView::BTimes(_, _, _, d) => d,
        RuleView::BLt(_, _, _, d) => d,
        RuleView::EVar1(_, _, d) => d,
        RuleView::EVar2(_, _, _, d) => d,
        RuleView::ELet(_, _, _, _, _, _, d) => d,
    }
}

/// Whether `r` is an evaluation judgment concluding that `e` evaluates under
/// `env`, rendered at depth `d` — the shape every premise of a valid compound
/// node must have.
pub open spec fn concludes(r: RuleView, env: EnvView, e: ExprView, d: nat) -> bool {
    &&& is_eval_rule(r)
    &&& rule_env(r) == env
    &&& rule_expr(r) == e
    &&& rule_depth(r) == d
}

/// Internal consistency of a derivation tree: every node is one correct
/// instance of its inference rule. Premises conclude the node's own
/// sub-expressions under the node's own environment, one depth deeper; the
/// guard of `E-IfT`/`E-IfF` concludes the boolean that selects the branch;
/// the primitive-operation premise of an arithmetic or comparison node states
/// exactly the combination of the values its sibling premises conclude;
/// `E-Var1` applies only when the most recent binding matches, `E-Var2` only
/// when it does not; the `let` body is judged under the extended environment.
pub open spec fn valid_rule(r: RuleView) -> bool
    decreases r,
{
    match r {
        RuleView::EInt(_, _, _) => true,
        RuleView::EBool(_, _, _) => true,
        RuleView::EIfT(env, e1, e2, _e3, r1, r2, d) => {
            &&& valid_rule(*r1)
            &&& valid_rule(*r2)
            &&& concludes(*r1, env, e1, d + 1)
            &&& evaluated_spec(*r1) == ExprView::Bool(true)
            &&& concludes(*r2, env, e2, d + 1)
        },
        RuleView::EIfF(env, e1, _e2, e3, r1, r2, d) => {
            &&& valid_rule(*r1)
            &&& valid_rule(*r2)
            &&& concludes(*r1, env, e1, d + 1)
            &&& evaluated_spec(*r1) == ExprView::Bool(false)
            &&& concludes(*r2, env, e3, d + 1)
        },
        RuleView::EPlus(env, e1, e2, r1, r2, r3, d) => {
            &&& valid_rule(*r1)
            &&& valid_rule(*r2)
            &&& concludes(*r1, env, e1, d + 1)
            &&& concludes(*r2, env, e2, d + 1)
            &&& match (evaluated_spec(*r1), evaluated_spec(*r2)) {
                (ExprView::Int(i1), ExprView::Int(i2)) => {
                    &&& fits_i64(i1 + i2)
                    &&& *r3 == RuleView::BPlus(
                        ExprView::Int(i1),
                        ExprView::Int(i2),
                        ExprView::Int(i1 + i2),
                        d + 1,
                    )
                },
                _ => false,
            }
        },
        RuleView::EMinus(env, e1, e2, r1, r2, r3, d) => {
            &&& valid_rule(*r1)
            &&& valid_rule(*r2)
            &&& concludes(*r1, env, e1, d + 1)
            &&& concludes(*r2, env, e2, d + 1)
            &&& match (evaluated_spec(*r1), evaluated_spec(*r2)) {
                (ExprView::Int(i1), ExprView::Int(i2)) => {
                    &&& fits_i64(i1 - i2)
                    &&& *r3 == RuleView::BMinus(
                        ExprView::Int(i1),
                        ExprView::Int(i2),
                        ExprView::Int(i1 - i2),
                        d + 1,
                    )
                },
                _ => false,
            }
        },
        RuleView::ETimes(env, e1, e2, r1, r2, r3, d) => {
            &&& valid_rule(*r1)
            &&& valid_rule(*r2)
            &&& concludes(*r1, env, e1, d + 1)
            &&& concludes(*r2, env, e2, d + 1)
            &&& match (evaluated_spec(*r1), evaluated_spec(*r2)) {
                (ExprView::Int(i1), ExprView::Int(i2)) => {
                    &&& fits_i64(i1 * i2)
                    &&& *r3 == RuleView::BTimes(
                        ExprView::Int(i1),
                        ExprView::Int(i2),
                        ExprView::Int(i1 * i2),
                        d + 1,
                    )
                },
                _ => false,
            }
        },
        RuleView::ELt(env, e1, e2, r1, r2, r3, d) => {
            &&& valid_rule(*r1)
            &&& valid_rule(*r2)
            &&& concludes(*r1, env, e1, d + 1)
            &&& concludes(*r2, env, e2, d + 1)
            &&& match (evaluated_spec(*r1), evaluated_spec(*r2)) {
                (ExprView::Int(i1), ExprView::Int(i2)) => *r3 == RuleView::BLt(
                    ExprView::Int(i1),
                    ExprView::Int(i2),
                    ExprView::Bool(i1 < i2),
                    d + 1,
                ),
                _ => false,
            }
        },
        RuleView::BPlus(a, b, c, _) => match (a, b) {
            (ExprView::Int(i1), ExprView::Int(i2)) => fits_i64(i1 + i2) && c == ExprView::Int(
                i1 + i2,
            ),
            _ => false,
        },
        RuleView::BMinus(a, b, c, _) => match (a, b) {
            (ExprView::Int(i1), ExprView::Int(i2)) => fits_i64(i1 - i2) && c == ExprView::Int(
                i1 - i2,
            ),
            _ => false,
        },
        RuleView::BTimes(a, b, c, _) => match (a, b) {
            (ExprView::Int(i1), ExprView::Int(i2)) => fits_i64(i1 * i2) && c == ExprView::Int(
                i1 * i2,
            ),
            _ => false,
        },
        RuleView::BLt(a, b, c, _) => match (a, b) {
            (ExprView::Int(i1), ExprView::Int(i2)) => c == ExprView::Bool(i1 < i2),
            _ => false,
        },
        RuleView::EVar1(env, x, _) => {
            &&& env.len() > 0
            &&& x is Var
            &&& env[0].0 == x
        },
        RuleView::EVar2(env, x, r1, d) => {
            &&& env.len() > 0
            &&& x is Var
            &&& env[0].0 != x
            &&& valid_rule(*r1)
            &&& concludes(*r1, env.drop_first(), x, d + 1)
        },
        RuleView::ELet(env, x, e1, e2, r1, r2, d) => {
            &&& valid_rule(*r1)
            &&& valid_rule(*r2)
            &&& concludes(*r1, env, e1, d + 1)
            &&& concludes(*r2, env.insert(0, (x, evaluated_spec(*r1))), e2, d + 1)
        },
    }
}

impl Rule {
    /// The value this node's judgment concludes with, read off the node
    /// itself: a leaf's own value, or the value of the designated
    /// result-bearing premise.
    pub fn evaluated(&self) -> (r: Expression)
        requires
            value_defined(self@),
        ensures
            r@ == evaluated_spec(self@),
        decreases self,
    {
        match self {
            Rule::EInt(_, i, _) => Expression::Int(*i),
            Rule::EBool(_, b, _) => Expression::Bool(*b),
            Rule::EIfT(_, _, _, _, _, r2, _) => r2.evaluated(),
            Rule::EIfF(_, _, _, _, _, r2, _) => r2.evaluated(),
            Rule::EPlus(_, _, _, _, _, r3, _) => r3.evaluated(),
            Rule::EMinus(_, _, _, _, _, r3, _) => r3.evaluated(),
            Rule::ETimes(_, _, _, _, _, r3, _) => r3.evaluated(),
            Rule::ELt(_, _, _, _, _, r3, _) => r3.evaluated(),
            Rule::BPlus(_, _, e3, _) => e3.clone(),
            Rule::BMinus(_, _, e3, _) => e3.clone(),
            Rule::BTimes(_, _, e3, _) => e3.clone(),
            Rule::BLt(_, _, e3, _) => e3.clone(),
            Rule::EVar1(env, _, _) => env.most_recent().1,
            Rule::EVar2(_, _, r1, _) => r1.evaluated(),
            Rule::ELet(_, _, _, _, _, r2, _) => r2.evaluated(),
        }
    }
}

/// A valid evaluation judgment is sound: the big-step semantics assigns its
/// expression, under its environment, exactly the value the node concludes
/// with. The derivation tree is internally consistent without re-evaluating
/// the source expression.
pub proof fn lemma_valid_rule_sound(r: RuleView)
    requires
        valid_rule(r),
        is_eval_rule(r),
    ensures
        crate::evaluator::eval_spec(rule_env(r), rule_expr(r)) == Ok::<
            ExprView,
            crate::evaluator::EvalError,
        >(evaluated_spec(r)),
    decreases r,
{
    reveal_with_fuel(evaluated_spec, 3);
    match r {
        RuleView::EIfT(env, e1, e2, _e3, r1, r2, _d) => {
            lemma_valid_rule_sound(*r1);
            lemma_valid_rule_sound(*r2);
        },
        RuleView::EIfF(env, e1, _e2, e3, r1, r2, _d) => {
            lemma_valid_rule_sound(*r1);
            lemma_valid_rule_sound(*r2);
        },
        RuleView::EPlus(env, e1, e2, r1, r2, _r3, _d) => {
            lemma_valid_rule_sound(*r1);
            lemma_valid_rule_sound(*r2);
        },
        RuleView::EMinus(env, e1, e2, r1, r2, _r3, _d) => {
            lemma_valid_rule_sound(*r1);
            lemma_valid_rule_sound(*r2);
        },
        RuleView::ETimes(env, e1, e2, r1, r2, _r3, _d) => {
            lemma_valid_rule_sound(*r1);
            lemma_valid_rule_sound(*r2);
        },
        RuleView::ELt(env, e1, e2, r1, r2, _r3, _d) => {
            lemma_valid_rule_sound(*r1);
            lemma_valid_rule_sound(*r2);
        },
        RuleView::EVar2(env, x, r1, _d) => {
            lemma_valid_rule_sound(*r1);
        },
        RuleView::ELet(env, x, e1, e2, r1, r2, _d) => {
            lemma_valid_rule_sound(*r1);
            lemma_valid_rule_sound(*r2);
        },
        _ => {},
    }
}

} // verus!
