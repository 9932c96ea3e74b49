use solver::ast::Expression::{Bool, If, Int, Let, Lt, Minus, Plus, Times, Var};
use solver::ast::{Environment, Expression};
use solver::evaluator::{eval, try_eval, EvalError};
use solver::rule::Rule;
use solver::solver::solve;

fn var(name: &str) -> Expression {
    Var(name.to_string())
}

#[test]
fn render_literals() {
    assert_eq!("0", Int(0).render());
    assert_eq!("81", Int(81).render());
    assert_eq!("-23", Int(-23).render());
    assert_eq!("-9223372036854775808", Int(i64::MIN).render());
    assert_eq!("9223372036854775807", Int(i64::MAX).render());
    assert_eq!("true", Bool(true).render());
    assert_eq!("false", Bool(false).render());
    assert_eq!("x", var("x").render());
}

#[test]
fn render_compound_expressions() {
    assert_eq!(
        "((4 + 5) * (1 - 10))",
        Times(
            Box::new(Plus(Box::new(Int(4)), Box::new(Int(5)))),
            Box::new(Minus(Box::new(Int(1)), Box::new(Int(10))))
        )
        .render()
    );
    assert_eq!(
        "(if (4 < 5) then 2 else 8)",
        If(
            Box::new(Lt(Box::new(Int(4)), Box::new(Int(5)))),
            Box::new(Int(2)),
            Box::new(Int(8))
        )
        .render()
    );
    assert_eq!(
        "(let x = 3 in (x + x))",
        Let(
            Box::new(var("x")),
            Box::new(Int(3)),
            Box::new(Plus(Box::new(var("x")), Box::new(var("x"))))
        )
        .render()
    );
}

#[test]
fn render_empty_environment() {
    assert_eq!("", Environment::new().render());
}

#[test]
fn render_full_derivation() {
    let rule = solve(
        &Environment::new(),
        &Plus(Box::new(Int(3)), Box::new(Int(5))),
        0,
    );
    let expected = " |- 3 + 5 evalto 8 by E-Plus {\n     |- 3 evalto 3 by E-Int {};\n     |- 5 evalto 5 by E-Int {};\n    3 plus 5 is 8 by B-Plus {}\n}";
    assert_eq!(expected, rule.render());
}

#[test]
fn render_derivation_with_environment() {
    let mut env = Environment::new();
    env.put(var("x"), Int(3));
    let rule = solve(&env, &var("x"), 0);
    assert_eq!("x = 3 |- x evalto 3 by E-Var1 {}", rule.render());
}

#[test]
fn render_variable_found_deeper() {
    let mut env = Environment::new();
    env.put(var("x"), Int(3));
    env.put(var("y"), Int(2));
    let rule = solve(&env, &var("x"), 0);
    let expected = "x = 3, y = 2 |- x evalto 3 by E-Var2 {\n    x = 3 |- x evalto 3 by E-Var1 {}\n}";
    assert_eq!(expected, rule.render());
}

#[test]
fn shadowing_uses_most_recent_binding() {
    // Environment `x = 3`, expression `let x = x * 2 in x + x`: the body's
    // two `x` references must resolve against the binding the `let`
    // introduced, by E-Var1, not by looking deeper.
    let mut env = Environment::new();
    env.put(var("x"), Int(3));
    let expr = Let(
        Box::new(var("x")),
        Box::new(Times(Box::new(var("x")), Box::new(Int(2)))),
        Box::new(Plus(Box::new(var("x")), Box::new(var("x")))),
    );
    assert_eq!(eval(&env, &expr), Int(12));
    let rule = solve(&env, &expr, 0);
    assert_eq!(rule.evaluated(), Int(12));
    match rule {
        Rule::ELet(_, _, _, _, _, body, _) => match *body {
            Rule::EPlus(_, _, _, left, right, _, _) => {
                assert!(matches!(*left, Rule::EVar1(_, _, _)));
                assert!(matches!(*right, Rule::EVar1(_, _, _)));
            },
            other => panic!("body rule is not E-Plus: {:?}", other),
        },
        other => panic!("root rule is not E-Let: {:?}", other),
    }
}

#[test]
fn conditional_under_environment() {
    // `x = true, y = 4 |- if x then y + 1 else y`: value 5, root E-IfT. The
    // bindings are declared oldest first, so y is the most recent; resolving
    // x therefore looks past y with E-Var2 before E-Var1 finds it.
    let mut env = Environment::new();
    env.put(var("x"), Bool(true));
    env.put(var("y"), Int(4));
    let expr = If(
        Box::new(var("x")),
        Box::new(Plus(Box::new(var("y")), Box::new(Int(1)))),
        Box::new(var("y")),
    );
    assert_eq!(eval(&env, &expr), Int(5));
    let rule = solve(&env, &expr, 0);
    assert_eq!(rule.evaluated(), Int(5));
    match rule {
        Rule::EIfT(_, _, _, _, cond, _, _) => {
            assert!(matches!(*cond, Rule::EVar2(_, _, _, _)));
        },
        other => panic!("root rule is not E-IfT: {:?}", other),
    }
}

#[test]
fn let_scenario_root_rule() {
    // `|- let x = 1 + 2 in x * 4`: value 12, root rule E-Let.
    let expr = Let(
        Box::new(var("x")),
        Box::new(Plus(Box::new(Int(1)), Box::new(Int(2)))),
        Box::new(Times(Box::new(var("x")), Box::new(Int(4)))),
    );
    assert_eq!(eval(&Environment::new(), &expr), Int(12));
    let rule = solve(&Environment::new(), &expr, 0);
    assert_eq!(rule.evaluated(), Int(12));
    assert!(matches!(rule, Rule::ELet(_, _, _, _, _, _, _)));
}

#[test]
fn errors_are_reported() {
    assert_eq!(
        try_eval(&Environment::new(), &var("x")),
        Err(EvalError::UnboundVariable)
    );
    assert_eq!(
        try_eval(
            &Environment::new(),
            &Plus(Box::new(Int(1)), Box::new(Bool(true)))
        ),
        Err(EvalError::TypeMismatch)
    );
    assert_eq!(
        try_eval(
            &Environment::new(),
            &If(Box::new(Int(1)), Box::new(Int(2)), Box::new(Int(3)))
        ),
        Err(EvalError::TypeMismatch)
    );
    assert_eq!(
        try_eval(
            &Environment::new(),
            &Plus(Box::new(Int(i64::MAX)), Box::new(Int(1)))
        ),
        Err(EvalError::Overflow)
    );
    assert_eq!(
        try_eval(
            &Environment::new(),
            &Times(Box::new(Int(i64::MIN)), Box::new(Int(-1)))
        ),
        Err(EvalError::Overflow)
    );
    assert_eq!(
        try_eval(&Environment::new(), &Plus(Box::new(Int(3)), Box::new(Int(5)))),
        Ok(Int(8))
    );
}

#[test]
fn most_recent_and_without_most_recent() {
    let mut env = Environment::new();
    env.put(var("x"), Int(1));
    env.put(var("y"), Int(2));
    let top = env.most_recent();
    assert_eq!(top.0, var("y"));
    assert_eq!(top.1, Int(2));
    let rest = env.without_most_recent();
    assert_eq!("x = 1", rest.render());
    assert_eq!(rest.most_recent().0, var("x"));
}
