use solver::ast::Environment;
use solver::ast::Expression::{Bool, If, Int, Let, Lt, Minus, Plus, Times, Var};
use solver::evaluator::eval;

#[test]
fn test_environment() {
    let mut environment = Environment::new();
    environment.put(Var("x".to_string()), Int(1));
    environment.put(Var("y".to_string()), Int(2));
    environment.put(Var("x".to_string()), Int(3));
    assert_eq!("x = 1, y = 2, x = 3", environment.render());
    assert_eq!(Int(3), environment.get(&Var("x".to_string())));
    assert_eq!(Int(2), environment.get(&Var("y".to_string())));
}

#[test]
fn test_eval1() {
    assert_eq!(
        eval(&Environment::new(), &Plus(Box::new(Int(3)), Box::new(Int(5)))),
        Int(8)
    );
}

#[test]
fn test_eval2() {
    assert_eq!(
        eval(
            &Environment::new(),
            &Minus(
                Box::new(Minus(Box::new(Int(8)), Box::new(Int(2)))),
                Box::new(Int(3))
            )
        ),
        Int(3)
    );
}

#[test]
fn test_eval3() {
    assert_eq!(
        eval(
            &Environment::new(),
            &Times(
                Box::new(Plus(Box::new(Int(4)), Box::new(Int(5)))),
                Box::new(Minus(Box::new(Int(1)), Box::new(Int(10))))
            )
        ),
        Int(-81)
    );
}

#[test]
fn test_eval4() {
    assert_eq!(
        eval(
            &Environment::new(),
            &If(
                Box::new(Lt(Box::new(Int(4)), Box::new(Int(5)))),
                Box::new(Plus(Box::new(Int(2)), Box::new(Int(3)))),
                Box::new(Times(Box::new(Int(8)), Box::new(Int(8))))
            )
        ),
        Int(5)
    );
}

#[test]
fn test_eval5() {
    assert_eq!(
        eval(
            &Environment::new(),
            &Plus(
                Box::new(Int(3)),
                Box::new(If(
                    Box::new(Lt(
                        Box::new(Int(-23)),
                        Box::new(Times(Box::new(Int(-2)), Box::new(Int(8))))
                    )),
                    Box::new(Int(8)),
                    Box::new(Plus(Box::new(Int(2)), Box::new(Int(4))))
                ))
            )
        ),
        Int(11)
    );
}

#[test]
fn test_eval6() {
    assert_eq!(
        eval(
            &Environment::new(),
            &Plus(
                Box::new(Plus(
                    Box::new(Int(3)),
                    Box::new(If(
                        Box::new(Lt(
                            Box::new(Int(-23)),
                            Box::new(Times(Box::new(Int(-2)), Box::new(Int(8))))
                        )),
                        Box::new(Int(8)),
                        Box::new(Int(2))
                    ))
                )),
                Box::new(Int(4))
            )
        ),
        Int(15)
    );
}

#[test]
fn test_eval7() {
    let mut env = Environment::new();
    env.put(Var("x".to_string()), Int(3));
    env.put(Var("y".to_string()), Int(2));
    assert_eq!(eval(&env, &Var("x".to_string())), Int(3));
}

#[test]
fn test_eval8() {
    let mut env = Environment::new();
    env.put(Var("x".to_string()), Bool(true));
    env.put(Var("y".to_string()), Int(4));
    assert_eq!(
        eval(
            &env,
            &If(
                Box::new(Var("x".to_string())),
                Box::new(Plus(Box::new(Var("y".to_string())), Box::new(Int(1)))),
                Box::new(Var("y".to_string()))
            )
        ),
        Int(5)
    );
}

#[test]
fn test_eval9() {
    assert_eq!(
        eval(
            &Environment::new(),
            &Let(
                Box::new(Var("x".to_string())),
                Box::new(Plus(Box::new(Int(1)), Box::new(Int(2)))),
                Box::new(Times(Box::new(Var("x".to_string())), Box::new(Int(4))))
            )
        ),
        Int(12)
    );
}

#[test]
fn test_eval10() {
    assert_eq!(
        eval(
            &Environment::new(),
            &Let(
                Box::new(Var("x".to_string())),
                Box::new(Times(Box::new(Int(3)), Box::new(Int(3)))),
                Box::new(Let(
                    Box::new(Var("y".to_string())),
                    Box::new(Times(Box::new(Int(4)), Box::new(Var("x".to_string())))),
                    Box::new(Plus(
                        Box::new(Var("x".to_string())),
                        Box::new(Var("y".to_string()))
                    ))
                ))
            )
        ),
        Int(45)
    );
}

#[test]
fn test_eval11() {
    let mut env = Environment::new();
    env.put(Var("x".to_string()), Int(3));
    assert_eq!(
        eval(
            &env,
            &Let(
                Box::new(Var("x".to_string())),
                Box::new(Times(Box::new(Var("x".to_string())), Box::new(Int(2)))),
                Box::new(Plus(
                    Box::new(Var("x".to_string())),
                    Box::new(Var("x".to_string()))
                )),
            )
        ),
        Int(12)
    );
}
