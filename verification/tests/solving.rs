use solver::ast::Environment;
use solver::ast::Expression::{Bool, If, Int, Lt, Minus, Plus, Times};
use solver::rule::Rule::{BLt, BMinus, BPlus, BTimes, EIfT, EInt, ELt, EMinus, EPlus, ETimes};
use solver::solver::solve;

#[test]
fn test_solve1() {
    assert_eq!(
        solve(
            &Environment::new(),
            &Plus(Box::new(Int(3)), Box::new(Int(5))),
            0
        ),
        EPlus(
            Environment::new(),
            Int(3),
            Int(5),
            Box::new(EInt(Environment::new(), 3, 1)),
            Box::new(EInt(Environment::new(), 5, 1)),
            Box::new(BPlus(Int(3), Int(5), Int(8), 1)),
            0
        )
    );
}

#[test]
fn test_solve2() {
    assert_eq!(
        solve(
            &Environment::new(),
            &Minus(
                Box::new(Minus(Box::new(Int(8)), Box::new(Int(2)))),
                Box::new(Int(3))
            ),
            0
        ),
        EMinus(
            Environment::new(),
            Minus(Box::new(Int(8)), Box::new(Int(2))),
            Int(3),
            Box::new(EMinus(
                Environment::new(),
                Int(8),
                Int(2),
                Box::new(EInt(Environment::new(), 8, 2)),
                Box::new(EInt(Environment::new(), 2, 2)),
                Box::new(BMinus(Int(8), Int(2), Int(6), 2)),
                1
            )),
            Box::new(EInt(Environment::new(), 3, 1)),
            Box::new(BMinus(Int(6), Int(3), Int(3), 1)),
            0
        )
    );
}

#[test]
fn test_solve3() {
    assert_eq!(
        solve(
            &Environment::new(),
            &Times(
                Box::new(Plus(Box::new(Int(4)), Box::new(Int(5)))),
                Box::new(Minus(Box::new(Int(1)), Box::new(Int(10))))
            ),
            0
        ),
        ETimes(
            Environment::new(),
            Plus(Box::new(Int(4)), Box::new(Int(5))),
            Minus(Box::new(Int(1)), Box::new(Int(10))),
            Box::new(EPlus(
                Environment::new(),
                Int(4),
                Int(5),
                Box::new(EInt(Environment::new(), 4, 2)),
                Box::new(EInt(Environment::new(), 5, 2)),
                Box::new(BPlus(Int(4), Int(5), Int(9), 2)),
                1
            )),
            Box::new(EMinus(
                Environment::new(),
                Int(1),
                Int(10),
                Box::new(EInt(Environment::new(), 1, 2)),
                Box::new(EInt(Environment::new(), 10, 2)),
                Box::new(BMinus(Int(1), Int(10), Int(-9), 2)),
                1
            )),
            Box::new(BTimes(Int(9), Int(-9), Int(-81), 1)),
            0
        )
    );
}

#[test]
fn test_solve4() {
    assert_eq!(
        solve(
            &Environment::new(),
            &If(
                Box::new(Lt(Box::new(Int(4)), Box::new(Int(5)))),
                Box::new(Plus(Box::new(Int(2)), Box::new(Int(3)))),
                Box::new(Times(Box::new(Int(8)), Box::new(Int(8))))
            ),
            0
        ),
        EIfT(
            Environment::new(),
            Lt(Box::new(Int(4)), Box::new(Int(5))),
            Plus(Box::new(Int(2)), Box::new(Int(3))),
            Times(Box::new(Int(8)), Box::new(Int(8))),
            Box::new(ELt(
                Environment::new(),
                Int(4),
                Int(5),
                Box::new(EInt(Environment::new(), 4, 2)),
                Box::new(EInt(Environment::new(), 5, 2)),
                Box::new(BLt(Int(4), Int(5), Bool(true), 2)),
                1
            )),
            Box::new(EPlus(
                Environment::new(),
                Int(2),
                Int(3),
                Box::new(EInt(Environment::new(), 2, 2)),
                Box::new(EInt(Environment::new(), 3, 2)),
                Box::new(BPlus(Int(2), Int(3), Int(5), 2)),
                1
            )),
            0
        )
    );
}

#[test]
fn test_solve5() {
    assert_eq!(
        solve(
            &Environment::new(),
            &Plus(
                Box::new(Int(3)),
                Box::new(If(
                    Box::new(Lt(
                        Box::new(Int(-23)),
                        Box::new(Times(Box::new(Int(-2)), Box::new(Int(8))))
                    )),
                    Box::new(Int(8)),
                    Box::new(Plus(Box::new(Int(2)), Box::new(Int(4))))
                ))
            ),
            0
        ),
        EPlus(
            Environment::new(),
            Int(3),
            If(
                Box::new(Lt(
                    Box::new(Int(-23)),
                    Box::new(Times(Box::new(Int(-2)), Box::new(Int(8))))
                )),
                Box::new(Int(8)),
                Box::new(Plus(Box::new(Int(2)), Box::new(Int(4))))
            ),
            Box::new(EInt(Environment::new(), 3, 1)),
            Box::new(EIfT(
                Environment::new(),
                Lt(
                    Box::new(Int(-23)),
                    Box::new(Times(Box::new(Int(-2)), Box::new(Int(8))))
                ),
                Int(8),
                Plus(Box::new(Int(2)), Box::new(Int(4))),
                Box::new(ELt(
                    Environment::new(),
                    Int(-23),
                    Times(Box::new(Int(-2)), Box::new(Int(8))),
                    Box::new(EInt(Environment::new(), -23, 3)),
                    Box::new(ETimes(
                        Environment::new(),
                        Int(-2),
                        Int(8),
                        Box::new(EInt(Environment::new(), -2, 4)),
                        Box::new(EInt(Environment::new(), 8, 4)),
                        Box::new(BTimes(Int(-2), Int(8), Int(-16), 4)),
                        3
                    )),
                    Box::new(BLt(Int(-23), Int(-16), Bool(true), 3)),
                    2
                )),
                Box::new(EInt(Environment::new(), 8, 2)),
                1
            )),
            Box::new(BPlus(Int(3), Int(8), Int(11), 1)),
            0
        )
    );
}

#[test]
fn test_solve6() {
    assert_eq!(
        solve(
            &Environment::new(),
            &Plus(
                Box::new(Plus(
                    Box::new(Int(3)),
                    Box::new(If(
                        Box::new(Lt(
                            Box::new(Int(-23)),
                            Box::new(Times(Box::new(Int(-2)), Box::new(Int(8))))
                        )),
                        Box::new(Int(8)),
                        Box::new(Int(2))
                    ))
                )),
                Box::new(Int(4))
            ),
            0
        ),
        EPlus(
            Environment::new(),
            Plus(
                Box::new(Int(3)),
                Box::new(If(
                    Box::new(Lt(
                        Box::new(Int(-23)),
                        Box::new(Times(Box::new(Int(-2)), Box::new(Int(8))))
                    )),
                    Box::new(Int(8)),
                    Box::new(Int(2))
                ))
            ),
            Int(4),
            Box::new(EPlus(
                Environment::new(),
                Int(3),
                If(
                    Box::new(Lt(
                        Box::new(Int(-23)),
                        Box::new(Times(Box::new(Int(-2)), Box::new(Int(8))))
                    )),
                    Box::new(Int(8)),
                    Box::new(Int(2))
                ),
                Box::new(EInt(Environment::new(), 3, 2)),
                Box::new(EIfT(
                    Environment::new(),
                    Lt(
                        Box::new(Int(-23)),
                        Box::new(Times(Box::new(Int(-2)), Box::new(Int(8))))
                    ),
                    Int(8),
                    Int(2),
                    Box::new(ELt(
                        Environment::new(),
                        Int(-23),
                        Times(Box::new(Int(-2)), Box::new(Int(8))),
                        Box::new(EInt(Environment::new(), -23, 4)),
                        Box::new(ETimes(
                            Environment::new(),
                            Int(-2),
                            Int(8),
                            Box::new(EInt(Environment::new(), -2, 5)),
                            Box::new(EInt(Environment::new(), 8, 5)),
                            Box::new(BTimes(Int(-2), Int(8), Int(-16), 5)),
                            4
                        )),
                        Box::new(BLt(Int(-23), Int(-16), Bool(true), 4)),
                        3
                    )),
                    Box::new(EInt(Environment::new(), 8, 3)),
                    2
                )),
                Box::new(BPlus(Int(3), Int(8), Int(11), 2)),
                1
            )),
            Box::new(EInt(Environment::new(), 4, 1)),
            Box::new(BPlus(Int(11), Int(4), Int(15), 1)),
            0
        )
    );
}
