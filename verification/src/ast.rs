//! Abstract syntax of the expression language, and the environment of
//! variable bindings with shadowing.

use vstd::pervasive::unreached;
use vstd::prelude::*;

verus! {

/// Mathematical model of an expression: integers are unbounded and variable
/// names are character sequences. All contracts in this crate speak of this
/// model through the `view` of [`Expression`].
#[verifier::ext_equal]
pub enum ExprView {
    Int(int),
    Bool(bool),
    If(Box<ExprView>, Box<ExprView>, Box<ExprView>),
    Plus(Box<ExprView>, Box<ExprView>),
    Minus(Box<ExprView>, Box<ExprView>),
    Times(Box<ExprView>, Box<ExprView>),
    Lt(Box<ExprView>, Box<ExprView>),
    Let(Box<ExprView>, Box<ExprView>, Box<ExprView>),
    Var(Seq<char>),
}

/// An expression of the language: integer and boolean literals, conditionals,
/// the arithmetic operators `+ - *`, the comparison `<`, variable references,
/// and `let name = bound in body`.
#[derive(Debug, PartialEq)]
pub enum Expression {
    Int(i64),
    Bool(bool),
    If(Box<Expression>, Box<Expression>, Box<Expression>),
    Plus(Box<Expression>, Box<Expression>),
    Minus(Box<Expression>, Box<Expression>),
    Times(Box<Expression>, Box<Expression>),
    Lt(Box<Expression>, Box<Expression>),
    Let(Box<Expression>, Box<Expression>, Box<Expression>),
    Var(String),
}

/// The mathematical model of an expression.
pub open spec fn expr_view(e: Expression) -> ExprView
    decreases e,
{
    match e {
        Expression::Int(i) => ExprView::Int(i as int),
        Expression::Bool(b) => ExprView::Bool(b),
        Expression::If(e1, e2, e3) => ExprView::If(
            Box::new(expr_view(*e1)),
            Box::new(expr_view(*e2)),
            Box::new(expr_view(*e3)),
        ),
        Expression::Plus(e1, e2) => ExprView::Plus(
            Box::new(expr_view(*e1)),
            Box::new(expr_view(*e2)),
        ),
        Expression::Minus(e1, e2) => ExprView::Minus(
            Box::new(expr_view(*e1)),
            Box::new(expr_view(*e2)),
        ),
        Expression::Times(e1, e2) => ExprView::Times(
            Box::new(expr_view(*e1)),
            Box::new(expr_view(*e2)),
        ),
        Expression::Lt(e1, e2) => ExprView::Lt(
            Box::new(expr_view(*e1)),
            Box::new(expr_view(*e2)),
        ),
        Expression::Let(e1, e2, e3) => ExprView::Let(
            Box::new(expr_view(*e1)),
            Box::new(expr_view(*e2)),
            Box::new(expr_view(*e3)),
        ),
        Expression::Var(s) => ExprView::Var(s@),
    }
}

impl View for Expression {
    type V = ExprView;

    open spec fn view(&self) -> ExprView {
        expr_view(*self)
    }
}

impl Clone for Expression {
    fn clone(&self) -> (r: Self)
        ensures
            r@ == self@,
        decreases self,
    {
        match self {
            Expression::Int(i) => Expression::Int(*i),
            Expression::Bool(b) => Expression::Bool(*b),
            Expression::If(e1, e2, e3) => Expression::If(
                Box::new((**e1).clone()),
                Box::new((**e2).clone()),
                Box::new((**e3).clone()),
            ),
            Expression::Plus(e1, e2) => Expression::Plus(
                Box::new((**e1).clone()),
                Box::new((**e2).clone()),
            ),
            Expression::Minus(e1, e2) => Expression::Minus(
                Box::new((**e1).clone()),
                Box::new((**e2).clone()),
            ),
            Expression::Times(e1, e2) => Expression::Times(
                Box::new((**e1).clone()),
                Box::new((**e2).clone()),
            ),
            Expression::Lt(e1, e2) => Expression::Lt(
                Box::new((**e1).clone()),
                Box::new((**e2).clone()),
            ),
            Expression::Let(e1, e2, e3) => Expression::Let(
                Box::new((**e1).clone()),
                Box::new((**e2).clone()),
                Box::new((**e3).clone()),
            ),
            Expression::Var(s) => Expression::Var(s.clone()),
        }
    }
}

impl Expression {
    /// Structural equality of the mathematical models of two expressions.
    pub fn same_as(&self, other: &Expression) -> (r: bool)
        ensures
            r == (self@ == other@),
        decreases self,
    {
        match (self, other) {
            (Expression::Int(i1), Expression::Int(i2)) => *i1 == *i2,
            (Expression::Bool(b1), Expression::Bool(b2)) => *b1 == *b2,
            (Expression::If(a1, b1, c1), Expression::If(a2, b2, c2)) => {
                a1.same_as(a2) && b1.same_as(b2) && c1.same_as(c2)
            },
            (Expression::Plus(a1, b1), Expression::Plus(a2, b2)) => {
                a1.same_as(a2) && b1.same_as(b2)
            },
            (Expression::Minus(a1, b1), Expression::Minus(a2, b2)) => {
                a1.same_as(a2) && b1.same_as(b2)
            },
            (Expression::Times(a1, b1), Expression::Times(a2, b2)) => {
                a1.same_as(a2) && b1.same_as(b2)
            },
            (Expression::Lt(a1, b1), Expression::Lt(a2, b2)) => {
                a1.same_as(a2) && b1.same_as(b2)
            },
            (Expression::Let(a1, b1, c1), Expression::Let(a2, b2, c2)) => {
                a1.same_as(a2) && b1.same_as(b2) && c1.same_as(c2)
            },
            (Expression::Var(s1), Expression::Var(s2)) => *s1 == *s2,
            _ => false,
        }
    }
}

/// Model of an environment: the binding pairs, most recent first.
pub type EnvView = Seq<(ExprView, ExprView)>;

/// Looks a key up in an environment model: the value of the most recent
/// binding whose key equals `key`, or `None` when no binding matches.
pub open spec fn lookup(env: EnvView, key: ExprView) -> Option<ExprView>
    decreases env.len(),
{
    if env.len() == 0 {
        None
    } else if env[0].0 == key {
        Some(env[0].1)
    } else {
        lookup(env.drop_first(), key)
    }
}

/// An ordered chain of `(variable, value)` bindings, most recent first.
/// Several bindings for one name may coexist: lookup resolves to the most
/// recent (shadowing).
#[derive(Debug, PartialEq)]
pub struct Environment(Vec<(Expression, Expression)>);

impl View for Environment {
    type V = EnvView;

    closed spec fn view(&self) -> EnvView {
        self.0@.map_values(|p: (Expression, Expression)| (p.0@, p.1@))
    }
}

impl Clone for Environment {
    fn clone(&self) -> (r: Self)
        ensures
            r@ == self@,
    {
        let mut pairs: Vec<(Expression, Expression)> = Vec::new();
        let mut i: usize = 0;
        while i < self.0.len()
            invariant
                i <= self.0.len(),
                pairs@.len() == i as int,
                forall|j: int| 0 <= j < i ==> #[trigger] pairs@[j].0@ == self.0@[j].0@
                    && pairs@[j].1@ == self.0@[j].1@,
            decreases self.0.len() - i,
        {
            let pair = (self.0[i].0.clone(), self.0[i].1.clone());
            pairs.push(pair);
            i = i + 1;
        }
        let r = Environment(pairs);
        proof {
            assert(r@ =~= self@);
        }
        r
    }
}

impl Environment {
    /// The empty environment: no bindings.
    pub fn new() -> (r: Environment)
        ensures
            r@ == Seq::<(ExprView, ExprView)>::empty(),
    {
        let r = Environment(Vec::new());
        proof {
            assert(r@ =~= Seq::<(ExprView, ExprView)>::empty());
        }
        r
    }

    /// Adds `(key, value)` as the new most recent binding; every prior
    /// binding, same-name ones included, stays beneath it.
    pub fn put(&mut self, key: Expression, value: Expression)
        ensures
            final(self)@ == old(self)@.insert(0, (key@, value@)),
    {
        let ghost before = self@;
        let ghost kv = (key@, value@);
        self.0.insert(0, (key, value));
        proof {
            assert(self@ =~= before.insert(0, kv));
        }
    }

    /// The value of the most recent binding whose key equals `key`, or
    /// `None` when no binding matches.
    pub fn find(&self, key: &Expression) -> (r: Option<Expression>)
        ensures
            match r {
                Some(v) => lookup(self@, key@) == Some(v@),
                None => lookup(self@, key@) is None,
            },
    {
        let mut i: usize = 0;
        proof {
            assert(self@.skip(0) =~= self@);
        }
        while i < self.0.len()
            invariant
                i <= self.0.len(),
                lookup(self@.skip(i as int), key@) == lookup(self@, key@),
            decreases self.0.len() - i,
        {
            proof {
                assert(self@.skip(i as int)[0] == self@[i as int]);
                assert(self@.skip(i as int).drop_first() =~= self@.skip(i as int + 1));
            }
            if self.0[i].0.same_as(key) {
                return Some(self.0[i].1.clone());
            }
            i = i + 1;
        }
        proof {
            assert(self@.skip(i as int).len() == 0);
        }
        None
    }

    /// The value of the most recent binding whose key equals `key`.
    pub fn get(&self, key: &Expression) -> (r: Expression)
        requires
            lookup(self@, key@) is Some,
        ensures
            Some(r@) == lookup(self@, key@),
    {
        match self.find(key) {
            Some(v) => v,
            None => unreached(),
        }
    }

    /// The number of bindings.
    pub fn len(&self) -> (r: usize)
        ensures
            r == self@.len(),
    {
        self.0.len()
    }

    /// The binding at position `i`, counted from the most recent.
    pub fn binding_at(&self, i: usize) -> (r: (Expression, Expression))
        requires
            i < self@.len(),
        ensures
            (r.0@, r.1@) == self@[i as int],
    {
        (self.0[i].0.clone(), self.0[i].1.clone())
    }

    /// The most recent binding, as a `(key, value)` pair.
    pub fn most_recent(&self) -> (r: (Expression, Expression))
        requires
            self@.len() > 0,
        ensures
            (r.0@, r.1@) == self@[0],
    {
        (self.0[0].0.clone(), self.0[0].1.clone())
    }

    /// The environment with the most recent binding removed — used to look
    /// past a non-matching binding during variable resolution.
    pub fn without_most_recent(&self) -> (r: Environment)
        requires
            self@.len() > 0,
        ensures
            r@ == self@.drop_first(),
    {
        let mut r = self.clone();
        let ghost before = r@;
        r.0.remove(0);
        proof {
            assert(r@ =~= before.drop_first());
        }
        r
    }
}

} // verus!
