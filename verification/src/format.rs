//! Rendering of expressions, environments and derivation trees into the
//! indented textbook notation, with four spaces per depth level and a
//! semicolon after every premise but the last.

use crate::ast::{EnvView, Environment, Expression, ExprView};
use crate::rule::{evaluated_spec, valid_rule, value_defined, Rule, RuleView};
use vstd::pervasive::unreached;
use vstd::prelude::*;
use vstd::string::StringExecFns;

verus! {

/// The decimal digit character for `d` (`d < 10`).
pub open spec fn digit_char(d: nat) -> char {
    if d == 0 {
        '0'
    } else if d == 1 {
        '1'
    } else if d == 2 {
        '2'
    } else if d == 3 {
        '3'
    } else if d == 4 {
        '4'
    } else if d == 5 {
        '5'
    } else if d == 6 {
        '6'
    } else if d == 7 {
        '7'
    } else if d == 8 {
        '8'
    } else {
        '9'
    }
}

/// The decimal digits of `n`, most significant first.
pub open spec fn dec_digits(n: nat) -> Seq<char>
    decreases n,
{
    if n < 10 {
        seq![digit_char(n)]
    } else {
        dec_digits(n / 10).push(digit_char(n % 10))
    }
}

/// The decimal rendering of an integer, with a leading minus sign when it is
/// negative.
pub open spec fn int_text(i: int) -> Seq<char> {
    if i >= 0 {
        dec_digits(i as nat)
    } else {
        seq!['-'] + dec_digits((-i) as nat)
    }
}

/// A rendered numeral has at least one character, two or more from ten up,
/// and starts with a decimal digit, never with a sign.
proof fn lemma_dec_digits_shape(n: nat)
    ensures
        dec_digits(n).len() >= 1,
        n >= 10 ==> dec_digits(n).len() >= 2,
        dec_digits(n)[0] != '-',
    decreases n,
{
    if n >= 10 {
        lemma_dec_digits_shape(n / 10);
    }
}

/// Distinct decimal digits render as distinct characters.
proof fn lemma_digit_char_injective(a: nat, b: nat)
    requires
        a < 10,
        b < 10,
        digit_char(a) == digit_char(b),
    ensures
        a == b,
{
}

/// The rendered digits determine the number.
proof fn lemma_dec_digits_injective(a: nat, b: nat)
    requires
        dec_digits(a) == dec_digits(b),
    ensures
        a == b,
    decreases a,
{
    lemma_dec_digits_shape(a);
    lemma_dec_digits_shape(b);
    if a < 10 && b < 10 {
        lemma_digit_char_injective(a, b);
    } else if a < 10 || b < 10 {
        assert(false);
    } else {
        let da = dec_digits(a / 10);
        let db = dec_digits(b / 10);
        assert(da.push(digit_char(a % 10)) == db.push(digit_char(b % 10)));
        assert(da.len() == db.len());
        assert forall|i: int| 0 <= i < da.len() implies da[i] == db[i] by {
            assert(da.push(digit_char(a % 10))[i] == da[i]);
            assert(db.push(digit_char(b % 10))[i] == db[i]);
        }
        assert(da =~= db);
        assert(digit_char(a % 10) == da.push(digit_char(a % 10))[da.len() as int]);
        assert(digit_char(b % 10) == db.push(digit_char(b % 10))[db.len() as int]);
        lemma_digit_char_injective(a % 10, b % 10);
        lemma_dec_digits_injective(a / 10, b / 10);
        assert(a == 10 * (a / 10) + a % 10);
        assert(b == 10 * (b / 10) + b % 10);
    }
}

/// The rendered numeral determines the integer: re-reading the text of an
/// integer-literal judgment can only yield the literal that was rendered.
pub proof fn lemma_int_text_injective(a: int, b: int)
    requires
        int_text(a) == int_text(b),
    ensures
        a == b,
{
    lemma_dec_digits_shape(if a >= 0 { a as nat } else { (-a) as nat });
    lemma_dec_digits_shape(if b >= 0 { b as nat } else { (-b) as nat });
    if a >= 0 && b >= 0 {
        lemma_dec_digits_injective(a as nat, b as nat);
    } else if a < 0 && b < 0 {
        let ta = seq!['-'] + dec_digits((-a) as nat);
        let tb = seq!['-'] + dec_digits((-b) as nat);
        assert(ta.len() == tb.len());
        assert forall|i: int| 0 <= i < dec_digits((-a) as nat).len() implies #[trigger] dec_digits(
            (-a) as nat,
        )[i] == dec_digits((-b) as nat)[i] by {
            assert(ta[i + 1] == dec_digits((-a) as nat)[i]);
            assert(tb[i + 1] == dec_digits((-b) as nat)[i]);
        }
        assert(dec_digits((-a) as nat) =~= dec_digits((-b) as nat));
        lemma_dec_digits_injective((-a) as nat, (-b) as nat);
    } else if a >= 0 {
        assert(int_text(b)[0] == '-');
        assert(false);
    } else {
        assert(int_text(a)[0] == '-');
        assert(false);
    }
}

/// The rendering of a boolean.
pub open spec fn bool_text(b: bool) -> Seq<char> {
    if b {
        "true"@
    } else {
        "false"@
    }
}

/// The rendered boolean determines the value: re-reading the text of a
/// boolean-literal judgment can only yield the literal that was rendered.
pub proof fn lemma_bool_text_injective(a: bool, b: bool)
    requires
        bool_text(a) == bool_text(b),
    ensures
        a == b,
{
    reveal_strlit("true");
    reveal_strlit("false");
    if a != b {
        assert("true"@.len() == 4);
        assert("false"@.len() == 5);
    }
}

/// The rendering of an expression: literals and variables bare, every
/// compound expression parenthesized.
pub open spec fn expr_text(e: ExprView) -> Seq<char>
    decreases e,
{
    match e {
        ExprView::Int(i) => int_text(i),
        ExprView::Bool(b) => bool_text(b),
        ExprView::If(e1, e2, e3) => "(if "@ + expr_text(*e1) + " then "@ + expr_text(*e2)
            + " else "@ + expr_text(*e3) + ")"@,
        ExprView::Plus(e1, e2) => "("@ + expr_text(*e1) + " + "@ + expr_text(*e2) + ")"@,
        ExprView::Minus(e1, e2) => "("@ + expr_text(*e1) + " - "@ + expr_text(*e2) + ")"@,
        ExprView::Times(e1, e2) => "("@ + expr_text(*e1) + " * "@ + expr_text(*e2) + ")"@,
        ExprView::Lt(e1, e2) => "("@ + expr_text(*e1) + " < "@ + expr_text(*e2) + ")"@,
        ExprView::Let(x, e1, e2) => "(let "@ + expr_text(*x) + " = "@ + expr_text(*e1) + " in "@
            + expr_text(*e2) + ")"@,
        ExprView::Var(s) => s,
    }
}

/// The rendering of one binding, `key = value`.
pub open spec fn binding_text(p: (ExprView, ExprView)) -> Seq<char> {
    expr_text(p.0) + " = "@ + expr_text(p.1)
}

/// The rendering of an environment: bindings oldest first — source
/// declaration order, the reverse of the internal most-recent-first order —
/// joined by commas.
pub open spec fn env_text(env: EnvView) -> Seq<char>
    decreases env.len(),
{
    if env.len() == 0 {
        Seq::empty()
    } else if env.len() == 1 {
        binding_text(env[0])
    } else {
        env_text(env.drop_first()) + ", "@ + binding_text(env[0])
    }
}

/// `d` levels of indentation, four spaces each.
pub open spec fn indent_text(d: nat) -> Seq<char>
    decreases d,
{
    if d == 0 {
        Seq::empty()
    } else {
        indent_text((d - 1) as nat) + "    "@
    }
}

/// The full rendering of a derivation node at its own depth: the judgment
/// line, the premises each on their own lines — a semicolon after every
/// premise but the last — and the closing brace line; leaves render as one
/// line ending in `{}`, with no newline after the final line.
pub open spec fn rule_text(r: RuleView) -> Seq<char>
    decreases r,
{
    match r {
        RuleView::EInt(env, i, d) => indent_text(d) + env_text(env) + " |- "@ + int_text(i)
            + " evalto "@ + int_text(i) + " by E-Int {}"@,
        RuleView::EBool(env, b, d) => indent_text(d) + env_text(env) + " |- "@ + bool_text(b)
            + " evalto "@ + bool_text(b) + " by E-Bool {}"@,
        RuleView::EIfT(env, e1, e2, e3, r1, r2, d) => indent_text(d) + env_text(env) + " |- if "@
            + expr_text(e1) + " then "@ + expr_text(e2) + " else "@ + expr_text(e3) + " evalto "@
            + expr_text(evaluated_spec(*r2)) + " by E-IfT {\n"@ + rule_text(*r1) + ";\n"@
            + rule_text(*r2) + "\n"@ + indent_text(d) + "}"@,
        RuleView::EIfF(env, e1, e2, e3, r1, r2, d) => indent_text(d) + env_text(env) + " |- if "@
            + expr_text(e1) + " then "@ + expr_text(e2) + " else "@ + expr_text(e3) + " evalto "@
            + expr_text(evaluated_spec(*r2)) + " by E-IfF {\n"@ + rule_text(*r1) + ";\n"@
            + rule_text(*r2) + "\n"@ + indent_text(d) + "}"@,
        RuleView::EPlus(env, e1, e2, r1, r2, r3, d) => indent_text(d) + env_text(env) + " |- "@
            + expr_text(e1) + " + "@ + expr_text(e2) + " evalto "@
            + expr_text(evaluated_spec(*r3)) + " by E-Plus {\n"@ + rule_text(*r1) + ";\n"@
            + rule_text(*r2) + ";\n"@ + rule_text(*r3) + "\n"@ + indent_text(d) + "}"@,
        RuleView::EMinus(env, e1, e2, r1, r2, r3, d) => indent_text(d) + env_text(env) + " |- "@
            + expr_text(e1) + " - "@ + expr_text(e2) + " evalto "@
            + expr_text(evaluated_spec(*r3)) + " by E-Minus {\n"@ + rule_text(*r1) + ";\n"@
            + rule_text(*r2) + ";\n"@ + rule_text(*r3) + "\n"@ + indent_text(d) + "}"@,
        RuleView::ETimes(env, e1, e2, r1, r2, r3, d) => indent_text(d) + env_text(env) + " |- "@
            + expr_text(e1) + " * "@ + expr_text(e2) + " evalto "@
            + expr_text(evaluated_spec(*r3)) + " by E-Times {\n"@ + rule_text(*r1) + ";\n"@
            + rule_text(*r2) + ";\n"@ + rule_text(*r3) + "\n"@ + indent_text(d) + "}"@,
        RuleView::ELt(env, e1, e2, r1, r2, r3, d) => indent_text(d) + env_text(env) + " |- "@
            + expr_text(e1) + " < "@ + expr_text(e2) + " evalto "@
            + expr_text(evaluated_spec(*r3)) + " by E-Lt {\n"@ + rule_text(*r1) + ";\n"@
            + rule_text(*r2) + ";\n"@ + rule_text(*r3) + "\n"@ + indent_text(d) + "}"@,
        RuleView::BPlus(a, b, c, d) => indent_text(d) + expr_text(a) + " plus "@ + expr_text(b)
            + " is "@ + expr_text(c) + " by B-Plus {}"@,
        RuleView::BMinus(a, b, c, d) => indent_text(d) + expr_text(a) + " minus "@ + expr_text(b)
            + " is "@ + expr_text(c) + " by B-Minus {}"@,
        RuleView::BTimes(a, b, c, d) => indent_text(d) + expr_text(a) + " times "@ + expr_text(b)
            + " is "@ + expr_text(c) + " by B-Times {}"@,
        RuleView::BLt(a, b, _c, d) => indent_text(d) + expr_text(a) + " is less than "@
            + expr_text(b) + " by B-Lt {}"@,
        RuleView::EVar1(env, x, d) => indent_text(d) + env_text(env) + " |- "@ + expr_text(x)
            + " evalto "@ + expr_text(env[0].1) + " by E-Var1 {}"@,
        RuleView::EVar2(env, x, r1, d) => indent_text(d) + env_text(env) + " |- "@ + expr_text(x)
            + " evalto "@ + expr_text(evaluated_spec(*r1)) + " by E-Var2 {\n"@ + rule_text(*r1)
            + "\n"@ + indent_text(d) + "}"@,
        RuleView::ELet(env, x, e1, e2, r1, r2, d) => indent_text(d) + env_text(env) + " |- let "@
            + expr_text(x) + " = "@ + expr_text(e1) + " in "@ + expr_text(e2) + " evalto "@
            + expr_text(evaluated_spec(*r2)) + " by E-Let {\n"@ + rule_text(*r1) + ";\n"@
            + rule_text(*r2) + "\n"@ + indent_text(d) + "}"@,
    }
}

/// Whether every node of a derivation tree can be rendered: each node's
/// displayed value is defined, every `E-Var1` under a non-empty environment.
pub open spec fn render_ready(r: RuleView) -> bool
    decreases r,
{
    value_defined(r) && match r {
        RuleView::EIfT(_, _, _, _, r1, r2, _) => render_ready(*r1) && render_ready(*r2),
        RuleView::EIfF(_, _, _, _, r1, r2, _) => render_ready(*r1) && render_ready(*r2),
        RuleView::EPlus(_, _, _, r1, r2, r3, _) => render_ready(*r1) && render_ready(*r2)
            && render_ready(*r3),
        RuleView::EMinus(_, _, _, r1, r2, r3, _) => render_ready(*r1) && render_ready(*r2)
            && render_ready(*r3),
        RuleView::ETimes(_, _, _, r1, r2, r3, _) => render_ready(*r1) && render_ready(*r2)
            && render_ready(*r3),
        RuleView::ELt(_, _, _, r1, r2, r3, _) => render_ready(*r1) && render_ready(*r2)
            && render_ready(*r3),
        RuleView::EVar2(_, _, r1, _) => render_ready(*r1),
        RuleView::ELet(_, _, _, _, r1, r2, _) => render_ready(*r1) && render_ready(*r2),
        _ => true,
    }
}

/// A valid derivation tree can always be rendered.
pub proof fn lemma_valid_render_ready(r: RuleView)
    requires
        valid_rule(r),
    ensures
        render_ready(r),
    decreases r,
{
    reveal_with_fuel(value_defined, 2);
    match r {
        RuleView::EIfT(_, _, _, _, r1, r2, _) => {
            lemma_valid_render_ready(*r1);
            lemma_valid_render_ready(*r2);
            lemma_valid_value_defined(*r2);
        },
        RuleView::EIfF(_, _, _, _, r1, r2, _) => {
            lemma_valid_render_ready(*r1);
            lemma_valid_render_ready(*r2);
            lemma_valid_value_defined(*r2);
        },
        RuleView::EPlus(_, _, _, r1, r2, r3, _) => {
            lemma_valid_render_ready(*r1);
            lemma_valid_render_ready(*r2);
            lemma_valid_render_ready(*r3);
        },
        RuleView::EMinus(_, _, _, r1, r2, r3, _) => {
            lemma_valid_render_ready(*r1);
            lemma_valid_render_ready(*r2);
            lemma_valid_render_ready(*r3);
        },
        RuleView::ETimes(_, _, _, r1, r2, r3, _) => {
            lemma_valid_render_ready(*r1);
            lemma_valid_render_ready(*r2);
            lemma_valid_render_ready(*r3);
        },
        RuleView::ELt(_, _, _, r1, r2, r3, _) => {
            lemma_valid_render_ready(*r1);
            lemma_valid_render_ready(*r2);
            lemma_valid_render_ready(*r3);
        },
        RuleView::EVar2(_, _, r1, _) => {
            lemma_valid_render_ready(*r1);
            lemma_valid_value_defined(*r1);
        },
        RuleView::ELet(_, _, _, _, r1, r2, _) => {
            lemma_valid_render_ready(*r1);
            lemma_valid_render_ready(*r2);
            lemma_valid_value_defined(*r2);
        },
        _ => {},
    }
}

/// In a valid derivation tree the displayed value of every node is defined.
pub proof fn lemma_valid_value_defined(r: RuleView)
    requires
        valid_rule(r),
    ensures
        value_defined(r),
    decreases r,
{
    match r {
        RuleView::EIfT(_, _, _, _, _r1, r2, _) => lemma_valid_value_defined(*r2),
        RuleView::EIfF(_, _, _, _, _r1, r2, _) => lemma_valid_value_defined(*r2),
        RuleView::EPlus(_, _, _, _, _, r3, _) => lemma_valid_value_defined(*r3),
        RuleView::EMinus(_, _, _, _, _, r3, _) => lemma_valid_value_defined(*r3),
        RuleView::ETimes(_, _, _, _, _, r3, _) => lemma_valid_value_defined(*r3),
        RuleView::ELt(_, _, _, _, _, r3, _) => lemma_valid_value_defined(*r3),
        RuleView::EVar2(_, _, r1, _) => lemma_valid_value_defined(*r1),
        RuleView::ELet(_, _, _, _, _, r2, _) => lemma_valid_value_defined(*r2),
        _ => {},
    }
}

/// Appends one decimal digit.
fn push_digit(out: &mut String, d: u8)
    requires
        d < 10,
    ensures
        final(out)@ == old(out)@ + seq![digit_char(d as nat)],
{
    proof {
        reveal_strlit("0");
        reveal_strlit("1");
        reveal_strlit("2");
        reveal_strlit("3");
        reveal_strlit("4");
        reveal_strlit("5");
        reveal_strlit("6");
        reveal_strlit("7");
        reveal_strlit("8");
        reveal_strlit("9");
    }
    match d {
        0 => out.append("0"),
        1 => out.append("1"),
        2 => out.append("2"),
        3 => out.append("3"),
        4 => out.append("4"),
        5 => out.append("5"),
        6 => out.append("6"),
        7 => out.append("7"),
        8 => out.append("8"),
        _ => out.append("9"),
    }
    proof {
        assert(final(out)@ =~= old(out)@ + seq![digit_char(d as nat)]);
    }
}

/// Appends the decimal digits of `n`, most significant first.
fn push_u64(out: &mut String, n: u64)
    ensures
        final(out)@ == old(out)@ + dec_digits(n as nat),
    decreases n,
{
    if n < 10 {
        push_digit(out, n as u8);
    } else {
        push_u64(out, n / 10);
        push_digit(out, (n % 10) as u8);
        proof {
            assert(final(out)@ =~= old(out)@ + dec_digits(n as nat));
        }
    }
}

/// Appends the decimal rendering of `i`.
fn push_i64(out: &mut String, i: i64)
    ensures
        final(out)@ == old(out)@ + int_text(i as int),
{
    if i >= 0 {
        push_u64(out, i as u64);
    } else {
        proof {
            reveal_strlit("-");
        }
        out.append("-");
        let m: u64 = ((-(i + 1)) as u64) + 1;
        proof {
            assert(m as nat == (-(i as int)) as nat);
        }
        push_u64(out, m);
        proof {
            assert(final(out)@ =~= old(out)@ + int_text(i as int));
        }
    }
}

/// Appends the rendering of an expression.
fn push_expr(out: &mut String, e: &Expression)
    ensures
        final(out)@ == old(out)@ + expr_text(e@),
    decreases e,
{
    match e {
        Expression::Int(i) => {
            push_i64(out, *i);
        },
        Expression::Bool(b) => {
            if *b {
                out.append("true");
            } else {
                out.append("false");
            }
        },
        Expression::If(e1, e2, e3) => {
            out.append("(if ");
            push_expr(out, e1);
            out.append(" then ");
            push_expr(out, e2);
            out.append(" else ");
            push_expr(out, e3);
            out.append(")");
            proof {
                assert(final(out)@ =~= old(out)@ + expr_text(e@));
            }
        },
        Expression::Plus(e1, e2) => {
            out.append("(");
            push_expr(out, e1);
            out.append(" + ");
            push_expr(out, e2);
            out.append(")");
            proof {
                assert(final(out)@ =~= old(out)@ + expr_text(e@));
            }
        },
        Expression::Minus(e1, e2) => {
            out.append("(");
            push_expr(out, e1);
            out.append(" - ");
            push_expr(out, e2);
            out.append(")");
            proof {
                assert(final(out)@ =~= old(out)@ + expr_text(e@));
            }
        },
        Expression::Times(e1, e2) => {
            out.append("(");
            push_expr(out, e1);
            out.append(" * ");
            push_expr(out, e2);
            out.append(")");
            proof {
                assert(final(out)@ =~= old(out)@ + expr_text(e@));
            }
        },
        Expression::Lt(e1, e2) => {
            out.append("(");
            push_expr(out, e1);
            out.append(" < ");
            push_expr(out, e2);
            out.append(")");
            proof {
                assert(final(out)@ =~= old(out)@ + expr_text(e@));
            }
        },
        Expression::Let(x, e1, e2) => {
            out.append("(let ");
            push_expr(out, x);
            out.append(" = ");
            push_expr(out, e1);
            out.append(" in ");
            push_expr(out, e2);
            out.append(")");
            proof {
                assert(final(out)@ =~= old(out)@ + expr_text(e@));
            }
        },
        Expression::Var(s) => {
            out.append(s.as_str());
        },
    }
}

/// Appends the rendering of an environment, bindings oldest first.
fn push_env(out: &mut String, env: &Environment)
    ensures
        final(out)@ == old(out)@ + env_text(env@),
{
    let n = env.len();
    let mut i = n;
    while i > 0
        invariant
            i <= n,
            n == env@.len(),
            i == n ==> out@ == old(out)@,
            i < n ==> out@ == old(out)@ + env_text(env@.skip(i as int)),
        decreases i,
    {
        let pair = env.binding_at(i - 1);
        if i == n {
            push_expr(out, &pair.0);
            out.append(" = ");
            push_expr(out, &pair.1);
            proof {
                assert(env@.skip(n - 1).len() == 1);
                assert(env@.skip(n - 1)[0] == env@[n - 1]);
                assert(out@ =~= old(out)@ + env_text(env@.skip(n - 1)));
            }
        } else {
            out.append(", ");
            push_expr(out, &pair.0);
            out.append(" = ");
            push_expr(out, &pair.1);
            proof {
                assert(env@.skip(i - 1).len() >= 2);
                assert(env@.skip(i - 1)[0] == env@[i - 1]);
                assert(env@.skip(i - 1).drop_first() =~= env@.skip(i as int));
                assert(out@ =~= old(out)@ + env_text(env@.skip(i - 1)));
            }
        }
        i = i - 1;
    }
    proof {
        if n > 0 {
            assert(env@.skip(0) =~= env@);
        }
        assert(final(out)@ =~= old(out)@ + env_text(env@));
    }
}

/// Appends `d` levels of indentation.
fn push_indent(out: &mut String, d: usize)
    ensures
        final(out)@ == old(out)@ + indent_text(d as nat),
{
    let mut k: usize = 0;
    while k < d
        invariant
            k <= d,
            out@ == old(out)@ + indent_text(k as nat),
        decreases d - k,
    {
        out.append("    ");
        k = k + 1;
    }
}

/// Appends the rendering of an `E-IfT` node.
#[verifier::rlimit(100)]
#[verifier::spinoff_prover]
fn push_eift_rule(out: &mut String, r: &Rule)
    requires
        render_ready(r@),
        r is EIfT,
    ensures
        final(out)@ == old(out)@ + rule_text(r@),
    decreases r, 0int,
{
    match r {
        Rule::EIfT(env, e1, e2, e3, r1, r2, d) => {
            push_indent(out, *d);
            push_env(out, env);
            out.append(" |- if ");
            push_expr(out, e1);
            out.append(" then ");
            push_expr(out, e2);
            out.append(" else ");
            push_expr(out, e3);
            out.append(" evalto ");
            proof {
                assert(out@ =~= old(out)@ + (indent_text(*d as nat) + env_text(env@) + " |- if "@
                    + expr_text(e1@) + " then "@ + expr_text(e2@) + " else "@ + expr_text(e3@)
                    + " evalto "@));
            }
            let v = r2.evaluated();
            push_expr(out, &v);
            out.append(" by E-IfT {\n");
            push_rule(out, r1);
            out.append(";\n");
            push_rule(out, r2);
            out.append("\n");
            proof {
                assert(out@ =~= old(out)@ + (indent_text(*d as nat) + env_text(env@) + " |- if "@
                    + expr_text(e1@) + " then "@ + expr_text(e2@) + " else "@ + expr_text(e3@)
                    + " evalto "@ + expr_text(evaluated_spec(r2@)) + " by E-IfT {\n"@
                    + rule_text(r1@) + ";\n"@ + rule_text(r2@) + "\n"@));
            }
            push_indent(out, *d);
            out.append("}");
            proof {
                assert(final(out)@ =~= old(out)@ + rule_text(r@));
            }
        },
        _ => unreached(),
    }
}

/// Appends the rendering of an `E-IfF` node.
#[verifier::rlimit(100)]
#[verifier::spinoff_prover]
fn push_eiff_rule(out: &mut String, r: &Rule)
    requires
        render_ready(r@),
        r is EIfF,
    ensures
        final(out)@ == old(out)@ + rule_text(r@),
    decreases r, 0int,
{
    match r {
        Rule::EIfF(env, e1, e2, e3, r1, r2, d) => {
            push_indent(out, *d);
            push_env(out, env);
            out.append(" |- if ");
            push_expr(out, e1);
            out.append(" then ");
            push_expr(out, e2);
            out.append(" else ");
            push_expr(out, e3);
            out.append(" evalto ");
            proof {
                assert(out@ =~= old(out)@ + (indent_text(*d as nat) + env_text(env@) + " |- if "@
                    + expr_text(e1@) + " then "@ + expr_text(e2@) + " else "@ + expr_text(e3@)
                    + " evalto "@));
            }
            let v = r2.evaluated();
            push_expr(out, &v);
            out.append(" by E-IfF {\n");
            push_rule(out, r1);
            out.append(";\n");
            push_rule(out, r2);
            out.append("\n");
            proof {
                assert(out@ =~= old(out)@ + (indent_text(*d as nat) + env_text(env@) + " |- if "@
                    + expr_text(e1@) + " then "@ + expr_text(e2@) + " else "@ + expr_text(e3@)
                    + " evalto "@ + expr_text(evaluated_spec(r2@)) + " by E-IfF {\n"@
                    + rule_text(r1@) + ";\n"@ + rule_text(r2@) + "\n"@));
            }
            push_indent(out, *d);
            out.append("}");
            proof {
                assert(final(out)@ =~= old(out)@ + rule_text(r@));
            }
        },
        _ => unreached(),
    }
}

/// Appends the rendering of an `E-Plus` node.
#[verifier::rlimit(100)]
#[verifier::spinoff_prover]
fn push_eplus_rule(out: &mut String, r: &Rule)
    requires
        render_ready(r@),
        r is EPlus,
    ensures
        final(out)@ == old(out)@ + rule_text(r@),
    decreases r, 0int,
{
    match r {
        Rule::EPlus(env, e1, e2, r1, r2, r3, d) => {
            push_indent(out, *d);
            push_env(out, env);
            out.append(" |- ");
            push_expr(out, e1);
            out.append(" + ");
            push_expr(out, e2);
            out.append(" evalto ");
            proof {
                assert(out@ =~= old(out)@ + (indent_text(*d as nat) + env_text(env@) + " |- "@
                    + expr_text(e1@) + " + "@ + expr_text(e2@) + " evalto "@));
            }
            let v = r3.evaluated();
            push_expr(out, &v);
            out.append(" by E-Plus {\n");
            push_rule(out, r1);
            out.append(";\n");
            push_rule(out, r2);
            out.append(";\n");
            push_rule(out, r3);
            out.append("\n");
            proof {
                assert(out@ =~= old(out)@ + (indent_text(*d as nat) + env_text(env@) + " |- "@
                    + expr_text(e1@) + " + "@ + expr_text(e2@) + " evalto "@
                    + expr_text(evaluated_spec(r3@)) + " by E-Plus {\n"@ + rule_text(r1@) + ";\n"@
                    + rule_text(r2@) + ";\n"@ + rule_text(r3@) + "\n"@));
            }
            push_indent(out, *d);
            out.append("}");
            proof {
                assert(final(out)@ =~= old(out)@ + rule_text(r@));
            }
        },
        _ => unreached(),
    }
}

/// Appends the rendering of an `E-Minus` node.
#[verifier::rlimit(100)]
#[verifier::spinoff_prover]
fn push_eminus_rule(out: &mut String, r: &Rule)
    requires
        render_ready(r@),
        r is EMinus,
    ensures
        final(out)@ == old(out)@ + rule_text(r@),
    decreases r, 0int,
{
    match r {
        Rule::EMinus(env, e1, e2, r1, r2, r3, d) => {
            push_indent(out, *d);
            push_env(out, env);
            out.append(" |- ");
            push_expr(out, e1);
            out.append(" - ");
            push_expr(out, e2);
            out.append(" evalto ");
            proof {
                assert(out@ =~= old(out)@ + (indent_text(*d as nat) + env_text(env@) + " |- "@
                    + expr_text(e1@) + " - "@ + expr_text(e2@) + " evalto "@));
            }
            let v = r3.evaluated();
            push_expr(out, &v);
            out.append(" by E-Minus {\n");
            push_rule(out, r1);
            out.append(";\n");
            push_rule(out, r2);
            out.append(";\n");
            push_rule(out, r3);
            out.append("\n");
            proof {
                assert(out@ =~= old(out)@ + (indent_text(*d as nat) + env_text(env@) + " |- "@
                    + expr_text(e1@) + " - "@ + expr_text(e2@) + " evalto "@
                    + expr_text(evaluated_spec(r3@)) + " by E-Minus {\n"@ + rule_text(r1@) + ";\n"@
                    + rule_text(r2@) + ";\n"@ + rule_text(r3@) + "\n"@));
            }
            push_indent(out, *d);
            out.append("}");
            proof {
                assert(final(out)@ =~= old(out)@ + rule_text(r@));
            }
        },
        _ => unreached(),
    }
}

/// Appends the rendering of an `E-Times` node.
#[verifier::rlimit(100)]
#[verifier::spinoff_prover]
fn push_etimes_rule(out: &mut String, r: &Rule)
    requires
        render_ready(r@),
        r is ETimes,
    ensures
        final(out)@ == old(out)@ + rule_text(r@),
    decreases r, 0int,
{
    match r {
        Rule::ETimes(env, e1, e2, r1, r2, r3, d) => {
            push_indent(out, *d);
            push_env(out, env);
            out.append(" |- ");
            push_expr(out, e1);
            out.append(" * ");
            push_expr(out, e2);
            out.append(" evalto ");
            proof {
                assert(out@ =~= old(out)@ + (indent_text(*d as nat) + env_text(env@) + " |- "@
                    + expr_text(e1@) + " * "@ + expr_text(e2@) + " evalto "@));
            }
            let v = r3.evaluated();
            push_expr(out, &v);
            out.append(" by E-Times {\n");
            push_rule(out, r1);
            out.append(";\n");
            push_rule(out, r2);
            out.append(";\n");
            push_rule(out, r3);
            out.append("\n");
            proof {
                assert(out@ =~= old(out)@ + (indent_text(*d as nat) + env_text(env@) + " |- "@
                    + expr_text(e1@) + " * "@ + expr_text(e2@) + " evalto "@
                    + expr_text(evaluated_spec(r3@)) + " by E-Times {\n"@ + rule_text(r1@) + ";\n"@
                    + rule_text(r2@) + ";\n"@ + rule_text(r3@) + "\n"@));
            }
            push_indent(out, *d);
            out.append("}");
            proof {
                assert(final(out)@ =~= old(out)@ + rule_text(r@));
            }
        },
        _ => unreached(),
    }
}

/// Appends the rendering of an `E-Lt` node.
#[verifier::rlimit(100)]
#[verifier::spinoff_prover]
fn push_elt_rule(out: &mut String, r: &Rule)
    requires
        render_ready(r@),
        r is ELt,
    ensures
        final(out)@ == old(out)@ + rule_text(r@),
    decreases r, 0int,
{
    match r {
        Rule::ELt(env, e1, e2, r1, r2, r3, d) => {
            push_indent(out, *d);
            push_env(out, env);
            out.append(" |- ");
            push_expr(out, e1);
            out.append(" < ");
            push_expr(out, e2);
            out.append(" evalto ");
            proof {
                assert(out@ =~= old(out)@ + (indent_text(*d as nat) + env_text(env@) + " |- "@
                    + expr_text(e1@) + " < "@ + expr_text(e2@) + " evalto "@));
            }
            let v = r3.evaluated();
            push_expr(out, &v);
            out.append(" by E-Lt {\n");
            push_rule(out, r1);
            out.append(";\n");
            push_rule(out, r2);
            out.append(";\n");
            push_rule(out, r3);
            out.append("\n");
            proof {
                assert(out@ =~= old(out)@ + (indent_text(*d as nat) + env_text(env@) + " |- "@
                    + expr_text(e1@) + " < "@ + expr_text(e2@) + " evalto "@
                    + expr_text(evaluated_spec(r3@)) + " by E-Lt {\n"@ + rule_text(r1@) + ";\n"@
                    + rule_text(r2@) + ";\n"@ + rule_text(r3@) + "\n"@));
            }
            push_indent(out, *d);
            out.append("}");
            proof {
                assert(final(out)@ =~= old(out)@ + rule_text(r@));
            }
        },
        _ => unreached(),
    }
}

/// Appends the rendering of an `E-Var2` node.
#[verifier::rlimit(100)]
#[verifier::spinoff_prover]
fn push_evar2_rule(out: &mut String, r: &Rule)
    requires
        render_ready(r@),
        r is EVar2,
    ensures
        final(out)@ == old(out)@ + rule_text(r@),
    decreases r, 0int,
{
    match r {
        Rule::EVar2(env, x, r1, d) => {
            push_indent(out, *d);
            push_env(out, env);
            out.append(" |- ");
            push_expr(out, x);
            out.append(" evalto ");
            let v = r1.evaluated();
            push_expr(out, &v);
            out.append(" by E-Var2 {\n");
            push_rule(out, r1);
            out.append("\n");
            push_indent(out, *d);
            out.append("}");
            proof {
                assert(final(out)@ =~= old(out)@ + rule_text(r@));
            }
        },
        _ => unreached(),
    }
}

/// Appends the rendering of an `E-Let` node.
#[verifier::rlimit(100)]
#[verifier::spinoff_prover]
fn push_elet_rule(out: &mut String, r: &Rule)
    requires
        render_ready(r@),
        r is ELet,
    ensures
        final(out)@ == old(out)@ + rule_text(r@),
    decreases r, 0int,
{
    match r {
        Rule::ELet(env, x, e1, e2, r1, r2, d) => {
            push_indent(out, *d);
            push_env(out, env);
            out.append(" |- let ");
            push_expr(out, x);
            out.append(" = ");
            push_expr(out, e1);
            out.append(" in ");
            push_expr(out, e2);
            out.append(" evalto ");
            proof {
                assert(out@ =~= old(out)@ + (indent_text(*d as nat) + env_text(env@) + " |- let "@
                    + expr_text(x@) + " = "@ + expr_text(e1@) + " in "@ + expr_text(e2@)
                    + " evalto "@));
            }
            let v = r2.evaluated();
            push_expr(out, &v);
            out.append(" by E-Let {\n");
            push_rule(out, r1);
            out.append(";\n");
            push_rule(out, r2);
            out.append("\n");
            push_indent(out, *d);
            out.append("}");
            proof {
                assert(final(out)@ =~= old(out)@ + rule_text(r@));
            }
        },
        _ => unreached(),
    }
}

/// Appends the full rendering of a derivation node.
#[verifier::rlimit(100)]
#[verifier::spinoff_prover]
fn push_rule(out: &mut String, r: &Rule)
    requires
        render_ready(r@),
    ensures
        final(out)@ == old(out)@ + rule_text(r@),
    decreases r, 1int,
{
    match r {
        Rule::EInt(env, i, d) => {
            push_indent(out, *d);
            push_env(out, env);
            out.append(" |- ");
            push_i64(out, *i);
            out.append(" evalto ");
            push_i64(out, *i);
            out.append(" by E-Int {}");
            proof {
                assert(final(out)@ =~= old(out)@ + rule_text(r@));
            }
        },
        Rule::EBool(env, b, d) => {
            push_indent(out, *d);
            push_env(out, env);
            out.append(" |- ");
            if *b {
                out.append("true");
            } else {
                out.append("false");
            }
            out.append(" evalto ");
            if *b {
                out.append("true");
            } else {
                out.append("false");
            }
            out.append(" by E-Bool {}");
            proof {
                assert(final(out)@ =~= old(out)@ + rule_text(r@));
            }
        },
        Rule::EIfT(_, _, _, _, _, _, _) => push_eift_rule(out, r),
        Rule::EIfF(_, _, _, _, _, _, _) => push_eiff_rule(out, r),
        Rule::EPlus(_, _, _, _, _, _, _) => push_eplus_rule(out, r),
        Rule::EMinus(_, _, _, _, _, _, _) => push_eminus_rule(out, r),
        Rule::ETimes(_, _, _, _, _, _, _) => push_etimes_rule(out, r),
        Rule::ELt(_, _, _, _, _, _, _) => push_elt_rule(out, r),
        Rule::BPlus(a, b, c, d) => {
            push_indent(out, *d);
            push_expr(out, a);
            out.append(" plus ");
            push_expr(out, b);
            out.append(" is ");
            push_expr(out, c);
            out.append(" by B-Plus {}");
            proof {
                assert(final(out)@ =~= old(out)@ + rule_text(r@));
            }
        },
        Rule::BMinus(a, b, c, d) => {
            push_indent(out, *d);
            push_expr(out, a);
            out.append(" minus ");
            push_expr(out, b);
            out.append(" is ");
            push_expr(out, c);
            out.append(" by B-Minus {}");
            proof {
                assert(final(out)@ =~= old(out)@ + rule_text(r@));
            }
        },
        Rule::BTimes(a, b, c, d) => {
            push_indent(out, *d);
            push_expr(out, a);
            out.append(" times ");
            push_expr(out, b);
            out.append(" is ");
            push_expr(out, c);
            out.append(" by B-Times {}");
            proof {
                assert(final(out)@ =~= old(out)@ + rule_text(r@));
            }
        },
        Rule::BLt(a, b, _c, d) => {
            push_indent(out, *d);
            push_expr(out, a);
            out.append(" is less than ");
            push_expr(out, b);
            out.append(" by B-Lt {}");
            proof {
                assert(final(out)@ =~= old(out)@ + rule_text(r@));
            }
        },
        Rule::EVar1(env, x, d) => {
            push_indent(out, *d);
            push_env(out, env);
            out.append(" |- ");
            push_expr(out, x);
            out.append(" evalto ");
            let v = env.most_recent().1;
            push_expr(out, &v);
            out.append(" by E-Var1 {}");
            proof {
                assert(final(out)@ =~= old(out)@ + rule_text(r@));
            }
        },
        Rule::EVar2(_, _, _, _) => push_evar2_rule(out, r),
        Rule::ELet(_, _, _, _, _, _, _) => push_elet_rule(out, r),
    }
}

impl Expression {
    /// The rendering of this expression: literals and variables bare, every
    /// compound expression parenthesized.
    pub fn render(&self) -> (s: String)
        ensures
            s@ == expr_text(self@),
    {
        let mut out = String::new();
        push_expr(&mut out, self);
        out
    }
}

impl Environment {
    /// The rendering of this environment: `name = value` pairs, oldest
    /// binding first, joined by commas.
    pub fn render(&self) -> (s: String)
        ensures
            s@ == env_text(self@),
    {
        let mut out = String::new();
        push_env(&mut out, self);
        out
    }
}

impl Rule {
    /// The full rendering of this derivation tree, rooted at its own depth:
    /// one judgment per line, premises indented one level deeper, and no
    /// newline after the final line.
    pub fn render(&self) -> (s: String)
        requires
            render_ready(self@),
        ensures
            s@ == rule_text(self@),
    {
        let mut out = String::new();
        push_rule(&mut out, self);
        out
    }
}

} // verus!
