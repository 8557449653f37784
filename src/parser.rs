use crate::expr::{term, CmpOp, Expr, Term};
use vstd::prelude::*;
use vstd::string::*;

verus! {

// ---------------------------------------------------------------------------
// The grammar, as functions from a position to a parsed term and the position
// after it.
//
//   rule    := expr <end>
//   expr    := sum (cmp_op sum)*            folded to the left
//   sum     := product (("+" | "-") product)*
//   product := unary ("*" unary)*
//   unary   := "-"* atom
//   atom    := int | "(" expr ")" | ident
//
// Every token (integers, identifiers, operators and parentheses) may have
// white space on both sides. Each alternative is tried in order and the first
// that succeeds is kept; a repetition takes as many rounds as succeed in full.
// ---------------------------------------------------------------------------

/// Unicode white space.
pub open spec fn is_space(c: char) -> bool {
    let u = c as u32;
    u == 0x20 || (0x09 <= u && u <= 0x0D) || u == 0x85 || u == 0xA0 || u == 0x1680 || (0x2000
        <= u && u <= 0x200A) || u == 0x2028 || u == 0x2029 || u == 0x202F || u == 0x205F || u
        == 0x3000
}

pub open spec fn is_digit(c: char) -> bool {
    0x30 <= (c as u32) && (c as u32) <= 0x39
}

pub open spec fn is_ident_start(c: char) -> bool {
    let u = c as u32;
    (0x41 <= u && u <= 0x5A) || (0x61 <= u && u <= 0x7A) || u == 0x5F
}

pub open spec fn is_ident_char(c: char) -> bool {
    is_ident_start(c) || is_digit(c)
}

pub open spec fn digit_value(c: char) -> int {
    (c as u32) as int - 0x30
}

/// The first position at or after `i` that holds no white space.
pub open spec fn skip_space(s: Seq<char>, i: nat) -> nat
    decreases s.len() - i,
{
    if i < s.len() && is_space(s[i as int]) {
        skip_space(s, i + 1)
    } else {
        i
    }
}

/// The end of the run of digits that starts at `i`.
pub open spec fn digits_end(s: Seq<char>, i: nat) -> nat
    decreases s.len() - i,
{
    if i < s.len() && is_digit(s[i as int]) {
        digits_end(s, i + 1)
    } else {
        i
    }
}

/// The end of the run of identifier characters that starts at `i`.
pub open spec fn ident_end(s: Seq<char>, i: nat) -> nat
    decreases s.len() - i,
{
    if i < s.len() && is_ident_char(s[i as int]) {
        ident_end(s, i + 1)
    } else {
        i
    }
}

/// The number written in base 10 by the digits of `s` from `a` up to `e`.
pub open spec fn digits_value(s: Seq<char>, a: int, e: int) -> int
    decreases e - a,
{
    if e <= a {
        0
    } else {
        10 * digits_value(s, a, e - 1) + digit_value(s[e - 1])
    }
}

/// An integer literal: "0", or a non-zero digit followed by digits. A literal
/// too large for `isize` does not parse.
pub open spec fn p_int(s: Seq<char>, i: nat) -> Option<(Term, nat)> {
    let a = skip_space(s, i);
    if a < s.len() && is_digit(s[a as int]) {
        let e = if s[a as int] == '0' {
            a + 1
        } else {
            digits_end(s, a + 1)
        };
        let v = digits_value(s, a as int, e as int);
        if v <= isize::MAX {
            Some((Term::Num(v as isize), skip_space(s, e)))
        } else {
            None
        }
    } else {
        None
    }
}

/// An identifier: an ASCII letter or `_`, then ASCII letters, digits or `_`.
pub open spec fn p_ident(s: Seq<char>, i: nat) -> Option<(Term, nat)> {
    let a = skip_space(s, i);
    if a < s.len() && is_ident_start(s[a as int]) {
        let e = ident_end(s, a + 1);
        Some((Term::Var(s.subrange(a as int, e as int)), skip_space(s, e)))
    } else {
        None
    }
}

/// The character `c` with white space allowed on both sides.
pub open spec fn padded_char(s: Seq<char>, i: nat, c: char) -> Option<nat> {
    let a = skip_space(s, i);
    if a < s.len() && s[a as int] == c {
        Some(skip_space(s, a + 1))
    } else {
        None
    }
}

/// A comparison operator that starts right at `i`.
pub open spec fn cmp_op_at(s: Seq<char>, i: nat) -> Option<(CmpOp, nat)> {
    let two = i + 1 < s.len();
    if two && s[i as int] == '=' && s[i + 1int] == '=' {
        Some((CmpOp::Eq, i + 2))
    } else if two && s[i as int] == '!' && s[i + 1int] == '=' {
        Some((CmpOp::NotEq, i + 2))
    } else if two && s[i as int] == '<' && s[i + 1int] == '=' {
        Some((CmpOp::LE, i + 2))
    } else if i < s.len() && s[i as int] == '<' {
        Some((CmpOp::LT, i + 1))
    } else if two && s[i as int] == '>' && s[i + 1int] == '=' {
        Some((CmpOp::GE, i + 2))
    } else if i < s.len() && s[i as int] == '>' {
        Some((CmpOp::GT, i + 1))
    } else {
        None
    }
}

/// A comparison operator with white space allowed on both sides.
pub open spec fn padded_cmp_op(s: Seq<char>, i: nat) -> Option<(CmpOp, nat)> {
    match cmp_op_at(s, skip_space(s, i)) {
        Some((op, k)) => Some((op, skip_space(s, k))),
        None => None,
    }
}

/// "+" or "-" between two products: `true` for "+".
pub open spec fn add_op_at(s: Seq<char>, i: nat) -> Option<(bool, nat)> {
    match padded_char(s, i, '+') {
        Some(k) => Some((true, k)),
        None => match padded_char(s, i, '-') {
            Some(k) => Some((false, k)),
            None => None,
        },
    }
}

// In the functions below, a branch that ends in `None` under a test on
// positions is never taken: every rule ends at or after where it starts, and
// every operator takes at least one character. The tests keep the recursion
// well founded.

pub open spec fn p_expr(s: Seq<char>, i: nat) -> Option<(Term, nat)>
    decreases s.len() - i, 9nat,
{
    if i > s.len() {
        None
    } else {
        match p_sum(s, i) {
            None => None,
            Some((t, j)) => if i <= j <= s.len() {
                p_cmp_tail(s, j, t)
            } else {
                None
            },
        }
    }
}

pub open spec fn p_cmp_tail(s: Seq<char>, j: nat, t: Term) -> Option<(Term, nat)>
    decreases s.len() - j, 8nat,
{
    if j > s.len() {
        None
    } else {
        match padded_cmp_op(s, j) {
            None => Some((t, j)),
            Some((op, k)) => if j < k <= s.len() {
                match p_sum(s, k) {
                    None => Some((t, j)),
                    Some((t2, m)) => if j < m <= s.len() {
                        p_cmp_tail(s, m, Term::Cmp(Box::new(t), op, Box::new(t2)))
                    } else {
                        None
                    },
                }
            } else {
                None
            },
        }
    }
}

pub open spec fn p_sum(s: Seq<char>, i: nat) -> Option<(Term, nat)>
    decreases s.len() - i, 7nat,
{
    if i > s.len() {
        None
    } else {
        match p_product(s, i) {
            None => None,
            Some((t, j)) => if i <= j <= s.len() {
                p_sum_tail(s, j, t)
            } else {
                None
            },
        }
    }
}

pub open spec fn p_sum_tail(s: Seq<char>, j: nat, t: Term) -> Option<(Term, nat)>
    decreases s.len() - j, 6nat,
{
    if j > s.len() {
        None
    } else {
        match add_op_at(s, j) {
            None => Some((t, j)),
            Some((is_add, k)) => if j < k <= s.len() {
                match p_product(s, k) {
                    None => Some((t, j)),
                    Some((t2, m)) => if j < m <= s.len() {
                        p_sum_tail(
                            s,
                            m,
                            if is_add {
                                Term::Add(Box::new(t), Box::new(t2))
                            } else {
                                Term::Sub(Box::new(t), Box::new(t2))
                            },
                        )
                    } else {
                        None
                    },
                }
            } else {
                None
            },
        }
    }
}

pub open spec fn p_product(s: Seq<char>, i: nat) -> Option<(Term, nat)>
    decreases s.len() - i, 5nat,
{
    if i > s.len() {
        None
    } else {
        match p_unary(s, i) {
            None => None,
            Some((t, j)) => if i <= j <= s.len() {
                p_product_tail(s, j, t)
            } else {
                None
            },
        }
    }
}

pub open spec fn p_product_tail(s: Seq<char>, j: nat, t: Term) -> Option<(Term, nat)>
    decreases s.len() - j, 4nat,
{
    if j > s.len() {
        None
    } else {
        match padded_char(s, j, '*') {
            None => Some((t, j)),
            Some(k) => if j < k <= s.len() {
                match p_unary(s, k) {
                    None => Some((t, j)),
                    Some((t2, m)) => if j < m <= s.len() {
                        p_product_tail(s, m, Term::Mul(Box::new(t), Box::new(t2)))
                    } else {
                        None
                    },
                }
            } else {
                None
            },
        }
    }
}

pub open spec fn p_unary(s: Seq<char>, i: nat) -> Option<(Term, nat)>
    decreases s.len() - i, 3nat,
{
    if i > s.len() {
        None
    } else {
        match padded_char(s, i, '-') {
            Some(k) => if i < k <= s.len() {
                match p_unary(s, k) {
                    None => None,
                    Some((t, m)) => Some((Term::Neg(Box::new(t)), m)),
                }
            } else {
                None
            },
            None => p_atom(s, i),
        }
    }
}

pub open spec fn p_atom(s: Seq<char>, i: nat) -> Option<(Term, nat)>
    decreases s.len() - i, 2nat,
{
    if i > s.len() {
        None
    } else {
        match p_int(s, i) {
            Some(r) => Some(r),
            None => {
                let a = skip_space(s, i);
                if i <= a < s.len() && s[a as int] == '(' {
                    match p_expr(s, a + 1) {
                        Some((t, j)) => {
                            let b = skip_space(s, j);
                            if b < s.len() && s[b as int] == ')' {
                                Some((t, skip_space(s, b + 1)))
                            } else {
                                p_ident(s, i)
                            }
                        },
                        None => p_ident(s, i),
                    }
                } else {
                    p_ident(s, i)
                }
            },
        }
    }
}

/// The term that a whole rule denotes, or `None` when it is not a rule.
#[verifier::opaque]
pub open spec fn parse_term(s: Seq<char>) -> Option<Term> {
    match p_expr(s, 0) {
        Some((t, j)) => if j == s.len() {
            Some(t)
        } else {
            None
        },
        None => None,
    }
}

/// What an exec parsing step returns, read against the grammar.
pub open spec fn parsed_as(r: Option<(Expr, usize)>, expected: Option<(Term, nat)>) -> bool {
    match r {
        None => expected is None,
        Some((e, j)) => expected == Some((term(e), j as nat)),
    }
}

/// Where a successful step ends: not before `i`, and within `s`.
pub open spec fn ends_within(r: Option<(Expr, usize)>, i: nat, len: nat) -> bool {
    match r {
        None => true,
        Some((_, j)) => i <= j <= len,
    }
}

proof fn lemma_skip_space_bounds(s: Seq<char>, i: nat)
    requires
        i <= s.len(),
    ensures
        i <= skip_space(s, i) <= s.len(),
    decreases s.len() - i,
{
    if i < s.len() && is_space(s[i as int]) {
        lemma_skip_space_bounds(s, i + 1);
    }
}

proof fn lemma_digits_value_grows(s: Seq<char>, a: int, k1: int, k2: int)
    requires
        a <= k1 <= k2,
        forall|x: int| a <= x < k2 ==> is_digit(#[trigger] s[x]),
    ensures
        0 <= digits_value(s, a, k1) <= digits_value(s, a, k2),
    decreases (k1 - a) + (k2 - a),
{
    if k1 < k2 {
        lemma_digits_value_grows(s, a, k1, k2 - 1);
        assert(is_digit(s[k2 - 1]));
    } else if k1 > a {
        lemma_digits_value_grows(s, a, k1 - 1, k1 - 1);
        assert(is_digit(s[k1 - 1]));
    }
}

fn is_space_char(c: char) -> (r: bool)
    ensures
        r == is_space(c),
{
    let u = c as u32;
    u == 0x20 || (0x09 <= u && u <= 0x0D) || u == 0x85 || u == 0xA0 || u == 0x1680 || (0x2000
        <= u && u <= 0x200A) || u == 0x2028 || u == 0x2029 || u == 0x202F || u == 0x205F || u
        == 0x3000
}

fn is_digit_char(c: char) -> (r: bool)
    ensures
        r == is_digit(c),
{
    0x30 <= (c as u32) && (c as u32) <= 0x39
}

fn is_ident_start_char(c: char) -> (r: bool)
    ensures
        r == is_ident_start(c),
{
    let u = c as u32;
    (0x41 <= u && u <= 0x5A) || (0x61 <= u && u <= 0x7A) || u == 0x5F
}

fn skip_space_at(cs: &Vec<char>, i: usize) -> (r: usize)
    requires
        i <= cs@.len(),
    ensures
        r as nat == skip_space(cs@, i as nat),
        i <= r <= cs@.len(),
{
    let mut j = i;
    while j < cs.len() && is_space_char(cs[j])
        invariant
            i <= j <= cs@.len(),
            skip_space(cs@, i as nat) == skip_space(cs@, j as nat),
        decreases cs@.len() - j,
    {
        j = j + 1;
    }
    j
}

fn digits_end_at(cs: &Vec<char>, i: usize) -> (r: usize)
    requires
        i <= cs@.len(),
    ensures
        r as nat == digits_end(cs@, i as nat),
        i <= r <= cs@.len(),
        forall|x: int| i <= x < r ==> is_digit(#[trigger] cs@[x]),
{
    let mut j = i;
    while j < cs.len() && is_digit_char(cs[j])
        invariant
            i <= j <= cs@.len(),
            digits_end(cs@, i as nat) == digits_end(cs@, j as nat),
            forall|x: int| i <= x < j ==> is_digit(#[trigger] cs@[x]),
        decreases cs@.len() - j,
    {
        j = j + 1;
    }
    j
}

fn ident_end_at(cs: &Vec<char>, i: usize) -> (r: usize)
    requires
        i <= cs@.len(),
    ensures
        r as nat == ident_end(cs@, i as nat),
        i <= r <= cs@.len(),
{
    let mut j = i;
    while j < cs.len() && (is_ident_start_char(cs[j]) || is_digit_char(cs[j]))
        invariant
            i <= j <= cs@.len(),
            ident_end(cs@, i as nat) == ident_end(cs@, j as nat),
        decreases cs@.len() - j,
    {
        j = j + 1;
    }
    j
}

fn padded_char_at(cs: &Vec<char>, i: usize, c: char) -> (r: Option<usize>)
    requires
        i <= cs@.len(),
    ensures
        match r {
            None => padded_char(cs@, i as nat, c) is None,
            Some(k) => padded_char(cs@, i as nat, c) == Some(k as nat) && i < k <= cs@.len(),
        },
{
    let a = skip_space_at(cs, i);
    if a < cs.len() && cs[a] == c {
        Some(skip_space_at(cs, a + 1))
    } else {
        None
    }
}

fn cmp_op_of(cs: &Vec<char>, i: usize) -> (r: Option<(CmpOp, usize)>)
    requires
        i <= cs@.len(),
    ensures
        match r {
            None => cmp_op_at(cs@, i as nat) is None,
            Some((op, k)) => cmp_op_at(cs@, i as nat) == Some((op, k as nat)) && i < k
                <= cs@.len(),
        },
{
    let two = i < cs.len() && cs.len() - i > 1;
    if two && cs[i] == '=' && cs[i + 1] == '=' {
        Some((CmpOp::Eq, i + 2))
    } else if two && cs[i] == '!' && cs[i + 1] == '=' {
        Some((CmpOp::NotEq, i + 2))
    } else if two && cs[i] == '<' && cs[i + 1] == '=' {
        Some((CmpOp::LE, i + 2))
    } else if i < cs.len() && cs[i] == '<' {
        Some((CmpOp::LT, i + 1))
    } else if two && cs[i] == '>' && cs[i + 1] == '=' {
        Some((CmpOp::GE, i + 2))
    } else if i < cs.len() && cs[i] == '>' {
        Some((CmpOp::GT, i + 1))
    } else {
        None
    }
}

fn padded_cmp_op_of(cs: &Vec<char>, i: usize) -> (r: Option<(CmpOp, usize)>)
    requires
        i <= cs@.len(),
    ensures
        match r {
            None => padded_cmp_op(cs@, i as nat) is None,
            Some((op, k)) => padded_cmp_op(cs@, i as nat) == Some((op, k as nat)) && i < k
                <= cs@.len(),
        },
{
    let a = skip_space_at(cs, i);
    match cmp_op_of(cs, a) {
        Some((op, k)) => Some((op, skip_space_at(cs, k))),
        None => None,
    }
}

fn parse_int(cs: &Vec<char>, i: usize) -> (r: Option<(Expr, usize)>)
    requires
        i <= cs@.len(),
    ensures
        parsed_as(r, p_int(cs@, i as nat)),
        ends_within(r, i as nat, cs@.len()),
{
    let a = skip_space_at(cs, i);
    if a < cs.len() && is_digit_char(cs[a]) {
        let e = if cs[a] == '0' {
            a + 1
        } else {
            digits_end_at(cs, a + 1)
        };
        assert(forall|x: int| a <= x < e ==> is_digit(#[trigger] cs@[x]));
        assert(e as nat == (if cs@[a as int] == '0' {
            (a + 1) as nat
        } else {
            digits_end(cs@, (a + 1) as nat)
        }));
        let mut v: isize = 0;
        let mut k = a;
        while k < e
            invariant
                a <= k <= e <= cs@.len(),
                a < cs@.len(),
                a as nat == skip_space(cs@, i as nat),
                is_digit(cs@[a as int]),
                e as nat == (if cs@[a as int] == '0' {
                    (a + 1) as nat
                } else {
                    digits_end(cs@, (a + 1) as nat)
                }),
                forall|x: int| a <= x < e ==> is_digit(#[trigger] cs@[x]),
                v as int == digits_value(cs@, a as int, k as int),
            decreases e - k,
        {
            assert(is_digit(cs@[k as int]));
            let u = cs[k] as u32;
            let d = (u - 0x30) as isize;
            assert(d as int == digit_value(cs@[k as int]));
            proof {
                lemma_digits_value_grows(cs@, a as int, k as int, k as int);
            }
            assert(digits_value(cs@, a as int, k + 1) == 10 * v + d);
            if v > (isize::MAX - d) / 10 {
                proof {
                    lemma_digits_value_grows(cs@, a as int, k + 1, e as int);
                    assert(10 * v + d > isize::MAX) by (nonlinear_arith)
                        requires
                            v > (isize::MAX - d) / 10,
                            0 <= d <= 9,
                    ;
                    assert(digits_value(cs@, a as int, e as int) > isize::MAX);
                }
                return None;
            }
            assert(10 * v + d <= isize::MAX) by (nonlinear_arith)
                requires
                    v <= (isize::MAX - d) / 10,
                    0 <= v,
                    0 <= d <= 9,
            ;
            v = v * 10 + d;
            k = k + 1;
        }
        Some((Expr::Num(v), skip_space_at(cs, e)))
    } else {
        None
    }
}

fn parse_ident(text: &str, cs: &Vec<char>, i: usize) -> (r: Option<(Expr, usize)>)
    requires
        i <= cs@.len(),
        cs@ == text@,
    ensures
        parsed_as(r, p_ident(cs@, i as nat)),
        ends_within(r, i as nat, cs@.len()),
{
    let a = skip_space_at(cs, i);
    if a < cs.len() && is_ident_start_char(cs[a]) {
        let e = ident_end_at(cs, a + 1);
        let name = text.substring_char(a, e).to_owned();
        Some((Expr::Var(name), skip_space_at(cs, e)))
    } else {
        None
    }
}

fn parse_expr(text: &str, cs: &Vec<char>, i: usize) -> (r: Option<(Expr, usize)>)
    requires
        i <= cs@.len(),
        cs@ == text@,
    ensures
        parsed_as(r, p_expr(cs@, i as nat)),
        ends_within(r, i as nat, cs@.len()),
    decreases cs@.len() - i, 9nat,
{
    match parse_sum(text, cs, i) {
        None => None,
        Some((e, j)) => parse_cmp_tail(text, cs, j, e),
    }
}

fn parse_cmp_tail(text: &str, cs: &Vec<char>, j: usize, e: Expr) -> (r: Option<(Expr, usize)>)
    requires
        j <= cs@.len(),
        cs@ == text@,
    ensures
        parsed_as(r, p_cmp_tail(cs@, j as nat, term(e))),
        ends_within(r, j as nat, cs@.len()),
    decreases cs@.len() - j, 8nat,
{
    match padded_cmp_op_of(cs, j) {
        None => Some((e, j)),
        Some((op, k)) => match parse_sum(text, cs, k) {
            None => Some((e, j)),
            Some((e2, m)) => parse_cmp_tail(text, cs, m, Expr::Cmp(Box::new(e), op, Box::new(e2))),
        },
    }
}

fn parse_sum(text: &str, cs: &Vec<char>, i: usize) -> (r: Option<(Expr, usize)>)
    requires
        i <= cs@.len(),
        cs@ == text@,
    ensures
        parsed_as(r, p_sum(cs@, i as nat)),
        ends_within(r, i as nat, cs@.len()),
    decreases cs@.len() - i, 7nat,
{
    match parse_product(text, cs, i) {
        None => None,
        Some((e, j)) => parse_sum_tail(text, cs, j, e),
    }
}

fn parse_sum_tail(text: &str, cs: &Vec<char>, j: usize, e: Expr) -> (r: Option<(Expr, usize)>)
    requires
        j <= cs@.len(),
        cs@ == text@,
    ensures
        parsed_as(r, p_sum_tail(cs@, j as nat, term(e))),
        ends_within(r, j as nat, cs@.len()),
    decreases cs@.len() - j, 6nat,
{
    let op = match padded_char_at(cs, j, '+') {
        Some(k) => Some((true, k)),
        None => match padded_char_at(cs, j, '-') {
            Some(k) => Some((false, k)),
            None => None,
        },
    };
    match op {
        None => Some((e, j)),
        Some((is_add, k)) => match parse_product(text, cs, k) {
            None => Some((e, j)),
            Some((e2, m)) => {
                let combined = if is_add {
                    Expr::Add(Box::new(e), Box::new(e2))
                } else {
                    Expr::Sub(Box::new(e), Box::new(e2))
                };
                parse_sum_tail(text, cs, m, combined)
            },
        },
    }
}

fn parse_product(text: &str, cs: &Vec<char>, i: usize) -> (r: Option<(Expr, usize)>)
    requires
        i <= cs@.len(),
        cs@ == text@,
    ensures
        parsed_as(r, p_product(cs@, i as nat)),
        ends_within(r, i as nat, cs@.len()),
    decreases cs@.len() - i, 5nat,
{
    match parse_unary(text, cs, i) {
        None => None,
        Some((e, j)) => parse_product_tail(text, cs, j, e),
    }
}

fn parse_product_tail(text: &str, cs: &Vec<char>, j: usize, e: Expr) -> (r: Option<(Expr, usize)>)
    requires
        j <= cs@.len(),
        cs@ == text@,
    ensures
        parsed_as(r, p_product_tail(cs@, j as nat, term(e))),
        ends_within(r, j as nat, cs@.len()),
    decreases cs@.len() - j, 4nat,
{
    match padded_char_at(cs, j, '*') {
        None => Some((e, j)),
        Some(k) => match parse_unary(text, cs, k) {
            None => Some((e, j)),
            Some((e2, m)) => parse_product_tail(
                text,
                cs,
                m,
                Expr::Mul(Box::new(e), Box::new(e2)),
            ),
        },
    }
}

fn parse_unary(text: &str, cs: &Vec<char>, i: usize) -> (r: Option<(Expr, usize)>)
    requires
        i <= cs@.len(),
        cs@ == text@,
    ensures
        parsed_as(r, p_unary(cs@, i as nat)),
        ends_within(r, i as nat, cs@.len()),
    decreases cs@.len() - i, 3nat,
{
    match padded_char_at(cs, i, '-') {
        Some(k) => match parse_unary(text, cs, k) {
            None => None,
            Some((e, m)) => Some((Expr::Neg(Box::new(e)), m)),
        },
        None => parse_atom(text, cs, i),
    }
}

fn parse_atom(text: &str, cs: &Vec<char>, i: usize) -> (r: Option<(Expr, usize)>)
    requires
        i <= cs@.len(),
        cs@ == text@,
    ensures
        parsed_as(r, p_atom(cs@, i as nat)),
        ends_within(r, i as nat, cs@.len()),
    decreases cs@.len() - i, 2nat,
{
    match parse_int(cs, i) {
        Some(r) => Some(r),
        None => {
            let a = skip_space_at(cs, i);
            if a < cs.len() && cs[a] == '(' {
                match parse_expr(text, cs, a + 1) {
                    Some((e, j)) => {
                        let b = skip_space_at(cs, j);
                        if b < cs.len() && cs[b] == ')' {
                            Some((e, skip_space_at(cs, b + 1)))
                        } else {
                            parse_ident(text, cs, i)
                        }
                    },
                    None => parse_ident(text, cs, i),
                }
            } else {
                parse_ident(text, cs, i)
            }
        },
    }
}

/// The characters of `text`, one by one.
pub(crate) fn chars_of(text: &str) -> (r: Vec<char>)
    ensures
        r@ == text@,
{
    let n = text.unicode_len();
    let mut cs: Vec<char> = Vec::new();
    let mut i: usize = 0;
    while i < n
        invariant
            n == text@.len(),
            i <= n,
            cs@ == text@.subrange(0, i as int),
        decreases n - i,
    {
        cs.push(text.get_char(i));
        i = i + 1;
    }
    assert(cs@ =~= text@);
    cs
}

/// Where parsing of a rule stopped: after the longest expression at its start,
/// or at 0 when it does not start with one.
#[verifier::opaque]
pub open spec fn parse_stop(s: Seq<char>) -> nat {
    match p_expr(s, 0) {
        Some((_, j)) => j,
        None => 0,
    }
}

/// Parses one rule, or tells where parsing stopped when `rule` is not a rule.
pub fn parse_rule_or_stop(rule: &str) -> (r: Result<Expr, usize>)
    ensures
        match r {
            Ok(e) => parse_term(rule@) == Some(term(e)),
            Err(p) => parse_term(rule@) is None && p as nat == parse_stop(rule@),
        },
{
    reveal(parse_term);
    reveal(parse_stop);
    let cs = chars_of(rule);
    match parse_expr(rule, &cs, 0) {
        Some((e, j)) => if j == cs.len() {
            Ok(e)
        } else {
            Err(j)
        },
        None => Err(0),
    }
}

/// Parses one rule.
///
/// Returns the expression that the whole of `rule` denotes under the grammar
/// above, or `None` when `rule` is not a rule.
pub fn parse_rule(rule: &str) -> (r: Option<Expr>)
    ensures
        match r {
            None => parse_term(rule@) is None,
            Some(e) => parse_term(rule@) == Some(term(e)),
        },
{
    match parse_rule_or_stop(rule) {
        Ok(e) => Some(e),
        Err(_) => None,
    }
}

} // verus!
