use vstd::prelude::*;

verus! {

/// Comparison operators of the rule language.
#[derive(Clone, Copy, Debug, PartialEq, Eq, Structural)]
pub enum CmpOp {
    LE,
    LT,
    GE,
    GT,
    Eq,
    NotEq,
}

/// Abstract syntax of one rule.
///
/// Every inner node owns its children, so an expression is a finite tree.
#[derive(Debug)]
pub enum Expr {
    Num(isize),
    Var(String),
    Neg(Box<Expr>),
    Add(Box<Expr>, Box<Expr>),
    Sub(Box<Expr>, Box<Expr>),
    Mul(Box<Expr>, Box<Expr>),
    Cmp(Box<Expr>, CmpOp, Box<Expr>),
}

/// The shape of an expression with names as character sequences: what a
/// rule means, independent of how its strings are stored.
pub enum Term {
    Num(isize),
    Var(Seq<char>),
    Neg(Box<Term>),
    Add(Box<Term>, Box<Term>),
    Sub(Box<Term>, Box<Term>),
    Mul(Box<Term>, Box<Term>),
    Cmp(Box<Term>, CmpOp, Box<Term>),
}

/// The term that an expression stands for.
pub open spec fn term(e: Expr) -> Term
    decreases e,
{
    match e {
        Expr::Num(x) => Term::Num(x),
        Expr::Var(name) => Term::Var(name@),
        Expr::Neg(a) => Term::Neg(Box::new(term(*a))),
        Expr::Add(a, b) => Term::Add(Box::new(term(*a)), Box::new(term(*b))),
        Expr::Sub(a, b) => Term::Sub(Box::new(term(*a)), Box::new(term(*b))),
        Expr::Mul(a, b) => Term::Mul(Box::new(term(*a)), Box::new(term(*b))),
        Expr::Cmp(a, op, b) => Term::Cmp(Box::new(term(*a)), op, Box::new(term(*b))),
    }
}

/// Variable bindings: label names paired with their counts, in insertion order.
pub type Bindings = Vec<(String, isize)>;

/// Bindings with their names as character sequences.
pub open spec fn bindings_view(vars: Seq<(String, isize)>) -> Seq<(Seq<char>, isize)> {
    vars.map_values(|p: (String, isize)| (p.0@, p.1))
}

/// The value of `name` in `vars`: the most recently inserted entry wins,
/// and a name that is not bound reads as 0.
pub open spec fn lookup(vars: Seq<(Seq<char>, isize)>, name: Seq<char>) -> isize
    decreases vars.len(),
{
    if vars.len() == 0 {
        0
    } else if vars.last().0 == name {
        vars.last().1
    } else {
        lookup(vars.drop_last(), name)
    }
}

/// Whether `op` holds between `a` and `b`.
pub open spec fn cmp_holds(op: CmpOp, a: isize, b: isize) -> bool {
    match op {
        CmpOp::Eq => a == b,
        CmpOp::NotEq => a != b,
        CmpOp::LE => a <= b,
        CmpOp::LT => a < b,
        CmpOp::GE => a >= b,
        CmpOp::GT => a > b,
    }
}

/// Meaning of an expression under `vars`.
///
/// Arithmetic wraps around at the bounds of `isize`. A comparison that holds
/// yields `Ok(1)`; one that fails yields `Err` with its two operand values.
/// The first failure met in a left-to-right walk is the one passed upward.
pub open spec fn eval_spec(e: Expr, vars: Seq<(Seq<char>, isize)>) -> Result<isize, (isize, isize)>
    decreases e,
{
    match e {
        Expr::Num(x) => Ok(x),
        Expr::Var(name) => Ok(lookup(vars, name@)),
        Expr::Neg(a) => match eval_spec(*a, vars) {
            Ok(x) => Ok(vstd::wrapping::isize_specs::wrapping_sub(0, x)),
            Err(p) => Err(p),
        },
        Expr::Add(a, b) => match eval_spec(*a, vars) {
            Err(p) => Err(p),
            Ok(x) => match eval_spec(*b, vars) {
                Err(p) => Err(p),
                Ok(y) => Ok(vstd::wrapping::isize_specs::wrapping_add(x, y)),
            },
        },
        Expr::Sub(a, b) => match eval_spec(*a, vars) {
            Err(p) => Err(p),
            Ok(x) => match eval_spec(*b, vars) {
                Err(p) => Err(p),
                Ok(y) => Ok(vstd::wrapping::isize_specs::wrapping_sub(x, y)),
            },
        },
        Expr::Mul(a, b) => match eval_spec(*a, vars) {
            Err(p) => Err(p),
            Ok(x) => match eval_spec(*b, vars) {
                Err(p) => Err(p),
                Ok(y) => Ok(vstd::wrapping::isize_specs::wrapping_mul(x, y)),
            },
        },
        Expr::Cmp(a, op, b) => match eval_spec(*a, vars) {
            Err(p) => Err(p),
            Ok(x) => match eval_spec(*b, vars) {
                Err(p) => Err(p),
                Ok(y) => if cmp_holds(op, x, y) {
                    Ok(1)
                } else {
                    Err((x, y))
                },
            },
        },
    }
}

/// Two expressions with the same term evaluate alike under any bindings.
pub proof fn lemma_eval_depends_on_term(e1: Expr, e2: Expr, vars: Seq<(Seq<char>, isize)>)
    requires
        term(e1) == term(e2),
    ensures
        eval_spec(e1, vars) == eval_spec(e2, vars),
    decreases e1,
{
    match e1 {
        Expr::Num(_) => {},
        Expr::Var(_) => {},
        Expr::Neg(a1) => {
            if let Expr::Neg(a2) = e2 {
                lemma_eval_depends_on_term(*a1, *a2, vars);
            }
        },
        Expr::Add(a1, b1) => {
            if let Expr::Add(a2, b2) = e2 {
                lemma_eval_depends_on_term(*a1, *a2, vars);
                lemma_eval_depends_on_term(*b1, *b2, vars);
            }
        },
        Expr::Sub(a1, b1) => {
            if let Expr::Sub(a2, b2) = e2 {
                lemma_eval_depends_on_term(*a1, *a2, vars);
                lemma_eval_depends_on_term(*b1, *b2, vars);
            }
        },
        Expr::Mul(a1, b1) => {
            if let Expr::Mul(a2, b2) = e2 {
                lemma_eval_depends_on_term(*a1, *a2, vars);
                lemma_eval_depends_on_term(*b1, *b2, vars);
            }
        },
        Expr::Cmp(a1, _, b1) => {
            if let Expr::Cmp(a2, _, b2) = e2 {
                lemma_eval_depends_on_term(*a1, *a2, vars);
                lemma_eval_depends_on_term(*b1, *b2, vars);
            }
        },
    }
}

/// Looks `name` up in `vars`, scanning from the most recent entry backward.
pub fn lookup_var(vars: &Bindings, name: &String) -> (r: isize)
    ensures
        r == lookup(bindings_view(vars@), name@),
{
    let ghost all = bindings_view(vars@);
    let mut i: usize = vars.len();
    assert(all.subrange(0, i as int) =~= all);
    while i > 0
        invariant
            i <= vars@.len(),
            all == bindings_view(vars@),
            lookup(all, name@) == lookup(all.subrange(0, i as int), name@),
        decreases i,
    {
        let ghost prefix = all.subrange(0, i as int);
        assert(prefix.drop_last() =~= all.subrange(0, i - 1));
        if vars[i - 1].0.eq(name) {
            return vars[i - 1].1;
        }
        i = i - 1;
    }
    assert(all.subrange(0, 0).len() == 0);
    0
}

/// Applies a comparison operator.
pub fn compare(op: CmpOp, a: isize, b: isize) -> (r: bool)
    ensures
        r == cmp_holds(op, a, b),
{
    match op {
        CmpOp::Eq => a == b,
        CmpOp::NotEq => a != b,
        CmpOp::LE => a <= b,
        CmpOp::LT => a < b,
        CmpOp::GE => a >= b,
        CmpOp::GT => a > b,
    }
}

/// Evaluates `expr` under `vars`.
///
/// A comparison reports its truth through the result: `Ok(1)` when it holds,
/// `Err((lhs, rhs))` when it does not.
pub fn eval(expr: &Expr, vars: &Bindings) -> (r: Result<isize, (isize, isize)>)
    ensures
        r == eval_spec(*expr, bindings_view(vars@)),
    decreases expr,
{
    match expr {
        Expr::Num(x) => Ok(*x),
        Expr::Var(name) => Ok(lookup_var(vars, name)),
        Expr::Neg(a) => {
            let x = eval(a, vars)?;
            Ok(0isize.wrapping_sub(x))
        },
        Expr::Add(a, b) => {
            let x = eval(a, vars)?;
            let y = eval(b, vars)?;
            Ok(x.wrapping_add(y))
        },
        Expr::Sub(a, b) => {
            let x = eval(a, vars)?;
            let y = eval(b, vars)?;
            Ok(x.wrapping_sub(y))
        },
        Expr::Mul(a, b) => {
            let x = eval(a, vars)?;
            let y = eval(b, vars)?;
            Ok(x.wrapping_mul(y))
        },
        Expr::Cmp(a, op, b) => {
            let x = eval(a, vars)?;
            let y = eval(b, vars)?;
            if compare(*op, x, y) {
                Ok(1)
            } else {
                Err((x, y))
            }
        },
    }
}

} // verus!
