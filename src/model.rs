use vstd::prelude::*;

verus! {

/// How the left-hand side of a constraint is compared with its bound.
#[derive(Clone, Copy, Debug, PartialEq, Eq, Structural)]
pub enum Cmp {
    Equal,
    AtLeast,
    AtMost,
}

/// One summand `coef * x[var]` of a linear expression over 0/1 variables.
#[derive(Clone, Copy, Debug, PartialEq, Eq, Structural)]
pub struct Term {
    pub var: usize,
    pub coef: i32,
}

/// A linear constraint `sum(terms) cmp rhs`.
#[derive(Clone, Debug)]
pub struct Constraint {
    pub terms: Vec<Term>,
    pub cmp: Cmp,
    pub rhs: i32,
}

/// The mathematical content of a constraint.
pub struct LinearSpec {
    pub terms: Seq<Term>,
    pub cmp: Cmp,
    pub rhs: int,
}

impl View for Constraint {
    type V = LinearSpec;

    open spec fn view(&self) -> LinearSpec {
        LinearSpec { terms: self.terms@, cmp: self.cmp, rhs: self.rhs as int }
    }
}

/// A 0/1 integer program: maximise the number of true objective variables
/// subject to every constraint.
#[derive(Clone, Debug)]
pub struct Model {
    pub n_vars: usize,
    pub objective: Vec<usize>,
    pub constraints: Vec<Constraint>,
}

/// Value of a 0/1 variable under an assignment.
pub open spec fn val(a: Seq<bool>, v: int) -> int {
    if a[v] {
        1
    } else {
        0
    }
}

/// Value of a linear expression under an assignment.
pub open spec fn lhs(ts: Seq<Term>, a: Seq<bool>) -> int
    decreases ts.len(),
{
    if ts.len() == 0 {
        0
    } else {
        lhs(ts.drop_last(), a) + ts.last().coef * val(a, ts.last().var as int)
    }
}

pub open spec fn compares(cmp: Cmp, x: int, rhs: int) -> bool {
    match cmp {
        Cmp::Equal => x == rhs,
        Cmp::AtLeast => x >= rhs,
        Cmp::AtMost => x <= rhs,
    }
}

pub open spec fn holds(c: LinearSpec, a: Seq<bool>) -> bool {
    compares(c.cmp, lhs(c.terms, a), c.rhs)
}

/// Every constraint holds under the assignment.
pub open spec fn satisfies(cs: Seq<LinearSpec>, a: Seq<bool>) -> bool {
    forall|j: int| 0 <= j < cs.len() ==> holds(#[trigger] cs[j], a)
}

/// Every variable that a constraint mentions is below `n`.
pub open spec fn vars_below(cs: Seq<LinearSpec>, n: nat) -> bool {
    forall|j: int, t: int|
        0 <= j < cs.len() && 0 <= t < cs[j].terms.len() ==> (#[trigger] cs[j].terms[t]).var < n
}

pub proof fn lemma_vars_below_concat(c1: Seq<LinearSpec>, c2: Seq<LinearSpec>, n: nat)
    requires
        vars_below(c1, n),
        vars_below(c2, n),
    ensures
        vars_below(c1 + c2, n),
{
    assert forall|j: int, t: int|
        0 <= j < (c1 + c2).len() && 0 <= t < (c1 + c2)[j].terms.len() implies (#[trigger] (c1
        + c2)[j].terms[t]).var < n by {
        if j < c1.len() {
            assert((c1 + c2)[j] == c1[j]);
        } else {
            assert((c1 + c2)[j] == c2[j - c1.len()]);
        }
    }
}

pub proof fn lemma_satisfies_concat(c1: Seq<LinearSpec>, c2: Seq<LinearSpec>, a: Seq<bool>)
    ensures
        satisfies(c1 + c2, a) == (satisfies(c1, a) && satisfies(c2, a)),
{
    if satisfies(c1 + c2, a) {
        assert forall|j: int| 0 <= j < c1.len() implies holds(#[trigger] c1[j], a) by {
            assert((c1 + c2)[j] == c1[j]);
        }
        assert forall|j: int| 0 <= j < c2.len() implies holds(#[trigger] c2[j], a) by {
            assert((c1 + c2)[c1.len() + j] == c2[j]);
        }
    }
    if satisfies(c1, a) && satisfies(c2, a) {
        assert forall|j: int| 0 <= j < (c1 + c2).len() implies holds(#[trigger] (c1 + c2)[j], a) by {
            if j < c1.len() {
                assert((c1 + c2)[j] == c1[j]);
            } else {
                assert((c1 + c2)[j] == c2[j - c1.len()]);
            }
        }
    }
}

pub proof fn lemma_lhs_push(ts: Seq<Term>, t: Term, a: Seq<bool>)
    ensures
        lhs(ts.push(t), a) == lhs(ts, a) + t.coef * val(a, t.var as int),
{
    assert(ts.push(t).drop_last() =~= ts);
}

/// Sum of `coef * x[var]` over the terms; exact, with no overflow.
pub fn evaluate(terms: &Vec<Term>, a: &Vec<bool>) -> (r: i128)
    requires
        forall|t: int| 0 <= t < terms@.len() ==> (#[trigger] terms@[t]).var < a@.len(),
    ensures
        r == lhs(terms@, a@),
{
    let mut acc: i128 = 0;
    let mut i: usize = 0;
    while i < terms.len()
        invariant
            i <= terms@.len(),
            forall|t: int| 0 <= t < terms@.len() ==> (#[trigger] terms@[t]).var < a@.len(),
            acc == lhs(terms@.take(i as int), a@),
            -(i as int) * 2147483648 <= acc <= (i as int) * 2147483648,
        decreases terms@.len() - i,
    {
        let t = terms[i];
        proof {
            lemma_lhs_push(terms@.take(i as int), t, a@);
            assert(terms@.take(i as int).push(t) =~= terms@.take(i + 1));
        }
        if a[t.var] {
            acc = acc + t.coef as i128;
        }
        i = i + 1;
    }
    assert(terms@.take(i as int) =~= terms@);
    acc
}

impl Constraint {
    /// Whether the constraint holds under the assignment.
    pub fn is_met(&self, a: &Vec<bool>) -> (r: bool)
        requires
            forall|t: int| 0 <= t < self.terms@.len() ==> (#[trigger] self.terms@[t]).var < a@.len(),
        ensures
            r == holds(self@, a@),
    {
        let x = evaluate(&self.terms, a);
        match self.cmp {
            Cmp::Equal => x == self.rhs as i128,
            Cmp::AtLeast => x >= self.rhs as i128,
            Cmp::AtMost => x <= self.rhs as i128,
        }
    }
}

impl Model {
    pub open spec fn spec_constraints(&self) -> Seq<LinearSpec> {
        self.constraints@.map_values(|c: Constraint| c@)
    }

    pub open spec fn wf(&self) -> bool {
        vars_below(self.spec_constraints(), self.n_vars as nat)
    }

    /// Whether `a` gives a value to every variable and meets every constraint.
    pub fn is_feasible(&self, a: &Vec<bool>) -> (r: bool)
        requires
            self.wf(),
        ensures
            r == (a@.len() == self.n_vars && satisfies(self.spec_constraints(), a@)),
    {
        if a.len() != self.n_vars {
            return false;
        }
        let mut j: usize = 0;
        while j < self.constraints.len()
            invariant
                self.wf(),
                a@.len() == self.n_vars,
                j <= self.constraints@.len(),
                forall|k: int| 0 <= k < j ==> holds(#[trigger] self.spec_constraints()[k], a@),
            decreases self.constraints@.len() - j,
        {
            let c = &self.constraints[j];
            assert(self.spec_constraints()[j as int] == c@);
            assert forall|t: int| 0 <= t < c.terms@.len() implies (#[trigger] c.terms@[t]).var < a@.len() by {
                assert(self.spec_constraints()[j as int].terms[t] == c.terms@[t]);
            }
            if !c.is_met(a) {
                return false;
            }
            j = j + 1;
        }
        true
    }
}

} // verus!
