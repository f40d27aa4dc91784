use vstd::prelude::*;

use lp_modeler::dsl::{lp_sum, LpBinary, LpConstraint, LpExpression, LpObjective, LpOperations, LpProblem};

use crate::layout::STRIDE;
use crate::model::{Cmp, Model};
use crate::roster::Roster;

verus! {

#[verifier::external_type_specification]
#[verifier::external_body]
pub struct ExLpProblem(LpProblem);

#[verifier::external_type_specification]
#[verifier::external_body]
pub struct ExLpBinary(LpBinary);

#[verifier::external_type_specification]
#[verifier::external_body]
pub struct ExLpExpression(LpExpression);

#[verifier::external_type_specification]
#[verifier::external_body]
pub struct ExLpConstraint(LpConstraint);

/// Number of constraints a problem holds.
pub uninterp spec fn lp_constraint_count(p: LpProblem) -> nat;

/// Relies on lp_modeler's `LpProblem::new`: a maximisation problem whose
/// constraint list starts empty.
#[verifier::external_body]
fn lp_new_problem() -> (p: LpProblem)
    ensures
        lp_constraint_count(p) == 0,
{
    LpProblem::new("roster", LpObjective::Maximize)
}

/// Relies on lp_modeler's `LpBinary::new`: a 0/1 variable named after index `i`.
#[verifier::external_body]
fn lp_binary(i: usize) -> LpBinary {
    LpBinary::new(&format!("x_{}", i))
}

/// Relies on lp_modeler's `i32 * &LpBinary`: the expression `coef * v`.
#[verifier::external_body]
fn lp_scaled(coef: i32, v: &LpBinary) -> LpExpression {
    coef * v
}

/// Relies on lp_modeler's `lp_sum`: the sum of the expressions, 0 when empty.
#[verifier::external_body]
fn lp_sum_of(es: &Vec<LpExpression>) -> LpExpression {
    lp_sum(es)
}

/// Relies on lp_modeler's `LpOperations::equal`: the constraint `e == rhs`.
#[verifier::external_body]
fn lp_equal(e: &LpExpression, rhs: i32) -> LpConstraint {
    e.equal(rhs)
}

/// Relies on lp_modeler's `LpOperations::ge`: the constraint `e >= rhs`.
#[verifier::external_body]
fn lp_at_least(e: &LpExpression, rhs: i32) -> LpConstraint {
    e.ge(rhs)
}

/// Relies on lp_modeler's `LpOperations::le`: the constraint `e <= rhs`.
#[verifier::external_body]
fn lp_at_most(e: &LpExpression, rhs: i32) -> LpConstraint {
    e.le(rhs)
}

/// Relies on lp_modeler's `AddAssign<LpConstraint>` for `LpProblem`: pushes the
/// constraint onto the problem's list.
#[verifier::external_body]
fn lp_add_constraint(p: &mut LpProblem, c: LpConstraint)
    ensures
        lp_constraint_count(*final(p)) == lp_constraint_count(*old(p)) + 1,
{
    *p += c;
}

/// Relies on lp_modeler's `AddAssign<LpExpression>` for `LpProblem`: sets the
/// objective and leaves the constraint list alone.
#[verifier::external_body]
fn lp_add_objective(p: &mut LpProblem, e: LpExpression)
    ensures
        lp_constraint_count(*final(p)) == lp_constraint_count(*old(p)),
{
    *p += e;
}

/// The solver's problem for `m`; variable `i` of the model is `vars[i]`.
pub fn to_lp(m: &Model) -> (res: (LpProblem, Vec<LpBinary>))
    requires
        m.wf(),
        forall|i: int| 0 <= i < m.objective@.len() ==> #[trigger] m.objective@[i] < m.n_vars,
    ensures
        res.1@.len() == m.n_vars,
        lp_constraint_count(res.0) == m.constraints@.len(),
{
    let mut vars: Vec<LpBinary> = Vec::new();
    let mut i: usize = 0;
    while i < m.n_vars
        invariant
            i <= m.n_vars,
            vars@.len() == i,
        decreases m.n_vars - i,
    {
        vars.push(lp_binary(i));
        i = i + 1;
    }
    let mut p = lp_new_problem();
    let mut obj: Vec<LpExpression> = Vec::new();
    let mut k: usize = 0;
    while k < m.objective.len()
        invariant
            vars@.len() == m.n_vars,
            k <= m.objective@.len(),
            forall|i: int| 0 <= i < m.objective@.len() ==> #[trigger] m.objective@[i] < m.n_vars,
        decreases m.objective@.len() - k,
    {
        obj.push(lp_scaled(1, &vars[m.objective[k]]));
        k = k + 1;
    }
    lp_add_objective(&mut p, lp_sum_of(&obj));
    let mut j: usize = 0;
    while j < m.constraints.len()
        invariant
            m.wf(),
            vars@.len() == m.n_vars,
            j <= m.constraints@.len(),
            lp_constraint_count(p) == j,
        decreases m.constraints@.len() - j,
    {
        let c = &m.constraints[j];
        assert(m.spec_constraints()[j as int] == c@);
        let mut es: Vec<LpExpression> = Vec::new();
        let mut t: usize = 0;
        while t < c.terms.len()
            invariant
                m.wf(),
                j < m.constraints@.len(),
                c == m.constraints@[j as int],
                vars@.len() == m.n_vars,
                t <= c.terms@.len(),
            decreases c.terms@.len() - t,
        {
            let term = c.terms[t];
            assert(m.spec_constraints()[j as int].terms[t as int] == term);
            es.push(lp_scaled(term.coef, &vars[term.var]));
            t = t + 1;
        }
        let e = lp_sum_of(&es);
        let lc = match c.cmp {
            Cmp::Equal => lp_equal(&e, c.rhs),
            Cmp::AtLeast => lp_at_least(&e, c.rhs),
            Cmp::AtMost => lp_at_most(&e, c.rhs),
        };
        lp_add_constraint(&mut p, lc);
        j = j + 1;
    }
    (p, vars)
}

impl Roster {
    /// The solver's problem for this roster's model, with one variable per
    /// model variable, by index.
    pub fn lp_problem(&self) -> (res: (LpProblem, Vec<LpBinary>))
        requires
            self.wf(),
        ensures
            res.1@.len() == self.n_chars() * STRIDE,
            lp_constraint_count(res.0) == self.spec_constraints().len(),
    {
        let m = self.model();
        proof {
            assert forall|i: int| 0 <= i < m.objective@.len() implies #[trigger] m.objective@[i]
                < m.n_vars by {
                assert(m.objective@[i] == self.spec_objective()[i]);
            }
        }
        to_lp(&m)
    }
}

} // verus!
