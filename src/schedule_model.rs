use vstd::prelude::*;

use crate::layout::{
    column_constraint, column_spec, lemma_mask_terms_vars, lemma_row_terms_vars, lock_constraint,
    lock_spec, row_terms, tier_var, vault_constraint, vault_spec, NBOSSES, NTIERS, STRIDE,
};
use crate::model::{lemma_vars_below_concat, vars_below, Cmp, Constraint, LinearSpec, Model};
use crate::role::{role_index, Role, NROLES};
use crate::roster::{Char, Requirement, Roster};

verus! {

/// Selects the characters of player `p`.
pub open spec fn player_mask(chars: Seq<Char>, p: int) -> Seq<bool> {
    Seq::new(chars.len(), |c: int| chars[c].player == p)
}

/// Selects the characters that have role `r`.
pub open spec fn role_mask(chars: Seq<Char>, r: Role) -> Seq<bool> {
    Seq::new(chars.len(), |c: int| chars[c].roles@[role_index(r) as int])
}

/// Selects all of `n` characters.
pub open spec fn full_mask(n: nat) -> Seq<bool> {
    Seq::new(n, |c: int| true)
}

/// The constraint of requirement `q` at boss `b`.
pub open spec fn requirement_spec(chars: Seq<Char>, q: Requirement, b: int) -> LinearSpec {
    column_spec(role_mask(chars, q.role), b, q.cmp, q.counts@[b] as int)
}

fn player_mask_of(chars: &Vec<Char>, p: usize) -> (m: Vec<bool>)
    ensures
        m@ == player_mask(chars@, p as int),
{
    let mut m: Vec<bool> = Vec::new();
    let mut c: usize = 0;
    while c < chars.len()
        invariant
            c <= chars@.len(),
            m@ =~= player_mask(chars@, p as int).take(c as int),
        decreases chars@.len() - c,
    {
        m.push(chars[c].player == p);
        c = c + 1;
    }
    assert(m@ =~= player_mask(chars@, p as int));
    m
}

fn role_mask_of(chars: &Vec<Char>, r: Role) -> (m: Vec<bool>)
    requires
        forall|c: int| 0 <= c < chars@.len() ==> (#[trigger] chars@[c]).roles@.len() == NROLES,
    ensures
        m@ == role_mask(chars@, r),
{
    let ri = r.index();
    let mut m: Vec<bool> = Vec::new();
    let mut c: usize = 0;
    while c < chars.len()
        invariant
            c <= chars@.len(),
            ri == role_index(r),
            forall|c: int| 0 <= c < chars@.len() ==> (#[trigger] chars@[c]).roles@.len() == NROLES,
            m@ =~= role_mask(chars@, r).take(c as int),
        decreases chars@.len() - c,
    {
        m.push(chars[c].roles[ri]);
        c = c + 1;
    }
    assert(m@ =~= role_mask(chars@, r));
    m
}

fn full_mask_of(n: usize) -> (m: Vec<bool>)
    ensures
        m@ == full_mask(n as nat),
{
    let mut m: Vec<bool> = Vec::new();
    let mut c: usize = 0;
    while c < n
        invariant
            c <= n,
            m@ =~= full_mask(n as nat).take(c as int),
        decreases n - c,
    {
        m.push(true);
        c = c + 1;
    }
    assert(m@ =~= full_mask(n as nat));
    m
}

/// `cs` holds exactly the constraints of `part`, in order.
pub open spec fn builds(cs: Seq<Constraint>, part: Seq<LinearSpec>) -> bool {
    &&& cs.len() == part.len()
    &&& forall|j: int| 0 <= j < cs.len() ==> (#[trigger] cs[j])@ == part[j]
}

impl Roster {
    /// At most one character of each player per boss.
    pub open spec fn alt_part(&self) -> Seq<LinearSpec> {
        Seq::new(
            self.n_players as nat * NBOSSES as nat,
            |j: int|
                column_spec(
                    player_mask(self.chars@, j / NBOSSES as int),
                    j % NBOSSES as int,
                    Cmp::AtMost,
                    1,
                ),
        )
    }

    /// A tier is earned only with enough bosses.
    pub open spec fn vault_part(&self) -> Seq<LinearSpec> {
        Seq::new(
            self.n_chars() * NTIERS as nat,
            |j: int| vault_spec(j / NTIERS as int, j % NTIERS as int),
        )
    }

    /// Exactly `roster_size` characters per boss.
    pub open spec fn size_part(&self) -> Seq<LinearSpec> {
        Seq::new(
            NBOSSES as nat,
            |b: int| column_spec(full_mask(self.n_chars()), b, Cmp::Equal, self.roster_size as int),
        )
    }

    /// One constraint per requirement and boss.
    pub open spec fn requirement_part(&self) -> Seq<LinearSpec> {
        Seq::new(
            self.requirements@.len() * NBOSSES as nat,
            |j: int|
                requirement_spec(
                    self.chars@,
                    self.requirements@[j / NBOSSES as int],
                    j % NBOSSES as int,
                ),
        )
    }

    /// One constraint per lock.
    pub open spec fn lock_part(&self) -> Seq<LinearSpec> {
        Seq::new(
            self.locks@.len(),
            |j: int| lock_spec(self.locks@[j].character as int, self.locks@[j].boss as int),
        )
    }

    /// Every constraint of the schedule model, in the order the model lists them.
    pub open spec fn spec_constraints(&self) -> Seq<LinearSpec> {
        self.alt_part() + self.vault_part() + self.size_part() + self.requirement_part()
            + self.lock_part()
    }

    /// The objective: every tier variable of every character.
    pub open spec fn spec_objective(&self) -> Seq<usize> {
        Seq::new(
            self.n_chars() * NTIERS as nat,
            |j: int| tier_var(j / NTIERS as int, j % NTIERS as int) as usize,
        )
    }

    fn alt_constraints(&self) -> (cs: Vec<Constraint>)
        requires
            self.wf(),
        ensures
            builds(cs@, self.alt_part()),
    {
        let mut cs: Vec<Constraint> = Vec::new();
        let mut p: usize = 0;
        while p < self.n_players
            invariant
                self.wf(),
                p <= self.n_players,
                cs@.len() == p * NBOSSES,
                forall|j: int| 0 <= j < cs@.len() ==> (#[trigger] cs@[j])@ == self.alt_part()[j],
            decreases self.n_players - p,
        {
            let m = player_mask_of(&self.chars, p);
            let mut b: usize = 0;
            while b < NBOSSES
                invariant
                    self.wf(),
                    p < self.n_players,
                    b <= NBOSSES,
                    m@ == player_mask(self.chars@, p as int),
                    cs@.len() == p * NBOSSES + b,
                    forall|j: int| 0 <= j < cs@.len() ==> (#[trigger] cs@[j])@ == self.alt_part()[j],
                decreases NBOSSES - b,
            {
                let ghost j = cs@.len() as int;
                cs.push(column_constraint(&m, b, Cmp::AtMost, 1));
                assert(j / NBOSSES as int == p && j % NBOSSES as int == b);
                b = b + 1;
            }
            p = p + 1;
        }
        cs
    }

    fn vault_constraints(&self) -> (cs: Vec<Constraint>)
        requires
            self.wf(),
        ensures
            builds(cs@, self.vault_part()),
    {
        let n = self.chars.len();
        let mut cs: Vec<Constraint> = Vec::new();
        let mut c: usize = 0;
        while c < n
            invariant
                self.wf(),
                n == self.n_chars(),
                c <= n,
                cs@.len() == c * NTIERS,
                forall|j: int| 0 <= j < cs@.len() ==> (#[trigger] cs@[j])@ == self.vault_part()[j],
            decreases n - c,
        {
            let mut k: usize = 0;
            while k < NTIERS
                invariant
                    self.wf(),
                    n == self.n_chars(),
                    c < n,
                    k <= NTIERS,
                    cs@.len() == c * NTIERS + k,
                    forall|j: int| 0 <= j < cs@.len() ==> (#[trigger] cs@[j])@ == self.vault_part()[j],
                decreases NTIERS - k,
            {
                let ghost j = cs@.len() as int;
                cs.push(vault_constraint(c, k, n));
                assert(j / NTIERS as int == c && j % NTIERS as int == k);
                k = k + 1;
            }
            c = c + 1;
        }
        cs
    }

    fn size_constraints(&self) -> (cs: Vec<Constraint>)
        requires
            self.wf(),
        ensures
            builds(cs@, self.size_part()),
    {
        let m = full_mask_of(self.chars.len());
        let mut cs: Vec<Constraint> = Vec::new();
        let mut b: usize = 0;
        while b < NBOSSES
            invariant
                self.wf(),
                b <= NBOSSES,
                m@ == full_mask(self.n_chars()),
                cs@.len() == b,
                forall|j: int| 0 <= j < cs@.len() ==> (#[trigger] cs@[j])@ == self.size_part()[j],
            decreases NBOSSES - b,
        {
            cs.push(column_constraint(&m, b, Cmp::Equal, self.roster_size));
            b = b + 1;
        }
        cs
    }

    fn requirement_constraints(&self) -> (cs: Vec<Constraint>)
        requires
            self.wf(),
        ensures
            builds(cs@, self.requirement_part()),
    {
        let mut cs: Vec<Constraint> = Vec::new();
        let mut q: usize = 0;
        while q < self.requirements.len()
            invariant
                self.wf(),
                q <= self.requirements@.len(),
                cs@.len() == q * NBOSSES,
                forall|j: int|
                    0 <= j < cs@.len() ==> (#[trigger] cs@[j])@ == self.requirement_part()[j],
            decreases self.requirements@.len() - q,
        {
            let req = &self.requirements[q];
            let m = role_mask_of(&self.chars, req.role);
            let mut b: usize = 0;
            while b < NBOSSES
                invariant
                    self.wf(),
                    q < self.requirements@.len(),
                    req == self.requirements@[q as int],
                    b <= NBOSSES,
                    m@ == role_mask(self.chars@, req.role),
                    cs@.len() == q * NBOSSES + b,
                    forall|j: int|
                        0 <= j < cs@.len() ==> (#[trigger] cs@[j])@ == self.requirement_part()[j],
                decreases NBOSSES - b,
            {
                let ghost j = cs@.len() as int;
                cs.push(column_constraint(&m, b, req.cmp, req.counts[b]));
                assert(j / NBOSSES as int == q && j % NBOSSES as int == b);
                b = b + 1;
            }
            q = q + 1;
        }
        cs
    }

    fn lock_constraints(&self) -> (cs: Vec<Constraint>)
        requires
            self.wf(),
        ensures
            builds(cs@, self.lock_part()),
    {
        let mut cs: Vec<Constraint> = Vec::new();
        let mut l: usize = 0;
        while l < self.locks.len()
            invariant
                self.wf(),
                l <= self.locks@.len(),
                cs@.len() == l,
                forall|j: int| 0 <= j < cs@.len() ==> (#[trigger] cs@[j])@ == self.lock_part()[j],
            decreases self.locks@.len() - l,
        {
            let lk = self.locks[l];
            cs.push(lock_constraint(lk.character, lk.boss, self.chars.len()));
            l = l + 1;
        }
        cs
    }
}

impl Roster {
    /// Every variable that a constraint of the roster mentions exists.
    pub proof fn lemma_vars_in_range(&self)
        requires
            self.wf(),
        ensures
            vars_below(self.spec_constraints(), (self.n_chars() * STRIDE) as nat),
    {
        let n = self.n_chars();
        let nv = (n * STRIDE) as nat;
        assert forall|j: int, t: int|
            0 <= j < self.alt_part().len() && 0 <= t < self.alt_part()[j].terms.len() implies (
            #[trigger] self.alt_part()[j].terms[t]).var < nv by {
            lemma_mask_terms_vars(
                player_mask(self.chars@, j / NBOSSES as int),
                j % NBOSSES as int,
                n,
                n,
            );
        }
        assert forall|j: int, t: int|
            0 <= j < self.vault_part().len() && 0 <= t < self.vault_part()[j].terms.len() implies (
            #[trigger] self.vault_part()[j].terms[t]).var < nv by {
            lemma_row_terms_vars(j / NTIERS as int, NBOSSES as nat, n);
            let rt = row_terms(j / NTIERS as int, NBOSSES as nat);
            if t < rt.len() {
                assert(self.vault_part()[j].terms[t] == rt[t]);
            }
        }
        assert forall|j: int, t: int|
            0 <= j < self.size_part().len() && 0 <= t < self.size_part()[j].terms.len() implies (
            #[trigger] self.size_part()[j].terms[t]).var < nv by {
            lemma_mask_terms_vars(full_mask(n), j, n, n);
        }
        assert forall|j: int, t: int|
            0 <= j < self.requirement_part().len() && 0 <= t
                < self.requirement_part()[j].terms.len() implies (
            #[trigger] self.requirement_part()[j].terms[t]).var < nv by {
            let q = self.requirements@[j / NBOSSES as int];
            lemma_mask_terms_vars(role_mask(self.chars@, q.role), j % NBOSSES as int, n, n);
        }
        assert forall|j: int, t: int|
            0 <= j < self.lock_part().len() && 0 <= t < self.lock_part()[j].terms.len() implies (
            #[trigger] self.lock_part()[j].terms[t]).var < nv by {
            let lk = self.locks@[j];
            assert(self.wf() ==> lk.character < n && lk.boss < NBOSSES);
        }
        lemma_vars_below_concat(self.alt_part(), self.vault_part(), nv);
        lemma_vars_below_concat(self.alt_part() + self.vault_part(), self.size_part(), nv);
        lemma_vars_below_concat(
            self.alt_part() + self.vault_part() + self.size_part(),
            self.requirement_part(),
            nv,
        );
        lemma_vars_below_concat(
            self.alt_part() + self.vault_part() + self.size_part() + self.requirement_part(),
            self.lock_part(),
            nv,
        );
    }

    /// The 0/1 program for this roster: one boss variable per character and boss,
    /// one tier variable per character and tier, the objective summing the tier
    /// variables, and every constraint of `spec_constraints`.
    pub fn model(&self) -> (m: Model)
        requires
            self.wf(),
        ensures
            m.wf(),
            m.n_vars == self.n_chars() * STRIDE,
            m.spec_constraints() == self.spec_constraints(),
            m.objective@ == self.spec_objective(),
    {
        let mut cs = self.alt_constraints();
        let mut vault = self.vault_constraints();
        let mut size = self.size_constraints();
        let mut reqs = self.requirement_constraints();
        let mut locks = self.lock_constraints();
        let ghost c1 = cs@;
        let ghost c2 = vault@;
        let ghost c3 = size@;
        let ghost c4 = reqs@;
        let ghost c5 = locks@;
        cs.append(&mut vault);
        cs.append(&mut size);
        cs.append(&mut reqs);
        cs.append(&mut locks);
        let n = self.chars.len();
        let mut objective: Vec<usize> = Vec::new();
        let mut c: usize = 0;
        while c < n
            invariant
                self.wf(),
                n == self.n_chars(),
                c <= n,
                objective@.len() == c * NTIERS,
                forall|j: int|
                    0 <= j < objective@.len() ==> #[trigger] objective@[j] == self.spec_objective()[j],
            decreases n - c,
        {
            let mut k: usize = 0;
            while k < NTIERS
                invariant
                    self.wf(),
                    n == self.n_chars(),
                    c < n,
                    k <= NTIERS,
                    objective@.len() == c * NTIERS + k,
                    forall|j: int|
                        0 <= j < objective@.len() ==> #[trigger] objective@[j]
                            == self.spec_objective()[j],
                decreases NTIERS - k,
            {
                let ghost j = objective@.len() as int;
                objective.push(c * STRIDE + NBOSSES + k);
                assert(j / NTIERS as int == c && j % NTIERS as int == k);
                k = k + 1;
            }
            c = c + 1;
        }
        assert(objective@ =~= self.spec_objective());
        let m = Model { n_vars: n * STRIDE, objective, constraints: cs };
        proof {
            assert(m.constraints@ == c1 + c2 + c3 + c4 + c5);
            assert(m.spec_constraints() =~= self.spec_constraints()) by {
                let all = self.spec_constraints();
                assert forall|j: int| 0 <= j < all.len() implies #[trigger] m.spec_constraints()[j]
                    == all[j] by {
                    let l1 = c1.len() as int;
                    let l2 = l1 + c2.len();
                    let l3 = l2 + c3.len();
                    let l4 = l3 + c4.len();
                    if j < l1 {
                        assert(m.constraints@[j] == c1[j]);
                    } else if j < l2 {
                        assert(m.constraints@[j] == c2[j - l1]);
                    } else if j < l3 {
                        assert(m.constraints@[j] == c3[j - l2]);
                    } else if j < l4 {
                        assert(m.constraints@[j] == c4[j - l3]);
                    } else {
                        assert(m.constraints@[j] == c5[j - l4]);
                    }
                }
            }
            self.lemma_vars_in_range();
        }
        m
    }
}

} // verus!
