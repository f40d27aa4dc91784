use vstd::prelude::*;

use crate::model::{lhs, lemma_lhs_push, Cmp, Constraint, LinearSpec, Term};

verus! {

/// Number of weekly boss encounters.
pub const NBOSSES: usize = 10;

/// Number of reward tiers.
pub const NTIERS: usize = 3;

/// Bosses needed per reward tier: tier `k` needs `TIER_STEP * (k + 1)`.
pub const TIER_STEP: usize = 3;

/// Variables owned by one character: its boss variables, then its tier variables.
pub const STRIDE: usize = 13;

/// Variable that says character `c` is scheduled for boss `b`.
pub open spec fn boss_var(c: int, b: int) -> int {
    c * STRIDE + b
}

/// Variable that says character `c` earns reward tier `k`.
pub open spec fn tier_var(c: int, k: int) -> int {
    c * STRIDE + NBOSSES + k
}

/// Bosses a character must be scheduled for to earn tier `k`.
pub open spec fn threshold(k: int) -> int {
    TIER_STEP * (k + 1)
}

/// Terms `1 * boss_var(c, b)` for the characters `c < n` selected by `m`.
pub open spec fn mask_terms(m: Seq<bool>, b: int, n: nat) -> Seq<Term>
    decreases n,
{
    if n == 0 {
        Seq::empty()
    } else if m[n - 1] {
        mask_terms(m, b, (n - 1) as nat).push(Term { var: boss_var(n - 1, b) as usize, coef: 1 })
    } else {
        mask_terms(m, b, (n - 1) as nat)
    }
}

/// Headcount of the characters selected by `m` at boss `b`, compared with `rhs`.
pub open spec fn column_spec(m: Seq<bool>, b: int, cmp: Cmp, rhs: int) -> LinearSpec {
    LinearSpec { terms: mask_terms(m, b, m.len()), cmp, rhs }
}

/// Terms `-1 * boss_var(c, b)` for the bosses `b < n`.
pub open spec fn row_terms(c: int, n: nat) -> Seq<Term>
    decreases n,
{
    if n == 0 {
        Seq::empty()
    } else {
        row_terms(c, (n - 1) as nat).push(Term { var: boss_var(c, n - 1) as usize, coef: -1i32 })
    }
}

/// `threshold(k) * tier_var(c, k) - sum of c's boss variables <= 0`.
pub open spec fn vault_spec(c: int, k: int) -> LinearSpec {
    LinearSpec {
        terms: row_terms(c, NBOSSES as nat).push(
            Term { var: tier_var(c, k) as usize, coef: threshold(k) as i32 },
        ),
        cmp: Cmp::AtMost,
        rhs: 0,
    }
}

/// `boss_var(c, b) == 1`.
pub open spec fn lock_spec(c: int, b: int) -> LinearSpec {
    LinearSpec {
        terms: seq![Term { var: boss_var(c, b) as usize, coef: 1 }],
        cmp: Cmp::Equal,
        rhs: 1,
    }
}

/// The boss row of character `c` under assignment `a`.
pub open spec fn decode_row(a: Seq<bool>, c: int) -> Seq<bool> {
    Seq::new(NBOSSES as nat, |b: int| a[boss_var(c, b)])
}

/// The tier row of character `c` under assignment `a`.
pub open spec fn decode_tiers(a: Seq<bool>, c: int) -> Seq<bool> {
    Seq::new(NTIERS as nat, |k: int| a[tier_var(c, k)])
}

/// The boss rows of the first `n` characters.
pub open spec fn schedule_of(a: Seq<bool>, n: nat) -> Seq<Seq<bool>> {
    Seq::new(n, |c: int| decode_row(a, c))
}

/// Number of the first `n` rows selected by `m` that are true at column `b`.
pub open spec fn count_col(rows: Seq<Seq<bool>>, m: Seq<bool>, b: int, n: nat) -> nat
    decreases n,
{
    if n == 0 {
        0
    } else {
        count_col(rows, m, b, (n - 1) as nat) + if m[n - 1] && rows[n - 1][b] {
            1nat
        } else {
            0nat
        }
    }
}

/// Number of the first `n` entries of `m` that are true.
pub open spec fn count_mask(m: Seq<bool>, n: nat) -> nat
    decreases n,
{
    if n == 0 {
        0
    } else {
        count_mask(m, (n - 1) as nat) + if m[n - 1] {
            1nat
        } else {
            0nat
        }
    }
}

/// Number of the first `n` entries of a row that are true.
pub open spec fn row_count(row: Seq<bool>, n: nat) -> nat
    decreases n,
{
    if n == 0 {
        0
    } else {
        row_count(row, (n - 1) as nat) + if row[n - 1] {
            1nat
        } else {
            0nat
        }
    }
}

pub proof fn lemma_mask_terms_vars(m: Seq<bool>, b: int, n: nat, total: nat)
    requires
        0 <= b < NBOSSES,
        n <= total,
        total * STRIDE <= usize::MAX,
    ensures
        forall|t: int|
            0 <= t < mask_terms(m, b, n).len() ==> (#[trigger] mask_terms(m, b, n)[t]).var
                < total * STRIDE,
    decreases n,
{
    if n > 0 {
        lemma_mask_terms_vars(m, b, (n - 1) as nat, total);
        assert(0 <= boss_var(n - 1, b) < total * STRIDE);
        let prev = mask_terms(m, b, (n - 1) as nat);
        let t = Term { var: boss_var(n - 1, b) as usize, coef: 1 };
        assert forall|i: int| 0 <= i < prev.push(t).len() implies (#[trigger] prev.push(t)[i]).var
            < total * STRIDE by {
            if i < prev.len() {
                assert(prev.push(t)[i] == prev[i]);
            }
        }
    }
}

pub proof fn lemma_row_terms_vars(c: int, n: nat, total: nat)
    requires
        0 <= c < total,
        n <= NBOSSES,
        total * STRIDE <= usize::MAX,
    ensures
        row_terms(c, n).len() == n,
        forall|t: int|
            0 <= t < row_terms(c, n).len() ==> (#[trigger] row_terms(c, n)[t]).var < total
                * STRIDE,
    decreases n,
{
    if n > 0 {
        lemma_row_terms_vars(c, (n - 1) as nat, total);
    }
}

/// The selected headcount constraint evaluates to the selected column count.
pub proof fn lemma_mask_terms_count(m: Seq<bool>, b: int, n: nat, a: Seq<bool>, total: nat)
    requires
        0 <= b < NBOSSES,
        n <= total,
        total * STRIDE <= usize::MAX,
        a.len() == total * STRIDE,
    ensures
        lhs(mask_terms(m, b, n), a) == count_col(schedule_of(a, total), m, b, n),
    decreases n,
{
    if n > 0 {
        let k = (n - 1) as nat;
        lemma_mask_terms_count(m, b, k, a, total);
        if m[k as int] {
            lemma_lhs_push(
                mask_terms(m, b, k),
                Term { var: boss_var(k as int, b) as usize, coef: 1 },
                a,
            );
        }
    }
}

/// The row terms evaluate to minus the row count.
pub proof fn lemma_row_terms_count(c: int, n: nat, a: Seq<bool>, total: nat)
    requires
        0 <= c < total,
        n <= NBOSSES,
        total * STRIDE <= usize::MAX,
        a.len() == total * STRIDE,
    ensures
        lhs(row_terms(c, n), a) == -(row_count(decode_row(a, c), n) as int),
    decreases n,
{
    if n > 0 {
        let k = (n - 1) as nat;
        lemma_row_terms_count(c, k, a, total);
        lemma_lhs_push(row_terms(c, k), Term { var: boss_var(c, k as int) as usize, coef: -1i32 }, a);
    }
}

/// A count over selected rows never exceeds the number selected.
pub proof fn lemma_count_col_le_mask(rows: Seq<Seq<bool>>, m: Seq<bool>, b: int, n: nat)
    ensures
        count_col(rows, m, b, n) <= count_mask(m, n),
    decreases n,
{
    if n > 0 {
        lemma_count_col_le_mask(rows, m, b, (n - 1) as nat);
    }
}

/// The headcount constraint over the characters selected by `m`.
pub fn column_constraint(m: &Vec<bool>, b: usize, cmp: Cmp, rhs: i32) -> (r: Constraint)
    requires
        b < NBOSSES,
        m@.len() * STRIDE <= usize::MAX,
    ensures
        r@ == column_spec(m@, b as int, cmp, rhs as int),
{
    let mut terms: Vec<Term> = Vec::new();
    let mut c: usize = 0;
    while c < m.len()
        invariant
            b < NBOSSES,
            m@.len() * STRIDE <= usize::MAX,
            c <= m@.len(),
            terms@ == mask_terms(m@, b as int, c as nat),
        decreases m@.len() - c,
    {
        if m[c] {
            terms.push(Term { var: c * STRIDE + b, coef: 1 });
        }
        c = c + 1;
    }
    Constraint { terms, cmp, rhs }
}

/// The constraint that lets character `c` earn tier `k` only with enough bosses.
pub fn vault_constraint(c: usize, k: usize, total: usize) -> (r: Constraint)
    requires
        c < total,
        k < NTIERS,
        total * STRIDE <= usize::MAX,
    ensures
        r@ == vault_spec(c as int, k as int),
{
    let mut terms: Vec<Term> = Vec::new();
    let mut b: usize = 0;
    while b < NBOSSES
        invariant
            c < total,
            k < NTIERS,
            total * STRIDE <= usize::MAX,
            b <= NBOSSES,
            terms@ == row_terms(c as int, b as nat),
        decreases NBOSSES - b,
    {
        terms.push(Term { var: c * STRIDE + b, coef: -1i32 });
        b = b + 1;
    }
    terms.push(Term { var: c * STRIDE + NBOSSES + k, coef: (TIER_STEP * (k + 1)) as i32 });
    Constraint { terms, cmp: Cmp::AtMost, rhs: 0 }
}

/// The constraint that pins character `c` to boss `b`.
pub fn lock_constraint(c: usize, b: usize, total: usize) -> (r: Constraint)
    requires
        c < total,
        b < NBOSSES,
        total * STRIDE <= usize::MAX,
    ensures
        r@ == lock_spec(c as int, b as int),
{
    let terms = vec![Term { var: c * STRIDE + b, coef: 1 }];
    assert(terms@ =~= seq![Term { var: boss_var(c as int, b as int) as usize, coef: 1 }]);
    Constraint { terms, cmp: Cmp::Equal, rhs: 1 }
}

} // verus!
