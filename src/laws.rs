use vstd::prelude::*;

use crate::layout::{
    boss_var, mask_terms, count_col, count_mask, decode_row, decode_tiers, lemma_count_col_le_mask,
    lemma_mask_terms_count, lemma_row_terms_count, row_count, row_terms, schedule_of, threshold,
    tier_var, NBOSSES, NTIERS, STRIDE,
};
use crate::model::{compares, holds, lhs, lemma_lhs_push, lemma_satisfies_concat, satisfies, val, Cmp, Term};
use crate::schedule_model::{full_mask, player_mask, role_mask};
use crate::roster::{decoded, Char, Roster, ScheduleRow};

verus! {

/// An assignment that meets the whole model meets each family of constraints.
pub proof fn lemma_satisfies_parts(r: &Roster, a: Seq<bool>)
    requires
        satisfies(r.spec_constraints(), a),
    ensures
        satisfies(r.alt_part(), a),
        satisfies(r.vault_part(), a),
        satisfies(r.size_part(), a),
        satisfies(r.requirement_part(), a),
        satisfies(r.lock_part(), a),
{
    let s1 = r.alt_part() + r.vault_part();
    let s2 = s1 + r.size_part();
    let s3 = s2 + r.requirement_part();
    lemma_satisfies_concat(s3, r.lock_part(), a);
    lemma_satisfies_concat(s2, r.requirement_part(), a);
    lemma_satisfies_concat(s1, r.size_part(), a);
    lemma_satisfies_concat(r.alt_part(), r.vault_part(), a);
}

/// Under an accepted assignment every boss has exactly `roster_size` characters.
pub proof fn lemma_roster_size(r: &Roster, a: Seq<bool>)
    requires
        r.wf(),
        a.len() == r.n_chars() * STRIDE,
        satisfies(r.spec_constraints(), a),
    ensures
        forall|b: int|
            0 <= b < NBOSSES ==> #[trigger] count_col(
                schedule_of(a, r.n_chars()),
                full_mask(r.n_chars()),
                b,
                r.n_chars(),
            ) == r.roster_size,
{
    lemma_satisfies_parts(r, a);
    let n = r.n_chars();
    assert forall|b: int| 0 <= b < NBOSSES implies #[trigger] count_col(
        schedule_of(a, n),
        full_mask(n),
        b,
        n,
    ) == r.roster_size by {
        assert(holds(r.size_part()[b], a));
        lemma_mask_terms_count(full_mask(n), b, n, a, n);
    }
}

/// Under an accepted assignment no player has two characters at one boss.
pub proof fn lemma_alt_exclusive(r: &Roster, a: Seq<bool>)
    requires
        r.wf(),
        a.len() == r.n_chars() * STRIDE,
        satisfies(r.spec_constraints(), a),
    ensures
        forall|p: int, b: int|
            0 <= p < r.n_players && 0 <= b < NBOSSES ==> #[trigger] count_col(
                schedule_of(a, r.n_chars()),
                player_mask(r.chars@, p),
                b,
                r.n_chars(),
            ) <= 1,
{
    lemma_satisfies_parts(r, a);
    let n = r.n_chars();
    assert forall|p: int, b: int| 0 <= p < r.n_players && 0 <= b < NBOSSES implies #[trigger] count_col(
        schedule_of(a, n),
        player_mask(r.chars@, p),
        b,
        n,
    ) <= 1 by {
        let j = p * NBOSSES + b;
        assert(j / NBOSSES as int == p && j % NBOSSES as int == b);
        assert(holds(r.alt_part()[j], a));
        lemma_mask_terms_count(player_mask(r.chars@, p), b, n, a, n);
    }
}

/// Under an accepted assignment every requirement is met at every boss.
pub proof fn lemma_requirements_met(r: &Roster, a: Seq<bool>)
    requires
        r.wf(),
        a.len() == r.n_chars() * STRIDE,
        satisfies(r.spec_constraints(), a),
    ensures
        forall|q: int, b: int|
            0 <= q < r.requirements@.len() && 0 <= b < NBOSSES ==> compares(
                r.requirements@[q].cmp,
                #[trigger] count_col(
                    schedule_of(a, r.n_chars()),
                    role_mask(r.chars@, r.requirements@[q].role),
                    b,
                    r.n_chars(),
                ) as int,
                r.requirements@[q].counts@[b] as int,
            ),
{
    lemma_satisfies_parts(r, a);
    let n = r.n_chars();
    assert forall|q: int, b: int| 0 <= q < r.requirements@.len() && 0 <= b < NBOSSES implies compares(
        r.requirements@[q].cmp,
        #[trigger] count_col(
            schedule_of(a, n),
            role_mask(r.chars@, r.requirements@[q].role),
            b,
            n,
        ) as int,
        r.requirements@[q].counts@[b] as int,
    ) by {
        let j = q * NBOSSES + b;
        assert(j / NBOSSES as int == q && j % NBOSSES as int == b);
        assert(holds(r.requirement_part()[j], a));
        lemma_mask_terms_count(role_mask(r.chars@, r.requirements@[q].role), b, n, a, n);
    }
}

/// Under an accepted assignment a character earns tier `k` only when it is
/// scheduled for at least `threshold(k)` bosses; under three bosses it earns none.
pub proof fn lemma_vault_thresholds(r: &Roster, a: Seq<bool>)
    requires
        r.wf(),
        a.len() == r.n_chars() * STRIDE,
        satisfies(r.spec_constraints(), a),
    ensures
        forall|c: int, k: int|
            0 <= c < r.n_chars() && 0 <= k < NTIERS && #[trigger] decode_tiers(a, c)[k]
                ==> row_count(decode_row(a, c), NBOSSES as nat) >= threshold(k),
        forall|c: int, k: int|
            0 <= c < r.n_chars() && 0 <= k < NTIERS && row_count(
                decode_row(a, c),
                NBOSSES as nat,
            ) < threshold(0) ==> !#[trigger] decode_tiers(a, c)[k],
{
    lemma_satisfies_parts(r, a);
    let n = r.n_chars();
    assert forall|c: int, k: int|
        0 <= c < n && 0 <= k < NTIERS && #[trigger] decode_tiers(a, c)[k] implies row_count(
        decode_row(a, c),
        NBOSSES as nat,
    ) >= threshold(k) by {
        let j = c * NTIERS + k;
        assert(j / NTIERS as int == c && j % NTIERS as int == k);
        assert(holds(r.vault_part()[j], a));
        lemma_row_terms_count(c, NBOSSES as nat, a, n);
        lemma_lhs_push(
            row_terms(c, NBOSSES as nat),
            Term { var: tier_var(c, k) as usize, coef: threshold(k) as i32 },
            a,
        );
        assert(val(a, tier_var(c, k)) == 1);
    }
}

/// Under an accepted assignment every locked character is scheduled for its boss.
pub proof fn lemma_locks_hold(r: &Roster, a: Seq<bool>)
    requires
        r.wf(),
        a.len() == r.n_chars() * STRIDE,
        satisfies(r.spec_constraints(), a),
    ensures
        forall|l: int|
            0 <= l < r.locks@.len() ==> #[trigger] decode_row(
                a,
                r.locks@[l].character as int,
            )[r.locks@[l].boss as int],
{
    lemma_satisfies_parts(r, a);
    assert forall|l: int| 0 <= l < r.locks@.len() implies #[trigger] decode_row(
        a,
        r.locks@[l].character as int,
    )[r.locks@[l].boss as int] by {
        assert(holds(r.lock_part()[l], a));
        let lk = r.locks@[l];
        let t = Term { var: (lk.character * STRIDE + lk.boss) as usize, coef: 1 };
        lemma_lhs_push(Seq::empty(), t, a);
        assert(seq![t] == Seq::<Term>::empty().push(t));
    }
}

/// A requirement that asks for more characters with a role than the roster has
/// leaves no assignment that meets the model.
pub proof fn lemma_requirement_over_capacity(r: &Roster, q: int, b: int, a: Seq<bool>)
    requires
        r.wf(),
        0 <= q < r.requirements@.len(),
        0 <= b < NBOSSES,
        r.requirements@[q].cmp != Cmp::AtMost,
        r.requirements@[q].counts@[b] > count_mask(
            role_mask(r.chars@, r.requirements@[q].role),
            r.n_chars(),
        ),
        a.len() == r.n_chars() * STRIDE,
    ensures
        !satisfies(r.spec_constraints(), a),
{
    if satisfies(r.spec_constraints(), a) {
        lemma_requirements_met(r, a);
        let n = r.n_chars();
        let m = role_mask(r.chars@, r.requirements@[q].role);
        assert(compares(
            r.requirements@[q].cmp,
            count_col(schedule_of(a, n), m, b, n) as int,
            r.requirements@[q].counts@[b] as int,
        ));
        lemma_count_col_le_mask(schedule_of(a, n), m, b, n);
    }
}

/// `a` with every tier variable of character `c` set.
pub open spec fn with_all_tiers(a: Seq<bool>, c: int) -> Seq<bool> {
    Seq::new(
        a.len(),
        |v: int|
            if tier_var(c, 0) <= v < tier_var(c, NTIERS as int) {
                true
            } else {
                a[v]
            },
    )
}

proof fn lemma_mask_terms_same(m: Seq<bool>, b: int, n: nat, a: Seq<bool>, a2: Seq<bool>)
    requires
        forall|d: int| 0 <= d < n ==> #[trigger] a[boss_var(d, b)] == a2[boss_var(d, b)],
        forall|d: int| 0 <= d < n ==> 0 <= #[trigger] boss_var(d, b) <= usize::MAX,
    ensures
        lhs(mask_terms(m, b, n), a) == lhs(mask_terms(m, b, n), a2),
    decreases n,
{
    if n > 0 {
        let k = (n - 1) as nat;
        lemma_mask_terms_same(m, b, k, a, a2);
        if m[k as int] {
            let t = Term { var: boss_var(k as int, b) as usize, coef: 1 };
            lemma_lhs_push(mask_terms(m, b, k), t, a);
            lemma_lhs_push(mask_terms(m, b, k), t, a2);
            assert(a[boss_var(k as int, b)] == a2[boss_var(k as int, b)]);
        }
    }
}

/// A character scheduled for at least `threshold(NTIERS - 1)` bosses may claim
/// every tier: setting all its tier variables keeps every constraint met.
pub proof fn lemma_full_row_earns_all_tiers(r: &Roster, a: Seq<bool>, c: int)
    requires
        r.wf(),
        a.len() == r.n_chars() * STRIDE,
        satisfies(r.spec_constraints(), a),
        0 <= c < r.n_chars(),
        row_count(decode_row(a, c), NBOSSES as nat) >= threshold(NTIERS - 1),
    ensures
        satisfies(r.spec_constraints(), with_all_tiers(a, c)),
{
    let n = r.n_chars();
    let a2 = with_all_tiers(a, c);
    lemma_satisfies_parts(r, a);
    assert forall|d: int, b: int| 0 <= d < n && 0 <= b < NBOSSES implies #[trigger] a[boss_var(d, b)]
        == a2[boss_var(d, b)] by {
        assert(0 <= boss_var(d, b) < a.len());
    }
    assert(satisfies(r.alt_part(), a2)) by {
        assert forall|j: int| 0 <= j < r.alt_part().len() implies holds(#[trigger] r.alt_part()[j], a2) by {
            assert(holds(r.alt_part()[j], a));
            lemma_mask_terms_same(player_mask(r.chars@, j / NBOSSES as int), j % NBOSSES as int, n, a, a2);
        }
    }
    assert(satisfies(r.size_part(), a2)) by {
        assert forall|j: int| 0 <= j < r.size_part().len() implies holds(#[trigger] r.size_part()[j], a2) by {
            assert(holds(r.size_part()[j], a));
            lemma_mask_terms_same(full_mask(n), j, n, a, a2);
        }
    }
    assert(satisfies(r.requirement_part(), a2)) by {
        assert forall|j: int| 0 <= j < r.requirement_part().len() implies holds(#[trigger] r.requirement_part()[j], a2) by {
            assert(holds(r.requirement_part()[j], a));
            let q = r.requirements@[j / NBOSSES as int];
            lemma_mask_terms_same(role_mask(r.chars@, q.role), j % NBOSSES as int, n, a, a2);
        }
    }
    assert(satisfies(r.lock_part(), a2)) by {
        assert forall|j: int| 0 <= j < r.lock_part().len() implies holds(#[trigger] r.lock_part()[j], a2) by {
            assert(holds(r.lock_part()[j], a));
            let lk = r.locks@[j];
            let t = Term { var: boss_var(lk.character as int, lk.boss as int) as usize, coef: 1 };
            lemma_lhs_push(Seq::empty(), t, a);
            lemma_lhs_push(Seq::empty(), t, a2);
            assert(seq![t] == Seq::<Term>::empty().push(t));
            assert(a[boss_var(lk.character as int, lk.boss as int)] == a2[boss_var(lk.character as int, lk.boss as int)]);
        }
    }
    assert(satisfies(r.vault_part(), a2)) by {
        assert forall|j: int| 0 <= j < r.vault_part().len() implies holds(#[trigger] r.vault_part()[j], a2) by {
            let d = j / NTIERS as int;
            let k = j % NTIERS as int;
            assert(holds(r.vault_part()[j], a));
            assert(decode_row(a2, d) =~= decode_row(a, d));
            lemma_row_terms_count(d, NBOSSES as nat, a, n);
            lemma_row_terms_count(d, NBOSSES as nat, a2, n);
            let t = Term { var: tier_var(d, k) as usize, coef: threshold(k) as i32 };
            lemma_lhs_push(row_terms(d, NBOSSES as nat), t, a);
            lemma_lhs_push(row_terms(d, NBOSSES as nat), t, a2);
            if d != c {
                assert(a2[tier_var(d, k)] == a[tier_var(d, k)]);
            }
        }
    }
    lemma_satisfies_concat(r.alt_part(), r.vault_part(), a2);
    lemma_satisfies_concat(r.alt_part() + r.vault_part(), r.size_part(), a2);
    lemma_satisfies_concat(r.alt_part() + r.vault_part() + r.size_part(), r.requirement_part(), a2);
    lemma_satisfies_concat(
        r.alt_part() + r.vault_part() + r.size_part() + r.requirement_part(),
        r.lock_part(),
        a2,
    );
}

/// Decoding is a function of the registry and the assignment alone: two
/// decodings of one assignment agree row for row.
pub proof fn lemma_decode_deterministic(
    rows1: Seq<ScheduleRow>,
    rows2: Seq<ScheduleRow>,
    chars: Seq<Char>,
    a: Seq<bool>,
)
    requires
        decoded(rows1, chars, a),
        decoded(rows2, chars, a),
    ensures
        rows1.len() == rows2.len(),
        forall|c: int|
            0 <= c < rows1.len() ==> (#[trigger] rows1[c]).name@ == rows2[c].name@
                && rows1[c].bosses@ == rows2[c].bosses@ && rows1[c].tiers@ == rows2[c].tiers@,
{
    assert forall|c: int| 0 <= c < rows1.len() implies (#[trigger] rows1[c]).name@ == rows2[c].name@
        && rows1[c].bosses@ == rows2[c].bosses@ && rows1[c].tiers@ == rows2[c].tiers@ by {
        assert(rows2[c].name@ == chars[c].name@);
    }
}

/// The boss rows of a decoded schedule are the rows of `schedule_of`, which the
/// other laws speak of.
pub proof fn lemma_rows_are_schedule(rows: Seq<ScheduleRow>, chars: Seq<Char>, a: Seq<bool>)
    requires
        decoded(rows, chars, a),
    ensures
        forall|c: int|
            0 <= c < rows.len() ==> (#[trigger] rows[c]).bosses@ == schedule_of(a, chars.len())[c],
{
}

} // verus!
