use raid_roster::error::RosterError;
use raid_roster::layout::{NBOSSES, NTIERS, STRIDE};
use raid_roster::model::{evaluate, Cmp, Constraint, Model, Term};
use raid_roster::order::{by_name, name_le_exec};
use raid_roster::role::Role;
use raid_roster::roster::{get_roles, group_entries, CharSpec, Roster, SolveOutcome};

fn entry(name: &str, class: &str, role: &str) -> CharSpec {
    CharSpec { name: name.to_string(), class: class.to_string(), role: role.to_string() }
}

fn three_singles() -> Vec<Vec<CharSpec>> {
    vec![
        vec![entry("Tank", "WA", "TANK")],
        vec![entry("Healer", "PR", "HEALER")],
        vec![entry("Dps", "MA", "RANGED")],
    ]
}

fn boss(c: usize, b: usize) -> usize {
    c * STRIDE + b
}

fn tier(c: usize, k: usize) -> usize {
    c * STRIDE + NBOSSES + k
}

#[test]
fn role_tokens_round_trip() {
    let all = [
        Role::DH, Role::DK, Role::DR, Role::HU, Role::MA, Role::MO, Role::PA, Role::PR,
        Role::RO, Role::SH, Role::WA, Role::WL, Role::TANK, Role::HEALER, Role::RANGED,
        Role::MELEE,
    ];
    for (i, r) in all.iter().enumerate() {
        assert_eq!(r.index(), i);
        assert_eq!(Role::from_token(&r.token()).unwrap(), *r);
    }
    assert_eq!(Role::HEALER.token(), "HEALER");
}

#[test]
fn unknown_role_token_is_an_error() {
    match Role::from_token(&"DPS".to_string()) {
        Err(RosterError::UnknownRole(t)) => assert_eq!(t, "DPS"),
        other => panic!("unexpected {:?}", other),
    }
    match Role::from_token(&"tank".to_string()) {
        Err(RosterError::UnknownRole(t)) => assert_eq!(t, "tank"),
        other => panic!("unexpected {:?}", other),
    }
}

#[test]
fn get_roles_sets_class_and_role_flags() {
    let v = get_roles(&"DK".to_string(), &"TANK".to_string()).unwrap();
    assert_eq!(v.len(), 16);
    for i in 0..16 {
        assert_eq!(v[i], i == 1 || i == 12);
    }
    match get_roles(&"DK".to_string(), &"T".to_string()) {
        Err(RosterError::UnknownRole(t)) => assert_eq!(t, "T"),
        other => panic!("unexpected {:?}", other),
    }
    match get_roles(&"XX".to_string(), &"T".to_string()) {
        Err(RosterError::UnknownRole(t)) => assert_eq!(t, "XX"),
        other => panic!("unexpected {:?}", other),
    }
}

#[test]
fn registration_assigns_sequential_indices() {
    let players = vec![
        vec![entry("Toriees", "DK", "TANK"), entry("Furiees", "DR", "TANK")],
        vec![],
        vec![entry("Foghammar", "SH", "HEALER")],
    ];
    let r = Roster::new(&players).unwrap();
    assert_eq!(r.chars.len(), 3);
    assert_eq!(r.n_players, 3);
    assert_eq!(r.roster_size, 20);
    let names: Vec<&str> = r.chars.iter().map(|c| c.name.as_str()).collect();
    assert_eq!(names, vec!["Toriees", "Furiees", "Foghammar"]);
    let owners: Vec<usize> = r.chars.iter().map(|c| c.player).collect();
    assert_eq!(owners, vec![0, 0, 2]);
    assert!(r.chars[2].roles[9] && r.chars[2].roles[13]);
    assert_eq!(r.find_char(&"Furiees".to_string()), Some(1));
    assert_eq!(r.find_char(&"Nobody".to_string()), None);
}

#[test]
fn registration_reports_first_unknown_token() {
    let players = vec![
        vec![entry("A", "DK", "TANK")],
        vec![entry("B", "DK", "T"), entry("C", "QQ", "HEALER")],
    ];
    match Roster::new(&players) {
        Err(RosterError::UnknownRole(t)) => assert_eq!(t, "T"),
        other => panic!("unexpected {:?}", other.map(|r| r.chars.len())),
    }
}

#[test]
fn model_shape() {
    let players = vec![
        vec![entry("A", "DK", "TANK"), entry("B", "DR", "TANK")],
        vec![entry("C", "PR", "HEALER")],
    ];
    let mut r = Roster::new(&players).unwrap();
    r.add_role_constraint_equal(Role::TANK, &[1; 10]).unwrap();
    r.lock(2, 4).unwrap();
    let m = r.model();
    assert_eq!(m.n_vars, 3 * 13);
    // alt: 2 players x 10, vault: 3 x 3, size: 10, requirement: 10, lock: 1
    assert_eq!(m.constraints.len(), 20 + 9 + 10 + 10 + 1);
    assert_eq!(m.objective, vec![10, 11, 12, 23, 24, 25, 36, 37, 38]);
    let alt = &m.constraints[0];
    assert_eq!(alt.cmp, Cmp::AtMost);
    assert_eq!(alt.rhs, 1);
    assert_eq!(alt.terms, vec![Term { var: 0, coef: 1 }, Term { var: 13, coef: 1 }]);
    let vault = &m.constraints[20 + 2];
    assert_eq!(vault.cmp, Cmp::AtMost);
    assert_eq!(vault.rhs, 0);
    assert_eq!(vault.terms.len(), 11);
    assert_eq!(vault.terms[10], Term { var: 12, coef: 9 });
    assert_eq!(vault.terms[3], Term { var: 3, coef: -1 });
    let size = &m.constraints[29 + 5];
    assert_eq!(size.cmp, Cmp::Equal);
    assert_eq!(size.rhs, 20);
    assert_eq!(size.terms.len(), 3);
    let req = &m.constraints[39 + 7];
    assert_eq!(req.cmp, Cmp::Equal);
    assert_eq!(req.terms, vec![Term { var: 7, coef: 1 }, Term { var: 20, coef: 1 }]);
    let lock = &m.constraints[49];
    assert_eq!(lock.terms, vec![Term { var: boss(2, 4), coef: 1 }]);
    assert_eq!((lock.cmp, lock.rhs), (Cmp::Equal, 1));
}

#[test]
fn evaluate_is_exact() {
    let terms = vec![Term { var: 0, coef: 3 }, Term { var: 1, coef: -1 }, Term { var: 2, coef: -1 }];
    assert_eq!(evaluate(&terms, &vec![true, true, false]), 2);
    assert_eq!(evaluate(&terms, &vec![false, true, true]), -2);
    assert_eq!(evaluate(&vec![], &vec![true]), 0);
    let c = Constraint { terms, cmp: Cmp::AtMost, rhs: 0 };
    assert!(!c.is_met(&vec![true, true, false]));
    assert!(!c.is_met(&vec![true, true, true]));
    assert!(c.is_met(&vec![false, true, true]));
    let m = Model { n_vars: 3, objective: vec![0], constraints: vec![c] };
    assert!(m.is_feasible(&vec![false, false, false]));
    assert!(!m.is_feasible(&vec![false, false]));
    assert!(!m.is_feasible(&vec![true, false, false]));
}

fn end_to_end_roster(size: i32) -> Roster {
    let mut r = Roster::with_roster_size(&three_singles(), size).unwrap();
    r.add_role_constraint(Role::TANK, Cmp::Equal, &[1; 10]).unwrap();
    r.add_role_constraint(Role::HEALER, Cmp::Equal, &[1; 10]).unwrap();
    r.add_role_constraint(Role::RANGED, Cmp::AtLeast, &[1; 10]).unwrap();
    r
}

#[test]
fn end_to_end_everyone_everywhere() {
    let mut r = end_to_end_roster(3);
    let a = vec![true; 3 * STRIDE];
    let rows = r.accept_solution(SolveOutcome::Solved(a)).unwrap();
    assert!(r.solved);
    assert_eq!(rows.len(), 3);
    assert_eq!(rows[0].name, "Tank");
    assert_eq!(rows[1].name, "Healer");
    assert_eq!(rows[2].name, "Dps");
    for row in rows.iter() {
        assert_eq!(row.bosses, vec![true; NBOSSES]);
        assert_eq!(row.tiers, vec![true; NTIERS]);
    }
}

#[test]
fn end_to_end_roster_of_one_rejects_full_schedule() {
    let mut r = end_to_end_roster(1);
    let a = vec![true; 3 * STRIDE];
    match r.accept_solution(SolveOutcome::Solved(a)) {
        Err(RosterError::Solver) => {}
        other => panic!("unexpected {:?}", other),
    }
    assert!(!r.solved);
}

#[test]
fn two_healers_with_one_healer_is_infeasible() {
    let mut r = Roster::with_roster_size(&three_singles(), 2).unwrap();
    let mut counts = [0; 10];
    counts[3] = 2;
    r.add_role_constraint_equal(Role::HEALER, &counts).unwrap();
    match r.accept_solution(SolveOutcome::Infeasible) {
        Err(RosterError::Infeasible) => {}
        other => panic!("unexpected {:?}", other),
    }
    // no assignment of the boss variables can be accepted either
    for mask in 0u32..8 {
        let mut a = vec![false; 3 * STRIDE];
        for c in 0..3 {
            for b in 0..NBOSSES {
                a[boss(c, b)] = (mask >> c) & 1 == 1;
            }
        }
        assert!(!r.model().is_feasible(&a));
    }
    assert!(!r.solved);
}

#[test]
fn failed_solve_is_reported() {
    let mut r = end_to_end_roster(3);
    match r.accept_solution(SolveOutcome::Failed) {
        Err(RosterError::Solver) => {}
        other => panic!("unexpected {:?}", other),
    }
    match r.accept_solution(SolveOutcome::Solved(vec![true; 5])) {
        Err(RosterError::Solver) => {}
        other => panic!("unexpected {:?}", other),
    }
}

#[test]
fn roster_size_and_alts_are_enforced() {
    // player 0 has two alts; roster size 1 per boss
    let players = vec![
        vec![entry("Main", "PA", "HEALER"), entry("Alt", "DK", "MELEE")],
        vec![entry("Other", "HU", "RANGED")],
    ];
    let r = Roster::with_roster_size(&players, 1).unwrap();
    let m = r.model();
    // Main takes bosses 0-4, Other bosses 5-9
    let mut a = vec![false; 3 * STRIDE];
    for b in 0..5 {
        a[boss(0, b)] = true;
    }
    for b in 5..10 {
        a[boss(2, b)] = true;
    }
    a[tier(0, 0)] = true;
    a[tier(2, 0)] = true;
    assert!(m.is_feasible(&a));
    // Alt takes Other's place at boss 5
    let mut b = a.clone();
    b[boss(2, 5)] = false;
    b[boss(1, 5)] = true;
    assert!(m.is_feasible(&b));
    // Alt joins Main at boss 0
    let mut c = a.clone();
    c[boss(1, 0)] = true;
    assert!(!m.is_feasible(&c));
    // a tier claimed without enough bosses
    let mut d = a.clone();
    d[tier(0, 1)] = true;
    assert!(!m.is_feasible(&d));
    // nobody at boss 9
    let mut e = a.clone();
    e[boss(2, 9)] = false;
    assert!(!m.is_feasible(&e));
}

#[test]
fn alt_exclusivity_alone() {
    let players = vec![
        vec![entry("Main", "PA", "HEALER"), entry("Alt", "DK", "MELEE")],
        vec![entry("Other", "HU", "RANGED")],
    ];
    let r = Roster::with_roster_size(&players, 2).unwrap();
    let m = r.model();
    let mut a = vec![false; 3 * STRIDE];
    for b in 0..10 {
        a[boss(if b % 2 == 0 { 0 } else { 1 }, b)] = true;
        a[boss(2, b)] = true;
    }
    assert!(m.is_feasible(&a));
    let mut two = a.clone();
    two[boss(1, 0)] = true;
    two[boss(2, 0)] = false;
    assert!(!m.is_feasible(&two));
}

#[test]
fn vault_tiers_follow_boss_count() {
    let players = vec![vec![entry("Solo", "MO", "MELEE")]];
    let r = Roster::with_roster_size(&players, 1).unwrap();
    let m = r.model();
    let mut a = vec![true; STRIDE];
    assert!(m.is_feasible(&a));
    let rows = r.decode(&a);
    assert_eq!(rows[0].tiers, vec![true, true, true]);
    // with roster size 1 every boss needs Solo, so a missing boss is infeasible
    a[boss(0, 0)] = false;
    assert!(!m.is_feasible(&a));
    let mut r2 = Roster::with_roster_size(&players, 1).unwrap();
    r2.add_role_constraint_le(Role::MELEE, &[1; 10]).unwrap();
    assert_eq!(r2.requirements.len(), 1);
    assert_eq!(r2.requirements[0].cmp, Cmp::AtMost);
}

#[test]
fn vault_thresholds_three_six_nine() {
    let players = vec![vec![entry("Solo", "MO", "MELEE")], vec![entry("Two", "RO", "MELEE")]];
    let r = Roster::with_roster_size(&players, 1).unwrap();
    let m = r.model();
    for count in 0..=10usize {
        for k in 0..3usize {
            let mut a = vec![false; 2 * STRIDE];
            for b in 0..10 {
                a[boss(if b < count { 0 } else { 1 }, b)] = true;
            }
            a[tier(0, k)] = true;
            assert_eq!(m.is_feasible(&a), count >= 3 * (k + 1), "count {} tier {}", count, k);
        }
    }
}

#[test]
fn decode_reads_boss_and_tier_variables() {
    let r = Roster::new(&three_singles()).unwrap();
    let mut a = vec![false; 3 * STRIDE];
    a[boss(1, 7)] = true;
    a[boss(2, 0)] = true;
    a[tier(2, 2)] = true;
    let rows = r.decode(&a);
    let again = r.decode(&a);
    assert_eq!(rows.len(), 3);
    assert_eq!(rows[0].bosses, vec![false; 10]);
    let mut expect = vec![false; 10];
    expect[7] = true;
    assert_eq!(rows[1].bosses, expect);
    assert_eq!(rows[2].bosses[0], true);
    assert_eq!(rows[2].tiers, vec![false, false, true]);
    for (x, y) in rows.iter().zip(again.iter()) {
        assert_eq!(x.name, y.name);
        assert_eq!(x.bosses, y.bosses);
        assert_eq!(x.tiers, y.tiers);
    }
}

#[test]
fn lock_is_enforced() {
    let mut r = Roster::with_roster_size(&three_singles(), 2).unwrap();
    r.add_role_constraint_ge(Role::TANK, &[0; 10]).unwrap();
    // tank and healer everywhere, dps nowhere
    let mut a = vec![false; 3 * STRIDE];
    for b in 0..10 {
        a[boss(0, b)] = true;
        a[boss(1, b)] = true;
    }
    for k in 0..3 {
        a[tier(0, k)] = true;
        a[tier(1, k)] = true;
    }
    assert!(r.model().is_feasible(&a));
    r.lock(2, 6).unwrap();
    assert!(!r.model().is_feasible(&a));
    match r.accept_solution(SolveOutcome::Solved(a.clone())) {
        Err(RosterError::Solver) => {}
        other => panic!("unexpected {:?}", other),
    }
    // dps takes the healer's place at boss 6
    a[boss(1, 6)] = false;
    a[boss(2, 6)] = true;
    let rows = r.accept_solution(SolveOutcome::Solved(a)).unwrap();
    assert!(rows[2].bosses[6]);
    assert!(!rows[1].bosses[6]);
}

#[test]
fn lock_by_name_resolves_and_reports() {
    let mut r = Roster::new(&three_singles()).unwrap();
    r.lock_by_name(&"Dps".to_string(), 3).unwrap();
    assert_eq!(r.locks.len(), 1);
    assert_eq!((r.locks[0].character, r.locks[0].boss), (2, 3));
    match r.lock_by_name(&"Ghost".to_string(), 3) {
        Err(RosterError::UnknownCharacter(n)) => assert_eq!(n, "Ghost"),
        other => panic!("unexpected {:?}", other),
    }
    assert_eq!(r.locks.len(), 1);
}

#[test]
fn solved_model_is_frozen() {
    let mut r = end_to_end_roster(3);
    r.accept_solution(SolveOutcome::Solved(vec![true; 3 * STRIDE])).unwrap();
    assert!(matches!(r.lock(0, 0), Err(RosterError::ModelPhase)));
    assert!(matches!(r.lock_by_name(&"Tank".to_string(), 0), Err(RosterError::ModelPhase)));
    assert!(matches!(
        r.add_role_constraint(Role::TANK, Cmp::AtMost, &[3; 10]),
        Err(RosterError::ModelPhase)
    ));
    assert!(matches!(
        r.accept_solution(SolveOutcome::Solved(vec![true; 3 * STRIDE])),
        Err(RosterError::ModelPhase)
    ));
    assert_eq!(r.requirements.len(), 3);
    assert!(r.locks.is_empty());
}

#[test]
fn group_entries_reads_triples() {
    let words: Vec<String> = "Bensmonk MO TANK Bensdh DH MELEE Benspriest PR RANGED"
        .split_ascii_whitespace()
        .map(|w| w.to_string())
        .collect();
    let g = group_entries(&words);
    assert_eq!(g.len(), 3);
    assert_eq!((g[1].name.as_str(), g[1].class.as_str(), g[1].role.as_str()), ("Bensdh", "DH", "MELEE"));
    assert_eq!(g[2].name, "Benspriest");
    assert!(group_entries(&vec![]).is_empty());
    let r = Roster::new(&vec![g]).unwrap();
    assert_eq!(r.chars.len(), 3);
}

#[test]
fn lp_problem_mirrors_the_model() {
    let mut r = Roster::with_roster_size(&three_singles(), 2).unwrap();
    r.add_role_constraint_equal(Role::HEALER, &[1; 10]).unwrap();
    r.lock(0, 0).unwrap();
    let m = r.model();
    let (p, vars) = r.lp_problem();
    assert_eq!(vars.len(), 3 * STRIDE);
    assert_eq!(vars[0].name, "x_0");
    assert_eq!(vars[38].name, "x_38");
    assert_eq!(p.constraints.len(), m.constraints.len());
    assert!(p.obj_expr_arena.is_some());
    // every boss and tier variable is used by some constraint
    assert_eq!(p.variables().len(), 3 * STRIDE);
}

#[test]
fn names_compare_as_strings() {
    let names = ["Câlyssa", "Càlyssa", "Calyssá", "Calyss", "Óakenbow", "Zorkón", "zed", "", "Räven"];
    for a in names.iter() {
        for b in names.iter() {
            assert_eq!(name_le_exec(&a.to_string(), &b.to_string()), a <= b, "{} {}", a, b);
        }
    }
}

#[test]
fn rows_sorted_by_name() {
    let players = vec![
        vec![entry("Zlayèr", "WL", "RANGED"), entry("Zorkón", "SH", "RANGED")],
        vec![entry("Dhaiva", "WL", "RANGED")],
        vec![entry("Räven", "MA", "RANGED"), entry("Ravend", "DR", "RANGED")],
    ];
    let r = Roster::new(&players).unwrap();
    let mut a = vec![false; 5 * STRIDE];
    a[boss(3, 2)] = true;
    let rows = by_name(r.decode(&a));
    let names: Vec<&str> = rows.iter().map(|x| x.name.as_str()).collect();
    assert_eq!(names, vec!["Dhaiva", "Ravend", "Räven", "Zlayèr", "Zorkón"]);
    assert!(rows[2].bosses[2]);
    assert!(by_name(vec![]).is_empty());
}
