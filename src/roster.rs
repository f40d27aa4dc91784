use vstd::prelude::*;

use crate::error::RosterError;
use crate::layout::{decode_row, decode_tiers, NBOSSES, NTIERS, STRIDE};
use crate::model::{satisfies, Cmp};
use crate::role::{
    all_roles, lemma_all_roles_indexed, lemma_role_token_injective, role_index, role_token,
    unknown_role_of, unknown_token, Role, NROLES,
};

verus! {

/// One character of a player as read from roster input.
#[derive(Clone, Debug)]
pub struct CharSpec {
    pub name: String,
    pub class: String,
    pub role: String,
}

/// A registered character; its index in the roster is its identity.
#[derive(Debug)]
pub struct Char {
    pub name: String,
    /// Index of the player that owns this character.
    pub player: usize,
    /// One flag per role, at `role_index`.
    pub roles: Vec<bool>,
}

/// A per-boss headcount target for the characters that have `role`.
#[derive(Debug)]
pub struct Requirement {
    pub role: Role,
    pub cmp: Cmp,
    pub counts: Vec<i32>,
}

/// A manual pin of a character to a boss.
#[derive(Clone, Copy, Debug, PartialEq, Eq, Structural)]
pub struct Lock {
    pub character: usize,
    pub boss: usize,
}

/// The role flags of a character with these class and role tokens.
pub open spec fn role_flags(class: Seq<char>, role: Seq<char>) -> Seq<bool> {
    Seq::new(
        NROLES as nat,
        |i: int| role_token(all_roles()[i]) == class || role_token(all_roles()[i]) == role,
    )
}

/// Characters of the first `p` players, each with its player's index, in input order.
pub open spec fn flat_upto(players: Seq<Vec<CharSpec>>, p: nat) -> Seq<(nat, CharSpec)>
    decreases p,
{
    if p == 0 {
        Seq::empty()
    } else {
        let q = (p - 1) as nat;
        flat_upto(players, q) + Seq::new(players[q as int]@.len(), |i: int| (q, players[q as int]@[i]))
    }
}

/// All characters of the input, each with its player's index, in input order.
pub open spec fn flat_chars(players: Seq<Vec<CharSpec>>) -> Seq<(nat, CharSpec)> {
    flat_upto(players, players.len())
}

/// A registered character holds what its input entry says.
pub open spec fn registered_as(ch: Char, e: (nat, CharSpec)) -> bool {
    &&& ch.player == e.0
    &&& ch.name@ == e.1.name@
    &&& ch.roles@ == role_flags(e.1.class@, e.1.role@)
}

/// An input entry names a class or role outside the vocabulary.
pub open spec fn entry_unknown(e: CharSpec) -> bool {
    unknown_token(e.class@) || unknown_token(e.role@)
}

/// Reads the role flags of a character from its class and role tokens.
pub fn get_roles(class: &String, role: &String) -> (res: Result<Vec<bool>, RosterError>)
    ensures
        match res {
            Ok(v) => !unknown_token(class@) && !unknown_token(role@) && v@ == role_flags(
                class@,
                role@,
            ),
            Err(e) => (unknown_token(class@) && unknown_role_of(e, class@)) || (!unknown_token(
                class@,
            ) && unknown_token(role@) && unknown_role_of(e, role@)),
        },
{
    let rc = match Role::from_token(class) {
        Ok(r) => r,
        Err(e) => return Err(e),
    };
    let rr = match Role::from_token(role) {
        Ok(r) => r,
        Err(e) => return Err(e),
    };
    let ic = rc.index();
    let ir = rr.index();
    let mut v: Vec<bool> = Vec::new();
    let mut i: usize = 0;
    while i < NROLES
        invariant
            i <= NROLES,
            ic == role_index(rc),
            ir == role_index(rr),
            v@.len() == i,
            forall|j: int| 0 <= j < i ==> v@[j] == (j == role_index(rc) || j == role_index(rr)),
        decreases NROLES - i,
    {
        v.push(i == ic || i == ir);
        i = i + 1;
    }
    proof {
        lemma_all_roles_indexed();
        assert forall|j: int| 0 <= j < NROLES implies v@[j] == role_flags(class@, role@)[j] by {
            let x = all_roles()[j];
            if role_token(x) == class@ {
                lemma_role_token_injective(x, rc);
            }
            if role_token(x) == role@ {
                lemma_role_token_injective(x, rr);
            }
        }
        assert(v@ =~= role_flags(class@, role@));
    }
    Ok(v)
}

/// A flattening of a prefix of the players is a prefix of the flattening of a longer one.
pub proof fn lemma_flat_prefix(players: Seq<Vec<CharSpec>>, p: nat, q: nat)
    requires
        p <= q <= players.len(),
    ensures
        flat_upto(players, p).len() <= flat_upto(players, q).len(),
        forall|k: int|
            0 <= k < flat_upto(players, p).len() ==> #[trigger] flat_upto(players, q)[k]
                == flat_upto(players, p)[k],
    decreases q,
{
    if p < q {
        lemma_flat_prefix(players, p, (q - 1) as nat);
    }
}

/// Roster size used when none is given.
pub const DEFAULT_ROSTER_SIZE: i32 = 20;

/// The registered characters and everything that shapes the schedule model.
#[derive(Debug)]
pub struct Roster {
    /// Characters, by index.
    pub chars: Vec<Char>,
    /// Number of players; every character's `player` is below it.
    pub n_players: usize,
    /// Exact number of characters scheduled for each boss.
    pub roster_size: i32,
    /// Role requirements, in the order they were added.
    pub requirements: Vec<Requirement>,
    /// Manual pins, in the order they were added.
    pub locks: Vec<Lock>,
    /// Set once a solution has been accepted; the model is then frozen.
    pub solved: bool,
}

impl Roster {
    pub open spec fn n_chars(&self) -> nat {
        self.chars@.len()
    }

    pub open spec fn wf(&self) -> bool {
        &&& self.chars@.len() * STRIDE <= usize::MAX
        &&& self.n_players * NBOSSES <= usize::MAX
        &&& forall|c: int|
            0 <= c < self.chars@.len() ==> (#[trigger] self.chars@[c]).player < self.n_players
                && self.chars@[c].roles@.len() == NROLES
        &&& forall|q: int|
            0 <= q < self.requirements@.len() ==> (#[trigger] self.requirements@[q]).counts@.len()
                == NBOSSES
        &&& forall|l: int|
            0 <= l < self.locks@.len() ==> (#[trigger] self.locks@[l]).character
                < self.chars@.len() && self.locks@[l].boss < NBOSSES
    }

    /// Registers every character of every player, with the default roster size.
    pub fn new(players: &Vec<Vec<CharSpec>>) -> (res: Result<Roster, RosterError>)
        requires
            flat_chars(players@).len() * STRIDE <= usize::MAX,
            players@.len() * NBOSSES <= usize::MAX,
        ensures
            Self::registered(players@, DEFAULT_ROSTER_SIZE, res),
    {
        Self::with_roster_size(players, DEFAULT_ROSTER_SIZE)
    }

    /// `res` is the outcome of registering `players`: every character in input
    /// order under the next index, or the first unknown token.
    pub open spec fn registered(
        players: Seq<Vec<CharSpec>>,
        roster_size: i32,
        res: Result<Roster, RosterError>,
    ) -> bool {
        let flat = flat_chars(players);
        match res {
            Ok(r) => {
                &&& r.wf()
                &&& r.n_players == players.len()
                &&& r.roster_size == roster_size
                &&& r.requirements@.len() == 0
                &&& r.locks@.len() == 0
                &&& !r.solved
                &&& r.chars@.len() == flat.len()
                &&& forall|c: int| 0 <= c < flat.len() ==> !entry_unknown(#[trigger] flat[c].1)
                &&& forall|c: int|
                    0 <= c < flat.len() ==> registered_as(#[trigger] r.chars@[c], flat[c])
            },
            Err(e) => exists|c: int|
                0 <= c < flat.len() && entry_unknown(#[trigger] flat[c].1) && (unknown_role_of(
                    e,
                    flat[c].1.class@,
                ) || unknown_role_of(e, flat[c].1.role@)),
        }
    }

    /// Registers every character of every player; each player's characters
    /// may not share a boss.
    pub fn with_roster_size(players: &Vec<Vec<CharSpec>>, roster_size: i32) -> (res: Result<
        Roster,
        RosterError,
    >)
        requires
            flat_chars(players@).len() * STRIDE <= usize::MAX,
            players@.len() * NBOSSES <= usize::MAX,
        ensures
            Self::registered(players@, roster_size, res),
    {
        let mut chars: Vec<Char> = Vec::new();
        let mut p: usize = 0;
        while p < players.len()
            invariant
                p <= players@.len(),
                flat_chars(players@).len() * STRIDE <= usize::MAX,
                chars@.len() == flat_upto(players@, p as nat).len(),
                forall|c: int|
                    0 <= c < chars@.len() ==> registered_as(
                        #[trigger] chars@[c],
                        flat_upto(players@, p as nat)[c],
                    ),
                forall|c: int|
                    0 <= c < chars@.len() ==> !entry_unknown(
                        #[trigger] flat_upto(players@, p as nat)[c].1,
                    ),
                forall|c: int| 0 <= c < chars@.len() ==> (#[trigger] chars@[c]).player < players@.len(),
            decreases players@.len() - p,
        {
            let ghost next = flat_upto(players@, (p + 1) as nat);
            proof {
                lemma_flat_prefix(players@, (p + 1) as nat, players@.len());
                assert(next == flat_upto(players@, p as nat) + Seq::new(
                    players@[p as int]@.len(),
                    |i: int| (p as nat, players@[p as int]@[i]),
                ));
            }
            let group = &players[p];
            let mut i: usize = 0;
            while i < group.len()
                invariant
                    p < players@.len(),
                    group == players@[p as int],
                    i <= group@.len(),
                    next == flat_upto(players@, (p + 1) as nat),
                    next.len() == flat_upto(players@, p as nat).len() + group@.len(),
                    next.len() * STRIDE <= usize::MAX,
                    chars@.len() == flat_upto(players@, p as nat).len() + i,
                    forall|k: int|
                        0 <= k < group@.len() ==> #[trigger] next[flat_upto(
                            players@,
                            p as nat,
                        ).len() + k] == (p as nat, group@[k]),
                    forall|c: int|
                        0 <= c < flat_upto(players@, p as nat).len() ==> #[trigger] next[c]
                            == flat_upto(players@, p as nat)[c],
                    forall|c: int|
                        0 <= c < chars@.len() ==> registered_as(#[trigger] chars@[c], next[c]),
                    forall|c: int| 0 <= c < chars@.len() ==> !entry_unknown(#[trigger] next[c].1),
                    forall|c: int|
                        0 <= c < chars@.len() ==> (#[trigger] chars@[c]).player < players@.len(),
                decreases group@.len() - i,
            {
                let spec_i = &group[i];
                let roles = match get_roles(&spec_i.class, &spec_i.role) {
                    Ok(v) => v,
                    Err(e) => {
                        proof {
                            let c = flat_upto(players@, p as nat).len() + i;
                            lemma_flat_prefix(players@, (p + 1) as nat, players@.len());
                            assert(flat_chars(players@)[c] == next[c]);
                            assert(next[c] == (p as nat, group@[i as int]));
                            assert(entry_unknown(flat_chars(players@)[c].1));
                            assert(unknown_role_of(e, flat_chars(players@)[c].1.class@)
                                || unknown_role_of(e, flat_chars(players@)[c].1.role@));
                        }
                        return Err(e);
                    },
                };
                let ghost c = chars@.len();
                chars.push(Char { name: spec_i.name.clone(), player: p, roles });
                proof {
                    assert(next[c as int] == (p as nat, group@[i as int]));
                }
                i = i + 1;
            }
            p = p + 1;
        }
        let r = Roster {
                chars,
                n_players: players.len(),
                roster_size,
                requirements: Vec::new(),
                locks: Vec::new(),
                solved: false,
            };
        proof {
            let flat = flat_chars(players@);
            assert(flat_upto(players@, p as nat) == flat);
            assert forall|c: int| 0 <= c < flat.len() implies !entry_unknown(#[trigger] flat[c].1) by {
            }
            assert forall|c: int| 0 <= c < flat.len() implies registered_as(#[trigger] r.chars@[c], flat[c]) by {
            }
            assert forall|c: int| 0 <= c < r.chars@.len() implies (#[trigger] r.chars@[c]).player < r.n_players
                && r.chars@[c].roles@.len() == NROLES by {
                assert(registered_as(r.chars@[c], flat[c]));
            }
        }
        Ok(r)
    }
}

/// What the solver reported for a model.
#[derive(Debug)]
pub enum SolveOutcome {
    /// A value for every variable, by variable index.
    Solved(Vec<bool>),
    /// No assignment meets every constraint.
    Infeasible,
    /// The solver gave no usable answer.
    Failed,
}

/// One row of a decoded schedule.
#[derive(Clone, Debug)]
pub struct ScheduleRow {
    pub name: String,
    /// Whether the character is scheduled, by boss index.
    pub bosses: Vec<bool>,
    /// Whether the character earns each reward tier.
    pub tiers: Vec<bool>,
}

/// `rows` is the schedule that assignment `a` gives the characters, by index.
pub open spec fn decoded(rows: Seq<ScheduleRow>, chars: Seq<Char>, a: Seq<bool>) -> bool {
    &&& rows.len() == chars.len()
    &&& forall|c: int|
        0 <= c < rows.len() ==> {
            &&& (#[trigger] rows[c]).name@ == chars[c].name@
            &&& rows[c].bosses@ == decode_row(a, c)
            &&& rows[c].tiers@ == decode_tiers(a, c)
        }
}

impl Roster {
    /// Everything but the phase flag is the same in both rosters.
    pub open spec fn same_inputs(&self, other: &Roster) -> bool {
        &&& self.chars@ == other.chars@
        &&& self.n_players == other.n_players
        &&& self.roster_size == other.roster_size
        &&& self.requirements@ == other.requirements@
        &&& self.locks@ == other.locks@
    }

    /// Adds one constraint per boss: the characters with `role` must number
    /// `counts[b]` at boss `b`, compared by `cmp`.
    pub fn add_role_constraint(&mut self, role: Role, cmp: Cmp, counts: &[i32]) -> (res: Result<
        (),
        RosterError,
    >)
        requires
            old(self).wf(),
            counts@.len() == NBOSSES,
        ensures
            final(self).wf(),
            old(self).solved ==> res == Err::<(), RosterError>(RosterError::ModelPhase) && *final(self) == *old(self),
            !old(self).solved ==> {
                &&& res is Ok
                &&& final(self).chars@ == old(self).chars@
                &&& final(self).n_players == old(self).n_players
                &&& final(self).roster_size == old(self).roster_size
                &&& final(self).locks@ == old(self).locks@
                &&& final(self).solved == old(self).solved
                &&& final(self).requirements@.len() == old(self).requirements@.len() + 1
                &&& final(self).requirements@.drop_last() == old(self).requirements@
                &&& final(self).requirements@.last().role == role
                &&& final(self).requirements@.last().cmp == cmp
                &&& final(self).requirements@.last().counts@ == counts@
            },
    {
        if self.solved {
            return Err(RosterError::ModelPhase);
        }
        let mut v: Vec<i32> = Vec::new();
        let mut b: usize = 0;
        while b < counts.len()
            invariant
                b <= counts@.len(),
                v@ =~= counts@.take(b as int),
            decreases counts@.len() - b,
        {
            v.push(counts[b]);
            b = b + 1;
        }
        assert(v@ =~= counts@);
        self.requirements.push(Requirement { role, cmp, counts: v });
        assert(self.requirements@.drop_last() =~= old(self).requirements@);
        Ok(())
    }

    /// Adds an exact headcount requirement for `role` at every boss.
    pub fn add_role_constraint_equal(&mut self, role: Role, boss_requirement: &[i32]) -> (res:
        Result<(), RosterError>)
        requires
            old(self).wf(),
            boss_requirement@.len() == NBOSSES,
        ensures
            final(self).wf(),
            old(self).solved ==> res == Err::<(), RosterError>(RosterError::ModelPhase) && *final(self) == *old(self),
            !old(self).solved ==> res is Ok && final(self).same_inputs_but_requirement(
                old(self),
            ) && final(self).requirements@.last().role == role
                && final(self).requirements@.last().cmp == Cmp::Equal
                && final(self).requirements@.last().counts@ == boss_requirement@,
    {
        self.add_role_constraint(role, Cmp::Equal, boss_requirement)
    }

    /// Adds a minimum headcount requirement for `role` at every boss.
    pub fn add_role_constraint_ge(&mut self, role: Role, boss_requirement: &[i32]) -> (res:
        Result<(), RosterError>)
        requires
            old(self).wf(),
            boss_requirement@.len() == NBOSSES,
        ensures
            final(self).wf(),
            old(self).solved ==> res == Err::<(), RosterError>(RosterError::ModelPhase) && *final(self) == *old(self),
            !old(self).solved ==> res is Ok && final(self).same_inputs_but_requirement(
                old(self),
            ) && final(self).requirements@.last().role == role
                && final(self).requirements@.last().cmp == Cmp::AtLeast
                && final(self).requirements@.last().counts@ == boss_requirement@,
    {
        self.add_role_constraint(role, Cmp::AtLeast, boss_requirement)
    }

    /// Adds a maximum headcount requirement for `role` at every boss.
    pub fn add_role_constraint_le(&mut self, role: Role, boss_requirement: &[i32]) -> (res:
        Result<(), RosterError>)
        requires
            old(self).wf(),
            boss_requirement@.len() == NBOSSES,
        ensures
            final(self).wf(),
            old(self).solved ==> res == Err::<(), RosterError>(RosterError::ModelPhase) && *final(self) == *old(self),
            !old(self).solved ==> res is Ok && final(self).same_inputs_but_requirement(
                old(self),
            ) && final(self).requirements@.last().role == role
                && final(self).requirements@.last().cmp == Cmp::AtMost
                && final(self).requirements@.last().counts@ == boss_requirement@,
    {
        self.add_role_constraint(role, Cmp::AtMost, boss_requirement)
    }

    /// `self` is `old` with one more requirement at the end.
    pub open spec fn same_inputs_but_requirement(&self, old: &Roster) -> bool {
        &&& self.chars@ == old.chars@
        &&& self.n_players == old.n_players
        &&& self.roster_size == old.roster_size
        &&& self.locks@ == old.locks@
        &&& self.solved == old.solved
        &&& self.requirements@.len() == old.requirements@.len() + 1
        &&& self.requirements@.drop_last() == old.requirements@
    }

    /// Pins character `character` to boss `boss`; the index is trusted to be valid.
    pub fn lock(&mut self, character: usize, boss: usize) -> (res: Result<(), RosterError>)
        requires
            old(self).wf(),
            character < old(self).n_chars(),
            boss < NBOSSES,
        ensures
            final(self).wf(),
            old(self).solved ==> res == Err::<(), RosterError>(RosterError::ModelPhase) && *final(self) == *old(self),
            !old(self).solved ==> res is Ok && final(self).same_inputs_but_lock(old(self))
                && final(self).locks@.last() == (Lock { character, boss }),
    {
        if self.solved {
            return Err(RosterError::ModelPhase);
        }
        self.locks.push(Lock { character, boss });
        assert(self.locks@.drop_last() =~= old(self).locks@);
        Ok(())
    }

    /// `self` is `old` with one more lock at the end.
    pub open spec fn same_inputs_but_lock(&self, old: &Roster) -> bool {
        &&& self.chars@ == old.chars@
        &&& self.n_players == old.n_players
        &&& self.roster_size == old.roster_size
        &&& self.requirements@ == old.requirements@
        &&& self.solved == old.solved
        &&& self.locks@.len() == old.locks@.len() + 1
        &&& self.locks@.drop_last() == old.locks@
    }

    /// The first character called `name`.
    pub fn find_char(&self, name: &String) -> (res: Option<usize>)
        ensures
            match res {
                Some(c) => c < self.n_chars() && self.chars@[c as int].name@ == name@ && forall|
                    d: int,
                | 0 <= d < c ==> (#[trigger] self.chars@[d]).name@ != name@,
                None => forall|d: int|
                    0 <= d < self.n_chars() ==> (#[trigger] self.chars@[d]).name@ != name@,
            },
    {
        let mut c: usize = 0;
        while c < self.chars.len()
            invariant
                c <= self.chars@.len(),
                forall|d: int| 0 <= d < c ==> (#[trigger] self.chars@[d]).name@ != name@,
            decreases self.chars@.len() - c,
        {
            if self.chars[c].name == *name {
                return Some(c);
            }
            c = c + 1;
        }
        None
    }

    /// Pins the first character called `name` to boss `boss`.
    pub fn lock_by_name(&mut self, name: &String, boss: usize) -> (res: Result<(), RosterError>)
        requires
            old(self).wf(),
            boss < NBOSSES,
        ensures
            final(self).wf(),
            old(self).solved ==> res == Err::<(), RosterError>(RosterError::ModelPhase) && *final(self) == *old(self),
            !old(self).solved && (forall|d: int|
                0 <= d < old(self).n_chars() ==> (#[trigger] old(self).chars@[d]).name@ != name@)
                ==> *final(self) == *old(self) && match res {
                Err(RosterError::UnknownCharacter(n)) => n@ == name@,
                _ => false,
            },
            !old(self).solved && (exists|d: int|
                0 <= d < old(self).n_chars() && (#[trigger] old(self).chars@[d]).name@ == name@)
                ==> res is Ok && final(self).same_inputs_but_lock(old(self)) && {
                let c = final(self).locks@.last().character as int;
                &&& final(self).locks@.last().boss == boss
                &&& 0 <= c < old(self).n_chars()
                &&& old(self).chars@[c].name@ == name@
                &&& forall|d: int| 0 <= d < c ==> (#[trigger] old(self).chars@[d]).name@ != name@
            },
    {
        if self.solved {
            return Err(RosterError::ModelPhase);
        }
        match self.find_char(name) {
            Some(c) => self.lock(c, boss),
            None => Err(RosterError::UnknownCharacter(name.clone())),
        }
    }

    /// The schedule that assignment `a` gives, one row per character by index.
    pub fn decode(&self, a: &Vec<bool>) -> (rows: Vec<ScheduleRow>)
        requires
            self.wf(),
            a@.len() == self.n_chars() * STRIDE,
        ensures
            decoded(rows@, self.chars@, a@),
    {
        let mut rows: Vec<ScheduleRow> = Vec::new();
        let mut c: usize = 0;
        while c < self.chars.len()
            invariant
                self.wf(),
                a@.len() == self.n_chars() * STRIDE,
                c <= self.chars@.len(),
                decoded(rows@, self.chars@.take(c as int), a@),
            decreases self.chars@.len() - c,
        {
            let mut bosses: Vec<bool> = Vec::new();
            let mut b: usize = 0;
            while b < NBOSSES
                invariant
                    self.wf(),
                    c < self.chars@.len(),
                    a@.len() == self.n_chars() * STRIDE,
                    b <= NBOSSES,
                    bosses@ =~= decode_row(a@, c as int).take(b as int),
                decreases NBOSSES - b,
            {
                bosses.push(a[c * STRIDE + b]);
                b = b + 1;
            }
            let mut tiers: Vec<bool> = Vec::new();
            let mut k: usize = 0;
            while k < NTIERS
                invariant
                    self.wf(),
                    c < self.chars@.len(),
                    a@.len() == self.n_chars() * STRIDE,
                    k <= NTIERS,
                    tiers@ =~= decode_tiers(a@, c as int).take(k as int),
                decreases NTIERS - k,
            {
                tiers.push(a[c * STRIDE + NBOSSES + k]);
                k = k + 1;
            }
            assert(bosses@ =~= decode_row(a@, c as int));
            assert(tiers@ =~= decode_tiers(a@, c as int));
            rows.push(ScheduleRow { name: self.chars[c].name.clone(), bosses, tiers });
            proof {
                let prefix = self.chars@.take(c + 1);
                assert forall|d: int| 0 <= d < rows@.len() implies {
                    &&& (#[trigger] rows@[d]).name@ == prefix[d].name@
                    &&& rows@[d].bosses@ == decode_row(a@, d)
                    &&& rows@[d].tiers@ == decode_tiers(a@, d)
                } by {
                    if d < c {
                        assert(self.chars@.take(c as int)[d] == prefix[d]);
                    }
                }
            }
            c = c + 1;
        }
        assert(self.chars@.take(c as int) =~= self.chars@);
        rows
    }

    /// Takes the solver's answer for `self.model()`. An assignment is checked
    /// against every constraint before it is decoded; once one is accepted the
    /// model is frozen.
    pub fn accept_solution(&mut self, outcome: SolveOutcome) -> (res: Result<
        Vec<ScheduleRow>,
        RosterError,
    >)
        requires
            old(self).wf(),
        ensures
            final(self).wf(),
            final(self).same_inputs(old(self)),
            old(self).solved ==> res == Err::<Vec<ScheduleRow>, RosterError>(
                RosterError::ModelPhase,
            ) && *final(self) == *old(self),
            !old(self).solved ==> match outcome {
                SolveOutcome::Infeasible => res == Err::<Vec<ScheduleRow>, RosterError>(
                    RosterError::Infeasible,
                ) && *final(self) == *old(self),
                SolveOutcome::Failed => res == Err::<Vec<ScheduleRow>, RosterError>(
                    RosterError::Solver,
                ) && *final(self) == *old(self),
                SolveOutcome::Solved(a) => if a@.len() == old(self).n_chars() * STRIDE
                    && satisfies(old(self).spec_constraints(), a@) {
                    &&& final(self).solved
                    &&& res matches Ok(rows) && decoded(rows@, old(self).chars@, a@)
                } else {
                    res == Err::<Vec<ScheduleRow>, RosterError>(RosterError::Solver) && *final(self) == *old(self)
                },
            },
    {
        if self.solved {
            return Err(RosterError::ModelPhase);
        }
        match outcome {
            SolveOutcome::Infeasible => Err(RosterError::Infeasible),
            SolveOutcome::Failed => Err(RosterError::Solver),
            SolveOutcome::Solved(a) => {
                let m = self.model();
                if m.is_feasible(&a) {
                    let rows = self.decode(&a);
                    self.solved = true;
                    Ok(rows)
                } else {
                    Err(RosterError::Solver)
                }
            },
        }
    }
}

/// Reads a player's characters from words in groups of three: name, class, role.
pub fn group_entries(words: &Vec<String>) -> (r: Vec<CharSpec>)
    requires
        words@.len() % 3 == 0,
    ensures
        r@.len() * 3 == words@.len(),
        forall|i: int|
            0 <= i < r@.len() ==> (#[trigger] r@[i]).name@ == words@[3 * i]@ && r@[i].class@
                == words@[3 * i + 1]@ && r@[i].role@ == words@[3 * i + 2]@,
{
    let mut r: Vec<CharSpec> = Vec::new();
    let mut w: usize = 0;
    while w < words.len()
        invariant
            words@.len() % 3 == 0,
            w % 3 == 0,
            w <= words@.len(),
            r@.len() * 3 == w,
            forall|i: int|
                0 <= i < r@.len() ==> (#[trigger] r@[i]).name@ == words@[3 * i]@ && r@[i].class@
                    == words@[3 * i + 1]@ && r@[i].role@ == words@[3 * i + 2]@,
        decreases words@.len() - w,
    {
        r.push(
            CharSpec {
                name: words[w].clone(),
                class: words[w + 1].clone(),
                role: words[w + 2].clone(),
            },
        );
        w = w + 3;
    }
    r
}

} // verus!
