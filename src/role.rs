use vstd::prelude::*;

use crate::error::RosterError;

verus! {

/// Number of distinct role flags a character can carry.
pub const NROLES: usize = 16;

/// A capability tag: a class identity or a broad category.
#[derive(Clone, Copy, Debug, PartialEq, Eq, Structural)]
pub enum Role {
    DH,
    DK,
    DR,
    HU,
    MA,
    MO,
    PA,
    PR,
    RO,
    SH,
    WA,
    WL,
    TANK,
    HEALER,
    RANGED,
    MELEE,
}

/// Position of a role in a character's flag array.
pub open spec fn role_index(r: Role) -> nat {
    match r {
        Role::DH => 0,
        Role::DK => 1,
        Role::DR => 2,
        Role::HU => 3,
        Role::MA => 4,
        Role::MO => 5,
        Role::PA => 6,
        Role::PR => 7,
        Role::RO => 8,
        Role::SH => 9,
        Role::WA => 10,
        Role::WL => 11,
        Role::TANK => 12,
        Role::HEALER => 13,
        Role::RANGED => 14,
        Role::MELEE => 15,
    }
}

/// The token that names a role in roster input.
pub open spec fn role_token(r: Role) -> Seq<char> {
    match r {
        Role::DH => seq!['D', 'H'],
        Role::DK => seq!['D', 'K'],
        Role::DR => seq!['D', 'R'],
        Role::HU => seq!['H', 'U'],
        Role::MA => seq!['M', 'A'],
        Role::MO => seq!['M', 'O'],
        Role::PA => seq!['P', 'A'],
        Role::PR => seq!['P', 'R'],
        Role::RO => seq!['R', 'O'],
        Role::SH => seq!['S', 'H'],
        Role::WA => seq!['W', 'A'],
        Role::WL => seq!['W', 'L'],
        Role::TANK => seq!['T', 'A', 'N', 'K'],
        Role::HEALER => seq!['H', 'E', 'A', 'L', 'E', 'R'],
        Role::RANGED => seq!['R', 'A', 'N', 'G', 'E', 'D'],
        Role::MELEE => seq!['M', 'E', 'L', 'E', 'E'],
    }
}

/// Every role, in flag order.
pub open spec fn all_roles() -> Seq<Role> {
    seq![
        Role::DH, Role::DK, Role::DR, Role::HU, Role::MA, Role::MO, Role::PA, Role::PR,
        Role::RO, Role::SH, Role::WA, Role::WL, Role::TANK, Role::HEALER, Role::RANGED,
        Role::MELEE,
    ]
}

/// `all_roles` lists each role at its own flag position.
pub proof fn lemma_all_roles_indexed()
    ensures
        all_roles().len() == NROLES,
        forall|i: int| 0 <= i < NROLES ==> role_index(#[trigger] all_roles()[i]) == i,
        forall|r: Role| #[trigger] all_roles()[role_index(r) as int] == r,
{
}

/// `e` reports the unknown token `s`.
pub open spec fn unknown_role_of(e: RosterError, s: Seq<char>) -> bool {
    match e {
        RosterError::UnknownRole(t) => t@ == s,
        _ => false,
    }
}

/// A token that names no role.
pub open spec fn unknown_token(s: Seq<char>) -> bool {
    forall|r: Role| role_token(r) != s
}

/// Distinct roles have distinct tokens.
pub proof fn lemma_role_token_injective(r1: Role, r2: Role)
    requires
        role_token(r1) == role_token(r2),
    ensures
        r1 == r2,
{
    let s1 = role_token(r1);
    let s2 = role_token(r2);
    assert(s1.len() == s2.len());
    assert(s1[0] == s2[0]);
    assert(s1[1] == s2[1]);
}

impl Role {
    /// Position of this role in a character's flag array.
    pub fn index(&self) -> (i: usize)
        ensures
            i == role_index(*self),
            i < NROLES,
    {
        match self {
            Role::DH => 0,
            Role::DK => 1,
            Role::DR => 2,
            Role::HU => 3,
            Role::MA => 4,
            Role::MO => 5,
            Role::PA => 6,
            Role::PR => 7,
            Role::RO => 8,
            Role::SH => 9,
            Role::WA => 10,
            Role::WL => 11,
            Role::TANK => 12,
            Role::HEALER => 13,
            Role::RANGED => 14,
            Role::MELEE => 15,
        }
    }

    /// The token that names this role.
    pub fn token(&self) -> (s: String)
        ensures
            s@ == role_token(*self),
    {
        let t: &str = match self {
            Role::DH => "DH",
            Role::DK => "DK",
            Role::DR => "DR",
            Role::HU => "HU",
            Role::MA => "MA",
            Role::MO => "MO",
            Role::PA => "PA",
            Role::PR => "PR",
            Role::RO => "RO",
            Role::SH => "SH",
            Role::WA => "WA",
            Role::WL => "WL",
            Role::TANK => "TANK",
            Role::HEALER => "HEALER",
            Role::RANGED => "RANGED",
            Role::MELEE => "MELEE",
        };
        proof {
            reveal_strlit("DH");
            reveal_strlit("DK");
            reveal_strlit("DR");
            reveal_strlit("HU");
            reveal_strlit("MA");
            reveal_strlit("MO");
            reveal_strlit("PA");
            reveal_strlit("PR");
            reveal_strlit("RO");
            reveal_strlit("SH");
            reveal_strlit("WA");
            reveal_strlit("WL");
            reveal_strlit("TANK");
            reveal_strlit("HEALER");
            reveal_strlit("RANGED");
            reveal_strlit("MELEE");
        }
        t.to_owned()
    }

    /// The role with flag position `i`.
    pub fn from_index(i: usize) -> (r: Role)
        requires
            i < NROLES,
        ensures
            role_index(r) == i,
    {
        match i {
            0 => Role::DH,
            1 => Role::DK,
            2 => Role::DR,
            3 => Role::HU,
            4 => Role::MA,
            5 => Role::MO,
            6 => Role::PA,
            7 => Role::PR,
            8 => Role::RO,
            9 => Role::SH,
            10 => Role::WA,
            11 => Role::WL,
            12 => Role::TANK,
            13 => Role::HEALER,
            14 => Role::RANGED,
            _ => Role::MELEE,
        }
    }

    /// Reads a role token; a token outside the fixed vocabulary is an error.
    pub fn from_token(s: &String) -> (res: Result<Role, RosterError>)
        ensures
            match res {
                Ok(r) => role_token(r) == s@,
                Err(e) => unknown_role_of(e, s@) && forall|r: Role| role_token(r) != s@,
            },
    {
        let mut i: usize = 0;
        while i < NROLES
            invariant
                i <= NROLES,
                forall|r: Role| role_index(r) < i ==> role_token(r) != s@,
            decreases NROLES - i,
        {
            let r = Role::from_index(i);
            let t = r.token();
            if *s == t {
                return Ok(r);
            }
            i = i + 1;
        }
        Err(RosterError::UnknownRole(s.clone()))
    }
}

} // verus!
