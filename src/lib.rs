//! Weekly raid roster planning as a 0/1 integer program.
//!
//! Characters are registered with their roles (`roster`), turned into a model
//! of boss and reward-tier variables with role quotas, alt exclusivity and
//! tier thresholds (`layout`, `model`), handed to a solver through lp_modeler
//! (`lp`), and the solver's answer is checked and decoded into a schedule.
//! `laws` proves what every accepted schedule satisfies.

use vstd::prelude::*;

pub mod schedule_model;
pub mod error;
pub mod laws;
pub mod layout;
pub mod lp;
pub mod model;
pub mod order;
pub mod role;
pub mod roster;

verus! {

} // verus!
