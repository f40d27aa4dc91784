use vstd::prelude::*;

verus! {

/// What can go wrong while building, locking or solving a roster model.
#[derive(Clone, Debug)]
pub enum RosterError {
    /// A class or role token outside the fixed vocabulary.
    UnknownRole(String),
    /// A lock names a character that is not registered.
    UnknownCharacter(String),
    /// The model was changed after it was solved.
    ModelPhase,
    /// The solver found no assignment that meets every constraint.
    Infeasible,
    /// The solver failed, or handed back an assignment that breaks the model.
    Solver,
}

} // verus!
