//! The prover's memory mode, which is read from the process environment.

use vstd::prelude::*;

verus! {

/// The variable that selects the mode.
pub open spec fn mode_variable() -> Seq<char> {
    "STWO_PROVER_MEMORY_MODE"@
}

/// The setting of every proof: name and value of the variable. The low-memory mode drops
/// intermediate values and computes them again.
pub fn memory_mode_setting() -> (setting: (&'static str, &'static str))
    ensures
        setting.0@ == mode_variable(),
        setting.0@ == "STWO_PROVER_MEMORY_MODE"@,
        setting.1@ == "low_memory"@,
{
    ("STWO_PROVER_MEMORY_MODE", "low_memory")
}

/// A change of the variable.
#[derive(Debug)]
pub enum ModeChange<V> {
    Assign(V),
    Unset,
}

impl<V> ModeChange<V> {
    /// The variable after the change; `None` if it is not set.
    pub open spec fn applied(self) -> Option<V> {
        match self {
            ModeChange::Assign(value) => Some(value),
            ModeChange::Unset => None,
        }
    }
}

/// Remembers the variable while another mode is in force.
#[derive(Debug)]
pub struct MemoryModeGuard<V> {
    /// The variable as it was.
    pub previous: Option<V>,
}

impl<V> MemoryModeGuard<V> {
    /// The change that ends the guard.
    pub open spec fn undo(self) -> ModeChange<V> {
        match self.previous {
            Some(value) => ModeChange::Assign(value),
            None => ModeChange::Unset,
        }
    }

    /// Selects `value` for now; `current` is the variable as it is.
    pub fn set_memory_mode(current: Option<V>, value: V) -> (r: (MemoryModeGuard<V>, ModeChange<V>))
        ensures
            r.0.previous == current,
            r.1 == ModeChange::Assign(value),
    {
        (MemoryModeGuard { previous: current }, ModeChange::Assign(value))
    }

    /// Ends the guard.
    pub fn restore(self) -> (change: ModeChange<V>)
        ensures
            change == self.undo(),
            self.previous matches Some(value) ==> change == ModeChange::Assign(value),
            self.previous is None ==> change is Unset,
    {
        match self.previous {
            Some(value) => ModeChange::Assign(value),
            None => ModeChange::Unset,
        }
    }
}

/// Ending a guard leaves the variable as it was when the guard was made, set or not.
pub proof fn guard_restores_the_variable<V>(guard: MemoryModeGuard<V>, before: Option<V>)
    requires
        guard.previous == before,
    ensures
        guard.undo().applied() == before,
{
}

} // verus!
