//! What the heads-up display shows of the colony's threat.
use vstd::prelude::*;

verus! {

/// How close the colony is to the swarm limit.
#[derive(PartialEq, Eq, Structural, Clone, Copy, Debug)]
pub enum SwarmAlert {
    /// At most half the limit.
    Safe,
    /// More than half the limit.
    Warning,
    /// More than three quarters of the limit.
    Danger,
}

/// The alert for `cell_count` live cells under the swarm limit `limit`:
/// danger above three quarters of the limit, warning above half of it.
pub fn swarm_alert(cell_count: usize, limit: usize) -> (a: SwarmAlert)
    ensures
        a == (if 4 * cell_count > 3 * limit {
            SwarmAlert::Danger
        } else if 2 * cell_count > limit {
            SwarmAlert::Warning
        } else {
            SwarmAlert::Safe
        }),
{
    let c = cell_count as u128;
    let l = limit as u128;
    if 4 * c > 3 * l {
        SwarmAlert::Danger
    } else if 2 * c > l {
        SwarmAlert::Warning
    } else {
        SwarmAlert::Safe
    }
}

} // verus!
