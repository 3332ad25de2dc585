//! What the plant reports about itself besides its samples.
use vstd::prelude::*;

verus! {

/// A single named binary condition reported by the model.
#[derive(Debug, Clone, Copy)]
pub struct Alarm {
    pub name: &'static str,
    pub active: bool,
}

/// Some alarm of `alarms` is active.
pub open spec fn any_active_spec(alarms: Seq<Alarm>) -> bool {
    exists|i: int| 0 <= i < alarms.len() && (#[trigger] alarms[i]).active
}

/// Whether any of the reported alarms is active.
pub fn any_active(alarms: &[Alarm]) -> (r: bool)
    ensures
        r == any_active_spec(alarms@),
{
    let mut i: usize = 0;
    while i < alarms.len()
        invariant
            i <= alarms@.len(),
            forall|j: int| 0 <= j < i ==> !(#[trigger] alarms@[j]).active,
        decreases alarms.len() - i,
    {
        if alarms[i].active {
            return true;
        }
        i = i + 1;
    }
    false
}

} // verus!
