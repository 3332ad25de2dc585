use vstd::prelude::*;

verus! {

/// Number of state, manipulated, disturbance and measured variables of a plant.
#[derive(Clone, Copy, Debug)]
pub struct Params {
    pub n_states: usize,
    pub n_mv: usize,
    pub n_dv: usize,
    pub n_outputs: usize,
}

/// The sizes of the Tennessee Eastman plant: 50 states, 12 manipulated
/// variables (XMV), 20 disturbance channels (IDV) and 41 measurements (XMEAS).
pub open spec fn tep_params() -> Params {
    Params { n_states: 50, n_mv: 12, n_dv: 20, n_outputs: 41 }
}

impl Default for Params {
    fn default() -> (p: Self)
        ensures
            p == tep_params(),
    {
        Params { n_states: 50, n_mv: 12, n_dv: 20, n_outputs: 41 }
    }
}

} // verus!
