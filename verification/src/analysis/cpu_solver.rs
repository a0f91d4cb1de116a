use vstd::prelude::*;

verus! {

/// The direct sparse Cholesky solver.
pub struct CpuCholesky;

impl CpuCholesky {
    /// The name the solver reports.
    pub fn name(&self) -> (s: &'static str)
        ensures
            s@ == "CPU Cholesky (nalgebra-sparse)"@,
    {
        "CPU Cholesky (nalgebra-sparse)"
    }
}

} // verus!
