use vstd::prelude::*;

use super::result::SolverBackend;

verus! {

/// Whether a GPU solver can be used.  This build has no GPU solver, so never.
pub fn is_gpu_available() -> (b: bool)
    ensures
        !b,
{
    false
}

/// The backend to use for a system with `num_dofs` freedoms: the GPU solver
/// from 5000 freedoms on where one is available, the CPU Cholesky solver
/// otherwise (always, in this build).
pub fn auto_select_solver(num_dofs: usize) -> (b: SolverBackend)
    ensures
        b == SolverBackend::CpuCholesky,
{
    SolverBackend::CpuCholesky
}

} // verus!
