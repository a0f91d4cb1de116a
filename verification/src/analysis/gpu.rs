use vstd::prelude::*;

verus! {

/// The Metal preconditioned conjugate gradient solver.  This build has no
/// GPU support, so it cannot be created.
pub struct MetalPCG {}

impl MetalPCG {
    pub fn new() -> (r: Result<MetalPCG, String>)
        ensures
            r matches Err(message) && message@
                == "GPU support not enabled (compile with --features gpu)"@,
    {
        Err("GPU support not enabled (compile with --features gpu)".to_string())
    }
}

} // verus!
