pub mod assembler;
pub mod cpu_solver;
pub mod gpu;
pub mod pipeline;
pub mod result;
pub mod solver;
pub mod sparse;

pub use assembler::GlobalAssembler;
pub use cpu_solver::CpuCholesky;
pub use result::{
    AnalysisResult, ElementForceComponents, ElementForces, ModelSnapshot, NodalDisplacement,
    SolverBackend, SolverInfo, SupportReaction,
};
pub use solver::{auto_select_solver, is_gpu_available};
