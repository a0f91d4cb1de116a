use fe_engine::analysis::gpu::MetalPCG;
use fe_engine::analysis::{auto_select_solver, is_gpu_available, CpuCholesky, SolverBackend};

#[test]
fn test_auto_select_solver_small_model() {
    let backend = auto_select_solver(100);
    assert_eq!(backend, SolverBackend::CpuCholesky);
}

#[test]
fn test_auto_select_solver_large_model() {
    let backend = auto_select_solver(10000);
    assert_eq!(backend, SolverBackend::CpuCholesky);
}

#[test]
fn test_is_gpu_available() {
    assert!(!is_gpu_available());
}

#[test]
fn metal_solver_cannot_be_created_without_gpu_support() {
    match MetalPCG::new() {
        Ok(_) => panic!("no GPU solver in this build"),
        Err(message) => {
            assert_eq!(message, "GPU support not enabled (compile with --features gpu)")
        }
    }
}

#[test]
fn cpu_solver_reports_its_name() {
    assert_eq!(CpuCholesky.name(), "CPU Cholesky (nalgebra-sparse)");
}

#[test]
fn solver_backend_from_name() {
    assert_eq!(SolverBackend::from_solver_name("CpuLU"), SolverBackend::CpuLU);
    assert_eq!(SolverBackend::from_solver_name("CpuIterative"), SolverBackend::CpuIterative);
    assert_eq!(SolverBackend::from_solver_name("CpuCholesky"), SolverBackend::CpuCholesky);
    assert_eq!(
        SolverBackend::from_solver_name("CPU Cholesky (nalgebra-sparse)"),
        SolverBackend::CpuCholesky
    );
}
