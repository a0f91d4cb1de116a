use fe_engine::analysis::pipeline::{record_step, PipelineEvent, PipelineStage};
use fe_engine::audit::{AuditTrail, AuditValue};
use fe_engine::structure::{
    CoordinateSystem, ModelMetadata, Node, Point3D, StructuralModel, Support, SupportType,
    UnitSystem,
};

fn model() -> StructuralModel<f64> {
    let p = |x: f64| Point3D { x, y: 0.0, z: 0.0 };
    StructuralModel {
        nodes: vec![Node::new(0, p(0.0)), Node::new(1, p(1.0)), Node::new(2, p(2.0))],
        elements: vec![],
        materials: vec![],
        supports: vec![Support { id: 0, node_id: 0, support_type: SupportType::Fixed }],
        load_cases: vec![],
        metadata: ModelMetadata {
            name: String::new(),
            description: String::new(),
            created: String::new(),
            modified: String::new(),
            units: UnitSystem::SI,
            coordinate_system: CoordinateSystem::Global {
                x_direction: String::new(),
                y_direction: String::new(),
                z_direction: String::new(),
            },
        },
    }
}

fn run(events: Vec<PipelineEvent<f64>>) -> (AuditTrail<f64>, Option<PipelineStage>) {
    let m = model();
    let mut trail = AuditTrail::new();
    let mut stage = Some(PipelineStage::Start);
    for event in events {
        match stage {
            Some(s) => stage = record_step(&mut trail, &m, "CPU Cholesky (nalgebra-sparse)", s, event),
            None => break,
        }
    }
    (trail, stage)
}

fn actions(trail: &AuditTrail<f64>) -> Vec<String> {
    trail.entries.iter().map(|e| e.action.clone()).collect()
}

fn successful_events() -> Vec<PipelineEvent<f64>> {
    vec![
        PipelineEvent::Proceed,
        PipelineEvent::Assembled { matrix_size: 18, nnz: 40 },
        PipelineEvent::LoadsAssembled { num_dofs: 18, load_norm: 5.0 },
        PipelineEvent::BoundaryApplied { num_dofs: 18 },
        PipelineEvent::Solved { solve_time_ms: 0.5, displacement_norm: 0.01 },
        PipelineEvent::ForcesRecovered { num_elements: 2 },
        PipelineEvent::ReactionsComputed { num_reactions: 1 },
        PipelineEvent::EquilibriumChecked { imbalance: 1e-9, satisfied: true },
    ]
}

#[test]
fn complete_analysis_records_every_step_in_order() {
    let (trail, stage) = run(successful_events());
    assert_eq!(stage, Some(PipelineStage::Done));
    assert_eq!(
        actions(&trail),
        vec![
            "start_analysis",
            "assemble_global_stiffness",
            "stiffness_matrix_assembled",
            "assemble_load_vector",
            "load_vector_assembled",
            "apply_boundary_conditions",
            "solve_linear_system",
            "linear_system_solved",
            "compute_element_forces",
            "element_forces_computed",
            "compute_support_reactions",
            "support_reactions_computed",
            "verify_equilibrium",
            "analysis_complete",
        ]
    );
    let e = &trail.entries;
    assert!(e[0].details.is_empty());
    assert_eq!(e[1].details[0].0, "num_elements");
    assert_eq!(e[1].details[0].1, AuditValue::Integer(0));
    assert_eq!(e[1].details[1], ("num_nodes".to_string(), AuditValue::Integer(3)));
    assert_eq!(e[2].details[1], ("nnz".to_string(), AuditValue::Integer(40)));
    assert_eq!(e[4].details[1], ("load_norm".to_string(), AuditValue::Float(5.0)));
    assert_eq!(e[5].details[0], ("num_supports".to_string(), AuditValue::Integer(1)));
    assert_eq!(e[5].details[1], ("strategy".to_string(), AuditValue::String("Elimination".to_string())));
    assert_eq!(
        e[6].details[0],
        ("solver".to_string(), AuditValue::String("CPU Cholesky (nalgebra-sparse)".to_string()))
    );
    assert_eq!(e[6].details[1], ("dofs".to_string(), AuditValue::Integer(18)));
    assert_eq!(e[9].details[0], ("num_elements".to_string(), AuditValue::Integer(2)));
    assert_eq!(e[12].details[1], ("equilibrium_satisfied".to_string(), AuditValue::Boolean(true)));
}

#[test]
fn failed_solve_stops_after_the_solve_entry() {
    let mut events = successful_events();
    events[4] = PipelineEvent::SolveFailed;
    let (trail, stage) = run(events);
    assert_eq!(stage, None);
    assert_eq!(trail.entries.len(), 7);
    assert_eq!(trail.entries.last().unwrap().action, "solve_linear_system");
}

#[test]
fn event_out_of_place_records_nothing() {
    let m = model();
    let mut trail: AuditTrail<f64> = AuditTrail::new();
    let next = record_step(&mut trail, &m, "s", PipelineStage::Stiffness, PipelineEvent::Proceed);
    assert_eq!(next, None);
    assert!(trail.entries.is_empty());
    let done = record_step(&mut trail, &m, "s", PipelineStage::Done, PipelineEvent::Proceed);
    assert_eq!(done, None);
    assert!(trail.entries.is_empty());
}
