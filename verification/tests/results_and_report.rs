use fe_engine::analysis::{
    AnalysisResult, ElementForceComponents, ElementForces, ModelSnapshot, NodalDisplacement,
    SolverBackend, SolverInfo, SupportReaction,
};
use fe_engine::export::report::{
    load_count, material_infos, CalculationReport, Language, ReportConfig, ReportSection,
};
use fe_engine::structure::{
    CodeReference, CoordinateSystem, Load, LoadCase, LoadType, Material, MaterialType,
    ModelMetadata, StructuralModel, UnitSystem, Vector3D,
};
use std::time::Duration;

fn v(x: f64) -> Vector3D<f64> {
    Vector3D { x, y: 0.0, z: 0.0 }
}

fn beam_forces(element_id: usize) -> ElementForces<f64> {
    ElementForces {
        element_id,
        forces: ElementForceComponents::Beam {
            axial: vec![1.0, 2.0],
            shear_y: vec![0.0, 0.0],
            shear_z: vec![0.0, 0.0],
            moment_y: vec![0.0, 0.0],
            moment_z: vec![0.0, 0.0],
            torsion: vec![0.0, 0.0],
            evaluation_points: vec![0.0, 1.0],
        },
    }
}

fn result() -> AnalysisResult<f64> {
    AnalysisResult::new(
        ModelSnapshot::new("abc".to_string()),
        vec![
            NodalDisplacement::new(0, v(0.0), v(0.0)),
            NodalDisplacement::new(4, v(1.5), v(0.0)),
            NodalDisplacement::new(4, v(9.0), v(0.0)),
        ],
        vec![
            beam_forces(0),
            ElementForces {
                element_id: 1,
                forces: ElementForceComponents::Shell {
                    membrane_forces: vec![],
                    bending_moments: vec![],
                    shear_forces: vec![],
                    evaluation_points: vec![],
                },
            },
            beam_forces(2),
        ],
        vec![SupportReaction::new(3, 0, v(-5.0), v(0.0))],
        SolverInfo::new(SolverBackend::CpuCholesky, Duration::from_millis(3)).with_iterations(12, 1e-9),
    )
}

#[test]
fn result_lookups_return_first_match() {
    let r = result();
    assert_eq!(r.displacement_at_node(4).unwrap().translation.x, 1.5);
    assert!(r.displacement_at_node(7).is_none());
    assert_eq!(r.forces_in_element(2).unwrap().element_id, 2);
    assert!(r.forces_in_element(9).is_none());
    assert_eq!(r.reaction_at_support(3).unwrap().force.x, -5.0);
    assert!(r.reaction_at_support(0).is_none());
    let beams: Vec<usize> = r.all_beam_forces().iter().map(|f| f.element_id).collect();
    assert_eq!(beams, vec![0, 2]);
    assert_eq!(r.model_snapshot.model_hash, "abc");
    assert_eq!(r.solver_info.iterations, Some(12));
    assert_eq!(r.solver_info.residual_norm, Some(1e-9));
    assert_eq!(r.solver_info.software_version, "0.1.0");
}

#[test]
fn report_configuration_and_language() {
    let c = ReportConfig::default();
    assert!(c.include_audit_trail);
    assert!(!c.include_plots);
    assert!(c.code_references);
    assert_eq!(c.language, Language::English);
    assert_eq!(Language::from_code("fr"), Language::French);
    assert_eq!(Language::from_code("es"), Language::Spanish);
    assert_eq!(Language::from_code("en"), Language::English);
    assert_eq!(Language::from_code("FR"), Language::English);
}

#[test]
fn report_sections_keep_their_order() {
    let mut report: CalculationReport<f64> = CalculationReport::new("Calculation Report - B".to_string());
    report.add_section(ReportSection::AuditTrail { entries: vec![] });
    report.add_section(ReportSection::Results { displacements: vec![], forces: vec![], reactions: vec![] });
    assert_eq!(report.title, "Calculation Report - B");
    assert_eq!(report.sections.len(), 2);
    assert!(matches!(report.sections[0], ReportSection::AuditTrail { .. }));
}

#[test]
fn materials_and_loads_for_the_report() {
    let concrete = Material {
        id: 0,
        name: "Concrete C30/37".to_string(),
        material_type: MaterialType::Custom,
        elastic_modulus: 33e9,
        poisson_ratio: 0.2,
        density: 2400.0,
        thermal_expansion: 10e-6,
        code_reference: Some(CodeReference {
            standard: "EN 1992-1-1:2004".to_string(),
            section: "Table 3.1".to_string(),
        }),
    };
    let model: StructuralModel<f64> = StructuralModel {
        nodes: vec![],
        elements: vec![],
        materials: vec![concrete],
        supports: vec![],
        load_cases: vec![
            LoadCase {
                id: 0,
                name: "A".to_string(),
                load_type: LoadType::Dead,
                loads: vec![
                    Load::NodalForce { node_id: 0, force: v(1.0), moment: v(0.0) },
                    Load::NodalForce { node_id: 1, force: v(1.0), moment: v(0.0) },
                ],
            },
            LoadCase {
                id: 1,
                name: "B".to_string(),
                load_type: LoadType::Custom("snow".to_string()),
                loads: vec![Load::NodalForce { node_id: 0, force: v(2.0), moment: v(0.0) }],
            },
        ],
        metadata: ModelMetadata {
            name: String::new(),
            description: String::new(),
            created: String::new(),
            modified: String::new(),
            units: UnitSystem::SI,
            coordinate_system: CoordinateSystem::Global {
                x_direction: String::new(),
                y_direction: String::new(),
                z_direction: String::new(),
            },
        },
    };
    let infos = material_infos(&model);
    assert_eq!(infos.len(), 1);
    assert_eq!(infos[0].name, "Concrete C30/37");
    assert_eq!(infos[0].code_reference.as_ref().unwrap().section, "Table 3.1");
    assert_eq!(load_count(&model), 3);
}
