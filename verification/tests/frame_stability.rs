use fe_engine::structure::{
    BeamFormulation, CoordinateSystem, ConcreteGrade, ConcreteStandard, Direction, DofMask,
    Element, ElementType, Material, MaterialType, ModelMetadata, Node, Plane, Point3D, Section,
    SpringStiffness, StructuralModel, Support, SupportType, UnitSystem,
};
use fe_engine::validation::checks::validate_frame_stability;
use fe_engine::validation::ValidationError;

fn create_simple_frame() -> StructuralModel<f64> {
    StructuralModel {
        nodes: vec![
            Node {
                id: 1,
                coordinates: Point3D { x: 0.0, y: 0.0, z: 0.0 },
                dof_mask: DofMask::all(),
            },
            Node {
                id: 2,
                coordinates: Point3D { x: 5.0, y: 0.0, z: 0.0 },
                dof_mask: DofMask::all(),
            },
        ],
        elements: vec![Element {
            id: 1,
            connectivity: vec![1, 2],
            element_type: ElementType::Frame2D { plane: Plane::XZ },
            material_id: 1,
            section: Section {
                area: 0.09,
                inertia_y: 0.000675,
                inertia_z: 0.000675,
                torsion_constant: 0.001,
            },
            local_axes: None,
        }],
        materials: vec![Material {
            id: 1,
            name: "Concrete".to_string(),
            elastic_modulus: 30e9,
            poisson_ratio: 0.2,
            density: 2400.0,
            thermal_expansion: 1e-5,
            code_reference: None,
            material_type: MaterialType::Concrete {
                grade: ConcreteGrade {
                    standard: ConcreteStandard::Eurocode2 { grade: "C30/37".to_string() },
                    characteristic_strength: 30e6,
                },
            },
        }],
        supports: vec![],
        load_cases: vec![],
        metadata: ModelMetadata {
            name: "Test Frame".to_string(),
            description: "Test".to_string(),
            created: "2025-01-26T00:00:00+00:00".to_string(),
            modified: "2025-01-26T00:00:00+00:00".to_string(),
            units: UnitSystem::SI,
            coordinate_system: CoordinateSystem::Global {
                x_direction: "Right".to_string(),
                y_direction: "Up".to_string(),
                z_direction: "Out".to_string(),
            },
        },
    }
}

fn has_insufficient(errors: &[ValidationError], word: &str) -> bool {
    errors.iter().any(|e| {
        matches!(e, ValidationError::InsufficientSupports { message } if message.contains(word))
    })
}

#[test]
fn test_validate_frame_stability_with_fixed_supports() {
    let mut model = create_simple_frame();
    model.supports = vec![
        Support { id: 1, node_id: 1, support_type: SupportType::Fixed },
        Support { id: 2, node_id: 2, support_type: SupportType::Fixed },
    ];

    let errors = validate_frame_stability(&model);
    assert_eq!(errors.len(), 0, "Fixed supports should satisfy stability");
}

#[test]
fn test_validate_frame_stability_with_pinned_supports() {
    let mut model = create_simple_frame();
    model.supports = vec![
        Support { id: 1, node_id: 1, support_type: SupportType::Pinned },
        Support { id: 2, node_id: 2, support_type: SupportType::Pinned },
    ];

    let errors = validate_frame_stability(&model);
    assert_eq!(errors.len(), 0, "Two pinned supports should satisfy stability");
}

#[test]
fn test_validate_frame_stability_insufficient_horizontal() {
    let mut model = create_simple_frame();
    model.supports = vec![Support {
        id: 1,
        node_id: 1,
        support_type: SupportType::Roller { free_direction: Direction::X },
    }];

    let errors = validate_frame_stability(&model);
    assert!(errors.len() > 0, "Should detect missing horizontal restraint");
    assert!(has_insufficient(&errors, "horizontal"));
}

#[test]
fn test_validate_frame_stability_insufficient_vertical() {
    let mut model = create_simple_frame();
    model.supports = vec![Support {
        id: 1,
        node_id: 1,
        support_type: SupportType::Roller { free_direction: Direction::Y },
    }];

    let errors = validate_frame_stability(&model);
    assert!(errors.len() > 0, "Should detect missing vertical restraint");
    assert!(has_insufficient(&errors, "vertical"));
}

#[test]
fn test_validate_frame_stability_insufficient_rotation() {
    let mut model = create_simple_frame();
    model.supports = vec![Support { id: 1, node_id: 1, support_type: SupportType::Pinned }];

    let errors = validate_frame_stability(&model);
    assert!(errors.len() > 0, "Should detect potential rotation instability");
    assert!(has_insufficient(&errors, "rotation"));
}

#[test]
fn test_validate_frame_stability_non_frame_elements() {
    let mut model = create_simple_frame();
    model.elements[0].element_type =
        ElementType::Beam1D { formulation: BeamFormulation::EulerBernoulli };
    model.supports = vec![Support { id: 1, node_id: 1, support_type: SupportType::Pinned }];

    let errors = validate_frame_stability(&model);
    assert_eq!(errors.len(), 0, "Should skip validation for non-frame elements");
}

#[test]
fn stability_roller_x_reports_horizontal_and_rotation_exactly() {
    let mut model = create_simple_frame();
    model.supports = vec![Support {
        id: 1,
        node_id: 1,
        support_type: SupportType::Roller { free_direction: Direction::X },
    }];
    let errors = validate_frame_stability(&model);
    assert_eq!(
        errors,
        vec![
            ValidationError::InsufficientSupports {
                message: "2D frame requires at least one horizontal restraint to prevent rigid body translation".to_string(),
            },
            ValidationError::InsufficientSupports {
                message: "2D frame requires multiple supports or rotational restraint to prevent rigid body rotation".to_string(),
            },
        ]
    );
}

#[test]
fn stability_springs_restrain_nothing() {
    let mut model = create_simple_frame();
    let k = SpringStiffness {
        tx: Some(1.0e6),
        ty: Some(1.0e6),
        tz: Some(1.0e6),
        rx: None,
        ry: None,
        rz: None,
    };
    model.supports = vec![
        Support { id: 1, node_id: 1, support_type: SupportType::ElasticSpring { stiffness: k } },
        Support { id: 2, node_id: 2, support_type: SupportType::ElasticSpring { stiffness: k } },
    ];
    let errors = validate_frame_stability(&model);
    assert_eq!(errors.len(), 3);
    assert!(has_insufficient(&errors, "horizontal"));
    assert!(has_insufficient(&errors, "vertical"));
    assert!(has_insufficient(&errors, "out-of-plane"));
}

#[test]
fn stability_frame3d_only_reports_nothing() {
    let mut model = create_simple_frame();
    model.elements[0].element_type = ElementType::Frame3D;
    model.supports = vec![Support {
        id: 1,
        node_id: 1,
        support_type: SupportType::Roller { free_direction: Direction::X },
    }];
    assert!(validate_frame_stability(&model).is_empty());
}

#[test]
fn stability_without_supports_reports_nothing() {
    let model = create_simple_frame();
    assert!(validate_frame_stability(&model).is_empty());
}
