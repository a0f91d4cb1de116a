use fe_engine::structure::{
    BeamFormulation, CoordinateSystem, Direction, DofMask, Element, ElementType, Material,
    MaterialType, ModelMetadata, Node, Plane, Point3D, Section, StructuralModel, Support,
    SupportType, UnitSystem,
};
use fe_engine::validation::checks::{
    length_checks, validate_material_references, validate_node_references, validate_non_empty,
    validate_supports, validate_unique_ids,
};
use fe_engine::validation::{validate_model, BuildError, ValidationError};

fn node(id: usize, x: f64) -> Node<f64> {
    Node { id, coordinates: Point3D { x, y: 0.0, z: 0.0 }, dof_mask: DofMask::all() }
}

fn section() -> Section<f64> {
    Section { area: 0.01, inertia_y: 8.33e-6, inertia_z: 8.33e-6, torsion_constant: 1.0e-6 }
}

fn beam(id: usize, a: usize, b: usize, material_id: usize) -> Element<f64> {
    Element {
        id,
        element_type: ElementType::Beam1D { formulation: BeamFormulation::EulerBernoulli },
        connectivity: vec![a, b],
        material_id,
        section: section(),
        local_axes: None,
    }
}

fn material(id: usize) -> Material<f64> {
    Material {
        id,
        name: "Steel".to_string(),
        material_type: MaterialType::Custom,
        elastic_modulus: 210e9,
        poisson_ratio: 0.3,
        density: 7850.0,
        thermal_expansion: 12e-6,
        code_reference: None,
    }
}

fn model(
    nodes: Vec<Node<f64>>,
    elements: Vec<Element<f64>>,
    materials: Vec<Material<f64>>,
    supports: Vec<Support<f64>>,
) -> StructuralModel<f64> {
    StructuralModel {
        nodes,
        elements,
        materials,
        supports,
        load_cases: vec![],
        metadata: ModelMetadata {
            name: "M".to_string(),
            description: String::new(),
            created: String::new(),
            modified: String::new(),
            units: UnitSystem::SI,
            coordinate_system: CoordinateSystem::Global {
                x_direction: "East".to_string(),
                y_direction: "North".to_string(),
                z_direction: "Up".to_string(),
            },
        },
    }
}

fn sound_beam() -> StructuralModel<f64> {
    model(
        vec![node(0, 0.0), node(1, 5.0)],
        vec![beam(0, 0, 1, 0)],
        vec![material(0)],
        vec![
            Support { id: 0, node_id: 0, support_type: SupportType::Fixed },
            Support { id: 1, node_id: 1, support_type: SupportType::Roller { free_direction: Direction::X } },
        ],
    )
}

#[test]
fn sound_model_validates() {
    let m = sound_beam();
    assert_eq!(validate_model(&m, vec![], vec![]), Ok(()));
    assert_eq!(m.validate(vec![], vec![]), Ok(()));
}

#[test]
fn empty_model_reports_each_empty_list_and_missing_supports() {
    let m = model(vec![], vec![], vec![], vec![]);
    let errors = validate_model(&m, vec![], vec![]).unwrap_err();
    assert_eq!(
        errors,
        vec![
            ValidationError::EmptyModel { message: "No nodes defined".to_string() },
            ValidationError::EmptyModel { message: "No elements defined".to_string() },
            ValidationError::EmptyModel { message: "No materials defined".to_string() },
            ValidationError::NoSupportsDefined,
        ]
    );
    assert_eq!(validate_non_empty(&m).len(), 3);
}

#[test]
fn repeated_identifiers_are_reported_after_the_first() {
    let mut m = sound_beam();
    m.nodes.push(node(1, 9.0));
    m.nodes.push(node(1, 10.0));
    m.elements.push(beam(0, 0, 1, 0));
    assert_eq!(
        validate_unique_ids(&m),
        vec![
            ValidationError::DuplicateNodeId { node_id: 1 },
            ValidationError::DuplicateNodeId { node_id: 1 },
            ValidationError::DuplicateElementId { element_id: 0 },
        ]
    );
}

#[test]
fn missing_nodes_and_wrong_node_count_are_reported() {
    let mut m = sound_beam();
    m.elements.push(Element {
        id: 7,
        element_type: ElementType::Shell2D,
        connectivity: vec![0, 5, 6, 1],
        material_id: 0,
        section: section(),
        local_axes: None,
    });
    assert_eq!(
        validate_node_references(&m),
        vec![
            ValidationError::InvalidNodeReference { element_id: 7, node_id: 5 },
            ValidationError::InvalidNodeReference { element_id: 7, node_id: 6 },
            ValidationError::InvalidElementConnectivity { element_id: 7, expected: 3, found: 4 },
        ]
    );
}

#[test]
fn missing_material_is_reported() {
    let mut m = sound_beam();
    m.elements.push(beam(3, 0, 1, 9));
    assert_eq!(
        validate_material_references(&m),
        vec![ValidationError::InvalidMaterialReference { element_id: 3, material_id: 9 }]
    );
}

#[test]
fn support_on_missing_node_is_reported_with_element_zero() {
    let mut m = sound_beam();
    m.supports.push(Support { id: 2, node_id: 42, support_type: SupportType::Pinned });
    assert_eq!(
        validate_supports(&m),
        vec![ValidationError::InvalidNodeReference { element_id: 0, node_id: 42 }]
    );
}

#[test]
fn findings_take_their_place_in_check_order() {
    let mut m = sound_beam();
    m.elements.push(beam(1, 0, 1, 4));
    m.supports.clear();
    let geometry = vec![ValidationError::ZeroLengthElement { element_id: 1 }];
    let properties = vec![ValidationError::InvalidSectionProperties {
        element_id: 1,
        message: "Area must be positive, got 0".to_string(),
    }];
    let errors = validate_model(&m, geometry, properties).unwrap_err();
    assert_eq!(
        errors,
        vec![
            ValidationError::ZeroLengthElement { element_id: 1 },
            ValidationError::InvalidMaterialReference { element_id: 1, material_id: 4 },
            ValidationError::InvalidSectionProperties {
                element_id: 1,
                message: "Area must be positive, got 0".to_string(),
            },
            ValidationError::NoSupportsDefined,
        ]
    );
}

#[test]
fn length_checks_resolve_nodes_to_their_last_position() {
    let mut m = sound_beam();
    m.nodes.push(node(1, 7.0));
    m.elements.push(Element {
        id: 5,
        element_type: ElementType::Frame2D { plane: Plane::XY },
        connectivity: vec![1, 0],
        material_id: 0,
        section: section(),
        local_axes: None,
    });
    m.elements.push(beam(6, 0, 99, 0));
    m.elements.push(Element {
        id: 8,
        element_type: ElementType::Solid3D,
        connectivity: vec![0, 1],
        material_id: 0,
        section: section(),
        local_axes: None,
    });
    assert_eq!(length_checks(&m), vec![(0, 0, 2), (5, 2, 0)]);
}

#[test]
fn validation_error_texts() {
    assert_eq!(
        ValidationError::InvalidNodeReference { element_id: 3, node_id: 12 }.to_string(),
        "Element 3 references non-existent node 12"
    );
    assert_eq!(ValidationError::DuplicateNodeId { node_id: 0 }.to_string(), "Duplicate node ID: 0");
    assert_eq!(
        ValidationError::DuplicateElementId { element_id: 105 }.to_string(),
        "Duplicate element ID: 105"
    );
    assert_eq!(
        ValidationError::ZeroLengthElement { element_id: 9 }.to_string(),
        "Element 9 has zero length"
    );
    assert_eq!(
        ValidationError::InvalidElementConnectivity { element_id: 2, expected: 8, found: 10 }
            .to_string(),
        "Element 2 has invalid connectivity: expected 8 nodes, found 10"
    );
    assert_eq!(
        ValidationError::InvalidMaterialReference { element_id: 4, material_id: 70 }.to_string(),
        "Element 4 references non-existent material 70"
    );
    assert_eq!(
        ValidationError::NoSupportsDefined.to_string(),
        "Model has no supports defined (unstable structure)"
    );
    assert_eq!(
        ValidationError::InsufficientSupports { message: "x".to_string() }.to_string(),
        "Insufficient supports: x"
    );
    assert_eq!(
        ValidationError::ConflictingSupports { node_id: 18446744073709551615, message: "m".to_string() }
            .to_string(),
        "Conflicting supports at node 18446744073709551615: m"
    );
    assert_eq!(
        ValidationError::InvalidSectionProperties { element_id: 1, message: "a".to_string() }
            .to_string(),
        "Invalid section properties for element 1: a"
    );
    assert_eq!(
        ValidationError::InvalidMaterialProperties { material_id: 2, message: "b".to_string() }
            .to_string(),
        "Invalid material properties for material 2: b"
    );
    assert_eq!(
        ValidationError::EmptyModel { message: "No nodes defined".to_string() }.to_string(),
        "Empty model: No nodes defined"
    );
}

#[test]
fn build_error_texts() {
    assert_eq!(
        BuildError::InvalidNodeReference { element_id: 1, node_id: 20 }.to_string(),
        "Element 1 references non-existent node 20"
    );
    assert_eq!(
        BuildError::InvalidMaterialReference { element_id: 0, material_id: 3 }.to_string(),
        "Element 0 references non-existent material 3"
    );
    assert_eq!(
        BuildError::ValidationFailed { errors: vec![ValidationError::NoSupportsDefined] }
            .to_string(),
        "Model validation failed with 1 errors"
    );
    assert_eq!(BuildError::DuplicateId { message: "n".to_string() }.to_string(), "Duplicate ID: n");
    assert_eq!(
        BuildError::InvalidProperty { message: "p".to_string() }.to_string(),
        "Invalid property: p"
    );
    assert_eq!(
        BuildError::MissingRequiredField { field: "f".to_string() }.to_string(),
        "Missing required field: f"
    );
    assert_eq!(
        BuildError::InconsistentState { message: "s".to_string() }.to_string(),
        "Inconsistent state: s"
    );
}
