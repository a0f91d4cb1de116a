use fe_engine::builder::ModelBuilder;
use fe_engine::structure::{
    BeamFormulation, Direction, ElementType, Load, LoadDistribution, LoadType, Material,
    MaterialType, Plane, Point3D, Section, SupportType, UnitSystem, Vector3D,
};
use fe_engine::validation::{BuildError, ValidationError};

fn steel() -> Material<f64> {
    Material {
        id: 42,
        name: "Steel S355".to_string(),
        material_type: MaterialType::Custom,
        elastic_modulus: 210e9,
        poisson_ratio: 0.3,
        density: 7850.0,
        thermal_expansion: 12e-6,
        code_reference: None,
    }
}

fn section() -> Section<f64> {
    Section::new(0.01, 8.33e-6, 8.33e-6, 1.0e-6)
}

fn p(x: f64) -> Point3D<f64> {
    Point3D { x, y: 0.0, z: 0.0 }
}

#[test]
fn builder_numbers_items_from_zero() {
    let mut b: ModelBuilder<f64> = ModelBuilder::new("Beam");
    assert_eq!(b.add_node(p(0.0)), 0);
    assert_eq!(b.add_node(p(5.0)), 1);
    assert_eq!(b.add_node(p(10.0)), 2);
    assert_eq!(b.add_material(steel()), 0);
    assert_eq!(b.add_material(steel()), 1);
    assert_eq!(b.materials()[0].id, 0);
    assert_eq!(b.materials()[1].id, 1);
    assert_eq!(b.add_beam_element(0, 1, 0, section()), Ok(0));
    assert_eq!(b.add_frame_element(1, 2, 1, section(), Plane::XZ), Ok(1));
    assert_eq!(b.elements()[0].element_type, ElementType::Beam1D {
        formulation: BeamFormulation::EulerBernoulli
    });
    assert_eq!(b.elements()[1].element_type, ElementType::Frame2D { plane: Plane::XZ });
    assert_eq!(b.elements()[1].connectivity, vec![1, 2]);
    assert_eq!(b.nodes().len(), 3);
}

#[test]
fn builder_refuses_missing_nodes_and_materials() {
    let mut b: ModelBuilder<f64> = ModelBuilder::new("Beam");
    b.add_node(p(0.0));
    b.add_node(p(1.0));
    b.add_material(steel());
    assert_eq!(
        b.add_beam_element(0, 2, 0, section()),
        Err(BuildError::InvalidNodeReference { element_id: 0, node_id: 2 })
    );
    assert_eq!(
        b.add_beam_element(5, 7, 0, section()),
        Err(BuildError::InvalidNodeReference { element_id: 0, node_id: 5 })
    );
    assert_eq!(
        b.add_frame_element(0, 1, 1, section(), Plane::XY),
        Err(BuildError::InvalidMaterialReference { element_id: 0, material_id: 1 })
    );
    assert!(b.elements().is_empty());
    assert_eq!(
        b.add_support(9, SupportType::Fixed),
        Err(BuildError::InvalidNodeReference { element_id: 0, node_id: 9 })
    );
    assert_eq!(b.add_support(1, SupportType::Pinned), Ok(()));
}

#[test]
fn builder_builds_a_valid_model_with_its_load_cases() {
    let mut b: ModelBuilder<f64> = ModelBuilder::new("Simple Beam").description("two spans");
    b = b.units(UnitSystem::Imperial);
    let n0 = b.add_node(p(0.0));
    let n1 = b.add_node(p(5.0));
    let n2 = b.add_node(p(10.0));
    b.add_material(steel());
    b.add_beam_element(n0, n1, 0, section()).unwrap();
    b.add_beam_element(n1, n2, 0, section()).unwrap();
    b.add_support(n0, SupportType::Fixed).unwrap();
    b.add_support(n2, SupportType::Roller { free_direction: Direction::X }).unwrap();
    b.create_load_case("UDL", LoadType::Live)
        .add_uniform_load_on_all_elements(10000.0, Vector3D { x: 0.0, y: 0.0, z: -1.0 })
        .unwrap()
        .finish();
    b.create_load_case("Point", LoadType::Dead)
        .add_nodal_force(n1, Vector3D { x: 0.0, y: 0.0, z: -5.0 }, Vector3D { x: 0.0, y: 0.0, z: 0.0 })
        .unwrap()
        .finish();
    let m = b.build(vec![], vec![]).unwrap();
    assert_eq!(m.metadata.name, "Simple Beam");
    assert_eq!(m.metadata.description, "two spans");
    assert_eq!(m.metadata.units, UnitSystem::Imperial);
    assert_eq!(m.metadata.created, m.metadata.modified);
    assert_eq!(m.nodes.len(), 3);
    assert_eq!(m.load_cases.len(), 2);
    assert_eq!(m.load_cases[0].id, 0);
    assert_eq!(m.load_cases[0].name, "UDL");
    assert_eq!(m.load_cases[0].loads.len(), 2);
    match &m.load_cases[0].loads[1] {
        Load::ElementLoad { element_id, load_distribution } => {
            assert_eq!(*element_id, 1);
            match load_distribution {
                LoadDistribution::UniformDistributed { intensity, direction } => {
                    assert_eq!(*intensity, 10000.0);
                    assert_eq!(direction.z, -1.0);
                }
                _ => panic!("uniform load expected"),
            }
        }
        _ => panic!("element load expected"),
    }
    assert_eq!(m.load_cases[1].id, 1);
    assert_eq!(m.load_cases[1].loads.len(), 1);
}

#[test]
fn uniform_load_covers_elements_existing_at_creation() {
    let mut b: ModelBuilder<f64> = ModelBuilder::new("Late element");
    b.add_node(p(0.0));
    b.add_node(p(1.0));
    b.add_node(p(2.0));
    b.add_material(steel());
    b.add_beam_element(0, 1, 0, section()).unwrap();
    b.add_support(0, SupportType::Fixed).unwrap();
    let lc = b.create_load_case("L", LoadType::Wind);
    lc.add_element_load(0, LoadDistribution::PointLoad {
        position: 0.5,
        force: Vector3D { x: 0.0, y: 0.0, z: -1.0 },
        moment: Vector3D { x: 0.0, y: 0.0, z: 0.0 },
    })
    .unwrap();
    b.add_beam_element(1, 2, 0, section()).unwrap();
    b.create_load_case("U", LoadType::Dead)
        .add_uniform_load_on_all_elements(2.0, Vector3D { x: 0.0, y: 0.0, z: -1.0 })
        .unwrap();
    let m = b.build(vec![], vec![]).unwrap();
    assert_eq!(m.load_cases[0].loads.len(), 1);
    assert_eq!(m.load_cases[1].loads.len(), 2);
}

#[test]
fn build_reports_validation_failures() {
    let mut b: ModelBuilder<f64> = ModelBuilder::new("No supports");
    b.add_node(p(0.0));
    b.add_node(p(1.0));
    b.add_material(steel());
    b.add_beam_element(0, 1, 0, section()).unwrap();
    let r = b.build(vec![ValidationError::ZeroLengthElement { element_id: 0 }], vec![]);
    assert_eq!(
        r.unwrap_err(),
        BuildError::ValidationFailed {
            errors: vec![
                ValidationError::ZeroLengthElement { element_id: 0 },
                ValidationError::NoSupportsDefined,
            ],
        }
    );
}

#[test]
fn empty_builder_fails_validation() {
    let b: ModelBuilder<f64> = ModelBuilder::new("Empty");
    match b.build(vec![], vec![]) {
        Err(BuildError::ValidationFailed { errors }) => assert_eq!(errors.len(), 4),
        _ => panic!("empty model must fail"),
    }
}
