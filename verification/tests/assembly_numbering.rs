use fe_engine::analysis::assembler::Restraint;
use fe_engine::analysis::sparse::{compress, find_entry};
use fe_engine::analysis::GlobalAssembler;
use fe_engine::structure::{
    BeamFormulation, CoordinateSystem, Direction, Element, ElementType, ModelMetadata, Plane,
    Section, SpringStiffness, StructuralModel, Support, SupportType, UnitSystem,
};

#[test]
fn test_frame2d_dof_mapping() {
    let dof_map = Plane::XZ.dof_mapping();
    assert_eq!(dof_map, [0, 2, 4, 0, 2, 4]);
}

#[test]
fn frame_mappings_and_out_of_plane_freedoms() {
    assert_eq!(Plane::XY.dof_mapping(), [0, 1, 5, 0, 1, 5]);
    assert_eq!(Plane::YZ.dof_mapping(), [1, 2, 3, 1, 2, 3]);
    assert_eq!(Plane::XY.out_of_plane_dofs(), vec![2, 3, 4]);
    assert_eq!(Plane::XZ.out_of_plane_dofs(), vec![1, 3, 5]);
    assert_eq!(Plane::YZ.out_of_plane_dofs(), vec![0, 4, 5]);
}

#[test]
fn global_numbering_of_freedoms() {
    assert_eq!(GlobalAssembler::dof_index(0, 0), 0);
    assert_eq!(GlobalAssembler::dof_index(3, 4), 22);
    assert_eq!(
        GlobalAssembler::beam_element_dofs(1, 3),
        vec![6, 7, 8, 9, 10, 11, 18, 19, 20, 21, 22, 23]
    );
    assert_eq!(GlobalAssembler::frame_element_dofs(2, 0, Plane::XZ), vec![12, 14, 16, 0, 2, 4]);
}

#[test]
fn restraints_and_reactions_of_supports() {
    let roller: SupportType<f64> = SupportType::Roller { free_direction: Direction::Y };
    assert_eq!(
        GlobalAssembler::support_restraints(&roller),
        vec![(0, Restraint::Rigid), (2, Restraint::Rigid), (4, Restraint::Rigid)]
    );
    assert_eq!(GlobalAssembler::reaction_dofs(&roller), vec![0, 2, 4]);
    let fixed: SupportType<f64> = SupportType::Fixed;
    assert_eq!(GlobalAssembler::reaction_dofs(&fixed), vec![0, 1, 2, 3, 4, 5]);
    let pinned: SupportType<f64> = SupportType::Pinned;
    assert_eq!(GlobalAssembler::support_restraints(&pinned).len(), 3);
    let spring: SupportType<f64> = SupportType::ElasticSpring {
        stiffness: SpringStiffness { tx: None, ty: Some(5.0), tz: None, rx: None, ry: Some(2.0), rz: None },
    };
    assert_eq!(
        GlobalAssembler::support_restraints(&spring),
        vec![(1, Restraint::Spring(5.0)), (4, Restraint::Spring(2.0))]
    );
    assert_eq!(GlobalAssembler::reaction_dofs(&spring), vec![1, 4]);
}

#[test]
fn boundary_restraints_of_a_model() {
    let model: StructuralModel<f64> = StructuralModel {
        nodes: vec![],
        elements: vec![],
        materials: vec![],
        supports: vec![
            Support { id: 0, node_id: 0, support_type: SupportType::Pinned },
            Support { id: 1, node_id: 2, support_type: SupportType::Roller { free_direction: Direction::X } },
        ],
        load_cases: vec![],
        metadata: ModelMetadata {
            name: String::new(),
            description: String::new(),
            created: String::new(),
            modified: String::new(),
            units: UnitSystem::SI,
            coordinate_system: CoordinateSystem::Global {
                x_direction: String::new(),
                y_direction: String::new(),
                z_direction: String::new(),
            },
        },
    };
    let dofs: Vec<usize> = GlobalAssembler::boundary_restraints(&model).iter().map(|p| p.0).collect();
    assert_eq!(dofs, vec![0, 1, 2, 13, 14, 15]);
}

#[test]
fn compressed_rows_merge_repeated_keys() {
    let keys = vec![(1, 2), (0, 0), (1, 0), (1, 2), (2, 2), (0, 0)];
    let p = compress(&keys, 3);
    assert_eq!(p.row_offsets, vec![0, 1, 3, 4]);
    assert_eq!(p.col_indices, vec![0, 0, 2, 2]);
    assert_eq!(p.slots, vec![2, 0, 1, 2, 3, 0]);
    assert_eq!(find_entry(&p.row_offsets, &p.col_indices, 3, 1, 2), Some(2));
    assert_eq!(find_entry(&p.row_offsets, &p.col_indices, 3, 1, 1), None);
    assert_eq!(find_entry(&p.row_offsets, &p.col_indices, 3, 2, 2), Some(3));
}

#[test]
fn lookup_of_each_key_finds_its_slot() {
    let keys = vec![(3, 1), (0, 4), (3, 3), (2, 0), (3, 1), (4, 4), (0, 0)];
    let p = compress(&keys, 5);
    for (t, &(row, col)) in keys.iter().enumerate() {
        assert_eq!(find_entry(&p.row_offsets, &p.col_indices, 5, row, col), Some(p.slots[t]));
    }
    assert_eq!(find_entry(&p.row_offsets, &p.col_indices, 5, 1, 1), None);
}

#[test]
fn compressed_rows_of_no_keys() {
    let p = compress(&vec![], 4);
    assert_eq!(p.row_offsets, vec![0, 0, 0, 0, 0]);
    assert!(p.col_indices.is_empty());
    assert!(p.slots.is_empty());
}

fn element(element_type: ElementType, connectivity: Vec<usize>) -> Element<f64> {
    Element {
        id: 0,
        element_type,
        connectivity,
        material_id: 0,
        section: Section::new(0.01, 1e-5, 1e-5, 1e-6),
        local_axes: None,
    }
}

#[test]
fn freedoms_of_element_stiffness_and_forces() {
    let frame = element(ElementType::Frame2D { plane: Plane::XY }, vec![1, 0]);
    assert_eq!(GlobalAssembler::stiffness_dofs(&frame), Some(vec![6, 7, 11, 0, 1, 5]));
    assert_eq!(
        GlobalAssembler::force_dofs(&frame),
        Some(vec![6, 7, 8, 9, 10, 11, 0, 1, 2, 3, 4, 5])
    );
    let beam = element(ElementType::Beam1D { formulation: BeamFormulation::EulerBernoulli }, vec![0, 2]);
    let twelve = Some(vec![0, 1, 2, 3, 4, 5, 12, 13, 14, 15, 16, 17]);
    assert_eq!(GlobalAssembler::stiffness_dofs(&beam), twelve);
    assert_eq!(GlobalAssembler::force_dofs(&beam), twelve);
    let frame3d = element(ElementType::Frame3D, vec![0, 2]);
    assert_eq!(GlobalAssembler::stiffness_dofs(&frame3d), twelve);
    let shell = element(ElementType::Shell2D, vec![0, 1, 2]);
    assert_eq!(GlobalAssembler::stiffness_dofs(&shell), None);
    assert_eq!(GlobalAssembler::force_dofs(&shell), None);
}

#[test]
fn line_elements_in_model_order() {
    let model: StructuralModel<f64> = StructuralModel {
        nodes: vec![],
        elements: vec![
            element(ElementType::Shell2D, vec![0, 1, 2]),
            element(ElementType::Frame2D { plane: Plane::XZ }, vec![0, 1]),
            element(ElementType::Solid3D, vec![]),
            element(ElementType::Frame3D, vec![2, 1]),
        ],
        materials: vec![],
        supports: vec![],
        load_cases: vec![],
        metadata: ModelMetadata {
            name: String::new(),
            description: String::new(),
            created: String::new(),
            modified: String::new(),
            units: UnitSystem::SI,
            coordinate_system: CoordinateSystem::Global {
                x_direction: String::new(),
                y_direction: String::new(),
                z_direction: String::new(),
            },
        },
    };
    let plan = GlobalAssembler::force_elements(&model);
    assert_eq!(plan.len(), 2);
    assert_eq!(plan[0], (1, vec![0, 1, 2, 3, 4, 5, 6, 7, 8, 9, 10, 11]));
    assert_eq!(plan[1], (3, vec![12, 13, 14, 15, 16, 17, 6, 7, 8, 9, 10, 11]));
}
