use vstd::prelude::*;

use crate::clock::now_rfc3339;
use crate::structure::element::{BeamFormulation, Element, ElementId, ElementType, MaterialId, Plane};
use crate::structure::geometry::{Point3D, Vector3D};
use crate::structure::load::{Load, LoadCase, LoadCaseId, LoadDistribution, LoadType};
use crate::structure::material::Material;
use crate::structure::model::{CoordinateSystem, ModelMetadata, StructuralModel, UnitSystem};
use crate::structure::node::{DofMask, Node, NodeId, ALL_DOFS};
use crate::structure::section::Section;
use crate::structure::support::{Support, SupportId, SupportType};
use crate::validation::checks::{
    element_fits, element_ids, lemma_absent_ids_of_positions, lemma_model_errors_depend_on_parts,
    lemma_references_of_fitting_elements, lemma_repeated_ids_of_positions, material_ids,
    material_reference_errors, model_errors, node_ids, node_reference_errors, support_errors,
    support_node_ids, unique_id_errors,
};
use crate::validation::error::{error_views, BuildError, ValidationError, ValidationErrorView};

verus! {

/// Builds a [`StructuralModel`] step by step.  Nodes, materials, elements,
/// supports and load cases get consecutive identifiers from 0 in the order
/// they are added, and elements and supports may only refer to nodes and
/// materials added before them.
pub struct ModelBuilder<F> {
    name: String,
    description: String,
    units: UnitSystem,
    nodes: Vec<Node<F>>,
    elements: Vec<Element<F>>,
    materials: Vec<Material<F>>,
    supports: Vec<Support<F>>,
    load_cases: Vec<LoadCase<F>>,
    next_node_id: NodeId,
    next_element_id: ElementId,
    next_material_id: MaterialId,
    next_support_id: SupportId,
    next_load_case_id: LoadCaseId,
    current_load_case: Option<LoadCaseBuilder<F>>,
}

/// Collects the loads of one load case.
pub struct LoadCaseBuilder<F> {
    id: LoadCaseId,
    name: String,
    load_type: LoadType,
    loads: Vec<Load<F>>,
    element_ids: Vec<ElementId>,
}

/// The element that the builder adds for the given arguments.
pub open spec fn built_element<F>(
    e: Element<F>,
    id: ElementId,
    element_type: ElementType,
    node_i: NodeId,
    node_j: NodeId,
    material_id: MaterialId,
    section: Section<F>,
) -> bool {
    &&& e.id == id
    &&& e.element_type == element_type
    &&& e.connectivity@ == seq![node_i, node_j]
    &&& e.material_id == material_id
    &&& e.section == section
    &&& e.local_axes is None
}

/// The error the builder reports for an element between `node_i` and `node_j`
/// made of `material_id`, or `None` when the element may be added.
pub open spec fn element_error(
    next_element_id: ElementId,
    node_count: nat,
    material_count: nat,
    node_i: NodeId,
    node_j: NodeId,
    material_id: MaterialId,
) -> Option<BuildError> {
    if node_i >= node_count || node_j >= node_count {
        Some(
            BuildError::InvalidNodeReference {
                element_id: next_element_id,
                node_id: if node_i >= node_count {
                    node_i
                } else {
                    node_j
                },
            },
        )
    } else if material_id >= material_count {
        Some(BuildError::InvalidMaterialReference { element_id: next_element_id, material_id })
    } else {
        None
    }
}

impl<F> LoadCaseBuilder<F> {
    pub closed spec fn spec_id(&self) -> LoadCaseId {
        self.id
    }

    pub closed spec fn spec_name(&self) -> Seq<char> {
        self.name@
    }

    pub closed spec fn spec_load_type(&self) -> LoadType {
        self.load_type
    }

    pub closed spec fn spec_loads(&self) -> Seq<Load<F>> {
        self.loads@
    }

    /// The elements that existed when the load case was created.
    pub closed spec fn spec_element_ids(&self) -> Seq<ElementId> {
        self.element_ids@
    }

    /// Whether `lc` is the load case this builder has collected.
    pub open spec fn holds(&self, lc: LoadCase<F>) -> bool {
        &&& lc.id == self.spec_id()
        &&& lc.name@ == self.spec_name()
        &&& lc.load_type == self.spec_load_type()
        &&& lc.loads@ == self.spec_loads()
    }

    /// Adds a force and a moment applied at a node.
    pub fn add_nodal_force(&mut self, node_id: NodeId, force: Vector3D<F>, moment: Vector3D<F>) -> (r:
        Result<&mut Self, BuildError>)
        ensures
            r matches Ok(b) && b.spec_loads() == old(self).spec_loads().push(
                Load::NodalForce { node_id, force, moment },
            ) && b.spec_id() == old(self).spec_id() && b.spec_name() == old(self).spec_name()
                && b.spec_load_type() == old(self).spec_load_type() && b.spec_element_ids()
                == old(self).spec_element_ids() && *final(self) == *final(b),
    {
        self.loads.push(Load::NodalForce { node_id, force, moment });
        Ok(self)
    }

    /// Adds a load distributed along an element.
    pub fn add_element_load(
        &mut self,
        element_id: ElementId,
        load_distribution: LoadDistribution<F>,
    ) -> (r: Result<&mut Self, BuildError>)
        ensures
            r matches Ok(b) && b.spec_loads() == old(self).spec_loads().push(
                Load::ElementLoad { element_id, load_distribution },
            ) && b.spec_id() == old(self).spec_id() && b.spec_name() == old(self).spec_name()
                && b.spec_load_type() == old(self).spec_load_type() && b.spec_element_ids()
                == old(self).spec_element_ids() && *final(self) == *final(b),
    {
        self.loads.push(Load::ElementLoad { element_id, load_distribution });
        Ok(self)
    }

    /// Adds the same uniform load to every element that existed when the load
    /// case was created, in the order of the elements.
    pub fn add_uniform_load_on_all_elements(&mut self, intensity: F, direction: Vector3D<F>) -> (r:
        Result<&mut Self, BuildError>) where F: Copy
        ensures
            r matches Ok(b) && b.spec_loads() == old(self).spec_loads() + old(
                self,
            ).spec_element_ids().map_values(
                |element_id: ElementId|
                    Load::ElementLoad {
                        element_id,
                        load_distribution: LoadDistribution::UniformDistributed {
                            intensity,
                            direction,
                        },
                    },
            ) && b.spec_id() == old(self).spec_id() && b.spec_name() == old(self).spec_name()
                && b.spec_load_type() == old(self).spec_load_type() && b.spec_element_ids()
                == old(self).spec_element_ids() && *final(self) == *final(b),
    {
        let ghost start = self.loads@;
        let mut i: usize = 0;
        while i < self.element_ids.len()
            invariant
                i <= self.element_ids.len(),
                self.element_ids@ == old(self).element_ids@,
                self.id == old(self).id,
                self.name == old(self).name,
                self.load_type == old(self).load_type,
                self.loads@ == start + self.element_ids@.take(i as int).map_values(
                    |element_id: ElementId|
                        Load::ElementLoad {
                            element_id,
                            load_distribution: LoadDistribution::UniformDistributed {
                                intensity,
                                direction,
                            },
                        },
                ),
            decreases self.element_ids.len() - i,
        {
            let element_id = self.element_ids[i];
            self.loads.push(
                Load::ElementLoad {
                    element_id,
                    load_distribution: LoadDistribution::UniformDistributed { intensity, direction },
                },
            );
            proof {
                assert(self.element_ids@.take(i + 1) =~= self.element_ids@.take(i as int).push(
                    element_id,
                ));
                assert(self.loads@ =~= start + self.element_ids@.take(i + 1).map_values(
                    |element_id: ElementId|
                        Load::ElementLoad {
                            element_id,
                            load_distribution: LoadDistribution::UniformDistributed {
                                intensity,
                                direction,
                            },
                        },
                ));
            }
            i += 1;
        }
        proof {
            assert(self.element_ids@.take(self.element_ids@.len() as int) =~= self.element_ids@);
        }
        Ok(self)
    }

    /// Ends a chain of additions; the loads stay with the builder.
    pub fn finish(&mut self)
        ensures
            *final(self) == *old(self),
    {
    }

    fn into_load_case(self) -> (lc: LoadCase<F>)
        ensures
            self.holds(lc),
    {
        LoadCase { id: self.id, name: self.name, load_type: self.load_type, loads: self.loads }
    }
}


impl<F> ModelBuilder<F> {
    pub closed spec fn spec_name(&self) -> Seq<char> {
        self.name@
    }

    pub closed spec fn spec_description(&self) -> Seq<char> {
        self.description@
    }

    pub closed spec fn spec_units(&self) -> UnitSystem {
        self.units
    }

    pub closed spec fn spec_nodes(&self) -> Seq<Node<F>> {
        self.nodes@
    }

    pub closed spec fn spec_elements(&self) -> Seq<Element<F>> {
        self.elements@
    }

    pub closed spec fn spec_materials(&self) -> Seq<Material<F>> {
        self.materials@
    }

    pub closed spec fn spec_supports(&self) -> Seq<Support<F>> {
        self.supports@
    }

    /// The load cases completed so far (all but the one being filled).
    /// The errors that validation reports on a model made of the builder's
    /// nodes, elements, materials and supports, with the given zero-length
    /// and property findings.
    pub closed spec fn build_errors(
        &self,
        geometry: Seq<ValidationErrorView>,
        properties: Seq<ValidationErrorView>,
    ) -> Seq<ValidationErrorView> {
        model_errors(
            StructuralModel {
                nodes: self.nodes,
                elements: self.elements,
                materials: self.materials,
                supports: self.supports,
                load_cases: self.load_cases,
                metadata: vstd::pervasive::arbitrary(),
            },
            geometry,
            properties,
        )
    }

    /// The build errors are the errors of any model made of the builder's parts.
    pub proof fn lemma_build_errors_of_parts(
        &self,
        m: StructuralModel<F>,
        geometry: Seq<ValidationErrorView>,
        properties: Seq<ValidationErrorView>,
    )
        requires
            m.nodes@ == self.spec_nodes(),
            m.elements@ == self.spec_elements(),
            m.materials@ == self.spec_materials(),
            m.supports@ == self.spec_supports(),
        ensures
            self.build_errors(geometry, properties) == model_errors(m, geometry, properties),
    {
        lemma_model_errors_depend_on_parts(
            m,
            StructuralModel {
                nodes: self.nodes,
                elements: self.elements,
                materials: self.materials,
                supports: self.supports,
                load_cases: self.load_cases,
                metadata: vstd::pervasive::arbitrary(),
            },
            geometry,
            properties,
        );
    }

    pub closed spec fn spec_load_cases(&self) -> Seq<LoadCase<F>> {
        self.load_cases@
    }

    /// The load case being filled, if any.
    pub closed spec fn spec_current(&self) -> Option<LoadCaseBuilder<F>> {
        self.current_load_case
    }

    /// Number of load cases created so far.
    pub open spec fn spec_load_case_count(&self) -> nat {
        self.spec_load_cases().len() + if self.spec_current() is Some {
            1nat
        } else {
            0nat
        }
    }

    /// The builder's invariant: identifiers are positions, and every element and
    /// support refers to a node (and material) that was added before it.
    pub closed spec fn wf(&self) -> bool {
        &&& self.next_node_id == self.nodes@.len()
        &&& self.next_element_id == self.elements@.len()
        &&& self.next_material_id == self.materials@.len()
        &&& self.next_support_id == self.supports@.len()
        &&& self.next_load_case_id == self.spec_load_case_count()
        &&& forall|i: int| 0 <= i < self.nodes@.len() ==> #[trigger] self.nodes@[i].id == i
        &&& forall|i: int| 0 <= i < self.materials@.len() ==> #[trigger] self.materials@[i].id == i
        &&& forall|i: int| 0 <= i < self.supports@.len() ==> #[trigger] self.supports@[i].id == i
        &&& forall|i: int|
            0 <= i < self.elements@.len() ==> well_placed(
                #[trigger] self.elements@[i],
                i,
                self.nodes@.len(),
                self.materials@.len(),
            )
        &&& forall|i: int|
            0 <= i < self.supports@.len() ==> #[trigger] self.supports@[i].node_id
                < self.nodes@.len()
    }

    /// An empty builder for a model called `name`, in SI units.
    pub fn new(name: &str) -> (b: Self)
        ensures
            b.wf(),
            b.spec_name() == name@,
            b.spec_description() == Seq::<char>::empty(),
            b.spec_units() == UnitSystem::SI,
            b.spec_nodes() == Seq::<Node<F>>::empty(),
            b.spec_elements() == Seq::<Element<F>>::empty(),
            b.spec_materials() == Seq::<Material<F>>::empty(),
            b.spec_supports() == Seq::<Support<F>>::empty(),
            b.spec_load_cases() == Seq::<LoadCase<F>>::empty(),
            b.spec_current() is None,
    {
        ModelBuilder {
            name: name.to_string(),
            description: String::new(),
            units: UnitSystem::SI,
            nodes: Vec::new(),
            elements: Vec::new(),
            materials: Vec::new(),
            supports: Vec::new(),
            load_cases: Vec::new(),
            next_node_id: 0,
            next_element_id: 0,
            next_material_id: 0,
            next_support_id: 0,
            next_load_case_id: 0,
            current_load_case: None,
        }
    }

    pub fn description(self, description: &str) -> (b: Self)
        requires
            self.wf(),
        ensures
            b.wf(),
            b.spec_description() == description@,
            b.spec_name() == self.spec_name(),
            b.spec_units() == self.spec_units(),
            b.same_contents(self),
    {
        let mut b = self;
        b.description = description.to_string();
        b
    }

    pub fn units(self, units: UnitSystem) -> (b: Self)
        requires
            self.wf(),
        ensures
            b.wf(),
            b.spec_units() == units,
            b.spec_name() == self.spec_name(),
            b.spec_description() == self.spec_description(),
            b.same_contents(self),
    {
        let mut b = self;
        b.units = units;
        b
    }

    /// Whether the two builders hold the same nodes, elements, materials,
    /// supports and load cases.
    pub open spec fn same_contents(&self, other: Self) -> bool {
        &&& self.spec_nodes() == other.spec_nodes()
        &&& self.spec_elements() == other.spec_elements()
        &&& self.spec_materials() == other.spec_materials()
        &&& self.spec_supports() == other.spec_supports()
        &&& self.spec_load_cases() == other.spec_load_cases()
        &&& self.spec_current() == other.spec_current()
    }

    /// Whether everything but the descriptive data and the nodes is unchanged.
    pub open spec fn same_except_nodes(&self, other: Self) -> bool {
        &&& self.spec_name() == other.spec_name()
        &&& self.spec_description() == other.spec_description()
        &&& self.spec_units() == other.spec_units()
        &&& self.spec_elements() == other.spec_elements()
        &&& self.spec_materials() == other.spec_materials()
        &&& self.spec_supports() == other.spec_supports()
        &&& self.spec_load_cases() == other.spec_load_cases()
        &&& self.spec_current() == other.spec_current()
    }

    /// Adds a node at `position` with all freedoms active; returns its
    /// identifier, the number of nodes added before it.
    pub fn add_node(&mut self, position: Point3D<F>) -> (id: NodeId)
        requires
            old(self).wf(),
            old(self).spec_nodes().len() < usize::MAX,
        ensures
            final(self).wf(),
            id == old(self).spec_nodes().len(),
            final(self).spec_nodes().len() == old(self).spec_nodes().len() + 1,
            final(self).spec_nodes().drop_last() == old(self).spec_nodes(),
            final(self).spec_nodes().last().id == id,
            final(self).spec_nodes().last().coordinates == position,
            final(self).spec_nodes().last().dof_mask@ == ALL_DOFS,
            final(self).same_except_nodes(*old(self)),
    {
        let id = self.next_node_id;
        self.next_node_id = self.next_node_id + 1;
        self.nodes.push(Node { id, coordinates: position, dof_mask: DofMask::all() });
        proof {
            assert(self.nodes@.drop_last() =~= old(self).nodes@);
            assert forall|i: int|
                0 <= i < self.elements@.len() implies well_placed(
                #[trigger] self.elements@[i],
                i,
                self.nodes@.len(),
                self.materials@.len(),
            ) by {
                assert(well_placed(self.elements@[i], i, old(self).nodes@.len(), self.materials@.len()));
            }
        }
        id
    }
}

impl<F> ModelBuilder<F> {
    /// Whether everything but the elements is unchanged.
    pub open spec fn same_except_elements(&self, other: Self) -> bool {
        &&& self.spec_name() == other.spec_name()
        &&& self.spec_description() == other.spec_description()
        &&& self.spec_units() == other.spec_units()
        &&& self.spec_nodes() == other.spec_nodes()
        &&& self.spec_materials() == other.spec_materials()
        &&& self.spec_supports() == other.spec_supports()
        &&& self.spec_load_cases() == other.spec_load_cases()
        &&& self.spec_current() == other.spec_current()
    }

    /// Adds a material under the next material identifier, which replaces the
    /// identifier it carries; returns that identifier.
    pub fn add_material(&mut self, material: Material<F>) -> (id: MaterialId)
        requires
            old(self).wf(),
            old(self).spec_materials().len() < usize::MAX,
        ensures
            final(self).wf(),
            id == old(self).spec_materials().len(),
            final(self).spec_materials() == old(self).spec_materials().push(
                Material { id, ..material },
            ),
            final(self).spec_name() == old(self).spec_name(),
            final(self).spec_description() == old(self).spec_description(),
            final(self).spec_units() == old(self).spec_units(),
            final(self).spec_nodes() == old(self).spec_nodes(),
            final(self).spec_elements() == old(self).spec_elements(),
            final(self).spec_supports() == old(self).spec_supports(),
            final(self).spec_load_cases() == old(self).spec_load_cases(),
            final(self).spec_current() == old(self).spec_current(),
    {
        let mut material = material;
        let id = self.next_material_id;
        self.next_material_id = self.next_material_id + 1;
        material.id = id;
        self.materials.push(material);
        proof {
            assert forall|i: int|
                0 <= i < self.elements@.len() implies well_placed(
                #[trigger] self.elements@[i],
                i,
                self.nodes@.len(),
                self.materials@.len(),
            ) by {
                assert(well_placed(self.elements@[i], i, self.nodes@.len(), old(self).materials@.len()));
            }
        }
        id
    }

    fn add_line_element(
        &mut self,
        node_i: NodeId,
        node_j: NodeId,
        material_id: MaterialId,
        section: Section<F>,
        element_type: ElementType,
    ) -> (r: Result<ElementId, BuildError>)
        requires
            old(self).wf(),
            old(self).spec_elements().len() < usize::MAX,
            element_type == (ElementType::Beam1D { formulation: BeamFormulation::EulerBernoulli })
                || element_type is Frame2D,
        ensures
            final(self).wf(),
            match element_error(
                old(self).spec_elements().len() as ElementId,
                old(self).spec_nodes().len(),
                old(self).spec_materials().len(),
                node_i,
                node_j,
                material_id,
            ) {
                Some(e) => r == Err::<ElementId, BuildError>(e) && *final(self) == *old(self),
                None => r == Ok::<ElementId, BuildError>(old(self).spec_elements().len() as ElementId)
                    && final(self).spec_elements().len() == old(self).spec_elements().len() + 1
                    && final(self).spec_elements().drop_last() == old(self).spec_elements()
                    && built_element(
                    final(self).spec_elements().last(),
                    old(self).spec_elements().len() as ElementId,
                    element_type,
                    node_i,
                    node_j,
                    material_id,
                    section,
                ) && final(self).same_except_elements(*old(self)),
            },
    {
        if node_i >= self.next_node_id || node_j >= self.next_node_id {
            return Err(
                BuildError::InvalidNodeReference {
                    element_id: self.next_element_id,
                    node_id: if node_i >= self.next_node_id {
                        node_i
                    } else {
                        node_j
                    },
                },
            );
        }
        if material_id >= self.next_material_id {
            return Err(
                BuildError::InvalidMaterialReference {
                    element_id: self.next_element_id,
                    material_id,
                },
            );
        }
        let id = self.next_element_id;
        self.next_element_id = self.next_element_id + 1;
        self.elements.push(
            Element {
                id,
                element_type,
                connectivity: vec![node_i, node_j],
                material_id,
                section,
                local_axes: None,
            },
        );
        proof {
            assert(self.elements@.drop_last() =~= old(self).elements@);
            assert forall|i: int|
                0 <= i < self.elements@.len() implies well_placed(
                #[trigger] self.elements@[i],
                i,
                self.nodes@.len(),
                self.materials@.len(),
            ) by {
                if i < old(self).elements@.len() {
                    assert(self.elements@[i] == old(self).elements@[i]);
                }
            }
        }
        Ok(id)
    }

    /// Adds an Euler-Bernoulli beam between two existing nodes, made of an
    /// existing material.  A node or material that does not exist is refused
    /// (the nodes are checked first) and the builder is left unchanged.
    pub fn add_beam_element(
        &mut self,
        node_i: NodeId,
        node_j: NodeId,
        material_id: MaterialId,
        section: Section<F>,
    ) -> (r: Result<ElementId, BuildError>)
        requires
            old(self).wf(),
            old(self).spec_elements().len() < usize::MAX,
        ensures
            final(self).wf(),
            match element_error(
                old(self).spec_elements().len() as ElementId,
                old(self).spec_nodes().len(),
                old(self).spec_materials().len(),
                node_i,
                node_j,
                material_id,
            ) {
                Some(e) => r == Err::<ElementId, BuildError>(e) && *final(self) == *old(self),
                None => r == Ok::<ElementId, BuildError>(old(self).spec_elements().len() as ElementId)
                    && final(self).spec_elements().len() == old(self).spec_elements().len() + 1
                    && final(self).spec_elements().drop_last() == old(self).spec_elements()
                    && built_element(
                    final(self).spec_elements().last(),
                    old(self).spec_elements().len() as ElementId,
                    ElementType::Beam1D { formulation: BeamFormulation::EulerBernoulli },
                    node_i,
                    node_j,
                    material_id,
                    section,
                ) && final(self).same_except_elements(*old(self)),
            },
    {
        self.add_line_element(
            node_i,
            node_j,
            material_id,
            section,
            ElementType::Beam1D { formulation: BeamFormulation::EulerBernoulli },
        )
    }

    /// Adds a two-dimensional frame element working in `plane`, under the same
    /// rules as [`ModelBuilder::add_beam_element`].
    pub fn add_frame_element(
        &mut self,
        node_i: NodeId,
        node_j: NodeId,
        material_id: MaterialId,
        section: Section<F>,
        plane: Plane,
    ) -> (r: Result<ElementId, BuildError>)
        requires
            old(self).wf(),
            old(self).spec_elements().len() < usize::MAX,
        ensures
            final(self).wf(),
            match element_error(
                old(self).spec_elements().len() as ElementId,
                old(self).spec_nodes().len(),
                old(self).spec_materials().len(),
                node_i,
                node_j,
                material_id,
            ) {
                Some(e) => r == Err::<ElementId, BuildError>(e) && *final(self) == *old(self),
                None => r == Ok::<ElementId, BuildError>(old(self).spec_elements().len() as ElementId)
                    && final(self).spec_elements().len() == old(self).spec_elements().len() + 1
                    && final(self).spec_elements().drop_last() == old(self).spec_elements()
                    && built_element(
                    final(self).spec_elements().last(),
                    old(self).spec_elements().len() as ElementId,
                    ElementType::Frame2D { plane },
                    node_i,
                    node_j,
                    material_id,
                    section,
                ) && final(self).same_except_elements(*old(self)),
            },
    {
        self.add_line_element(node_i, node_j, material_id, section, ElementType::Frame2D { plane })
    }

    /// Adds a support on an existing node; a node that does not exist is
    /// refused and the builder is left unchanged.
    pub fn add_support(&mut self, node_id: NodeId, support_type: SupportType<F>) -> (r: Result<
        (),
        BuildError,
    >)
        requires
            old(self).wf(),
            old(self).spec_supports().len() < usize::MAX,
        ensures
            final(self).wf(),
            node_id >= old(self).spec_nodes().len() ==> r == Err::<(), BuildError>(
                BuildError::InvalidNodeReference { element_id: 0, node_id },
            ) && *final(self) == *old(self),
            node_id < old(self).spec_nodes().len() ==> r is Ok && final(self).spec_supports()
                == old(self).spec_supports().push(
                Support { id: old(self).spec_supports().len() as SupportId, node_id, support_type },
            ) && final(self).spec_name() == old(self).spec_name()
                && final(self).spec_description() == old(self).spec_description()
                && final(self).spec_units() == old(self).spec_units() && final(self).spec_nodes()
                == old(self).spec_nodes() && final(self).spec_elements() == old(
                self,
            ).spec_elements() && final(self).spec_materials() == old(self).spec_materials()
                && final(self).spec_load_cases() == old(self).spec_load_cases()
                && final(self).spec_current() == old(self).spec_current(),
    {
        if node_id >= self.next_node_id {
            return Err(BuildError::InvalidNodeReference { element_id: 0, node_id });
        }
        let id = self.next_support_id;
        self.next_support_id = self.next_support_id + 1;
        self.supports.push(Support { id, node_id, support_type });
        Ok(())
    }
}

impl<F> ModelBuilder<F> {
    /// The load cases the builder holds, the one being filled last.
    pub open spec fn spec_all_load_cases_hold(&self, lcs: Seq<LoadCase<F>>) -> bool {
        match self.spec_current() {
            Some(c) => lcs.len() == self.spec_load_cases().len() + 1 && lcs.drop_last()
                == self.spec_load_cases() && c.holds(lcs.last()),
            None => lcs == self.spec_load_cases(),
        }
    }

    /// Starts a new load case, named `name`, and returns the builder that fills
    /// it.  The load case being filled before, if any, is completed first.  The
    /// new load case gets the next load case identifier and knows the elements
    /// added so far (for [`LoadCaseBuilder::add_uniform_load_on_all_elements`]).
    pub fn create_load_case(&mut self, name: &str, load_type: LoadType) -> (r: &mut LoadCaseBuilder<
        F,
    >)
        requires
            old(self).wf(),
            old(self).spec_load_case_count() < usize::MAX,
        ensures
            final(self).wf(),
            r.spec_id() == old(self).spec_load_case_count(),
            r.spec_name() == name@,
            r.spec_load_type() == load_type,
            r.spec_loads() == Seq::<Load<F>>::empty(),
            r.spec_element_ids() == element_ids(old(self).spec_elements()),
            final(self).spec_current() == Some(*final(r)),
            old(self).spec_all_load_cases_hold(final(self).spec_load_cases()),
            final(self).spec_name() == old(self).spec_name(),
            final(self).spec_description() == old(self).spec_description(),
            final(self).spec_units() == old(self).spec_units(),
            final(self).spec_nodes() == old(self).spec_nodes(),
            final(self).spec_elements() == old(self).spec_elements(),
            final(self).spec_materials() == old(self).spec_materials(),
            final(self).spec_supports() == old(self).spec_supports(),
    {
        let previous = self.current_load_case.take();
        match previous {
            Some(load_case) => {
                let lc = load_case.into_load_case();
                self.load_cases.push(lc);
            },
            None => {},
        }
        let id = self.next_load_case_id;
        self.next_load_case_id = self.next_load_case_id + 1;
        let mut ids: Vec<ElementId> = Vec::new();
        let mut i: usize = 0;
        while i < self.elements.len()
            invariant
                i <= self.elements.len(),
                self.elements@ == old(self).elements@,
                ids@ == element_ids(self.elements@).take(i as int),
            decreases self.elements.len() - i,
        {
            ids.push(self.elements[i].id);
            proof {
                assert(element_ids(self.elements@).take(i + 1) =~= element_ids(
                    self.elements@,
                ).take(i as int).push(self.elements@[i as int].id));
            }
            i += 1;
        }
        proof {
            assert(element_ids(self.elements@).take(self.elements@.len() as int) =~= element_ids(
                self.elements@,
            ));
            assert(old(self).current_load_case is None ==> self.load_cases@ =~= old(
                self,
            ).load_cases@);
            assert(old(self).current_load_case is Some ==> self.load_cases@.drop_last()
                =~= old(self).load_cases@);
        }
        self.current_load_case.insert(
            LoadCaseBuilder {
                id,
                name: name.to_string(),
                load_type,
                loads: Vec::new(),
                element_ids: ids,
            },
        )
    }

    /// The nodes added so far.
    pub fn nodes(&self) -> (r: &Vec<Node<F>>)
        ensures
            r@ == self.spec_nodes(),
    {
        &self.nodes
    }

    /// The elements added so far.
    pub fn elements(&self) -> (r: &Vec<Element<F>>)
        ensures
            r@ == self.spec_elements(),
    {
        &self.elements
    }

    /// The materials added so far.
    pub fn materials(&self) -> (r: &Vec<Material<F>>)
        ensures
            r@ == self.spec_materials(),
    {
        &self.materials
    }

    /// Completes the model: the load case being filled, if any, joins the others,
    /// both timestamps get the current time, and the model is validated.  The
    /// zero-length and property findings on the builder's nodes, elements and
    /// materials come in as `geometry` and `properties`
    /// (see [`crate::validation::checks::validate_model`]).  On any validation
    /// error the result is `ValidationFailed` with all errors, in check order.
    pub fn build(self, geometry: Vec<ValidationError>, properties: Vec<ValidationError>) -> (r:
        Result<StructuralModel<F>, BuildError>)
        requires
            self.wf(),
        ensures
            match r {
                Ok(m) => {
                    &&& m.nodes@ == self.spec_nodes()
                    &&& m.elements@ == self.spec_elements()
                    &&& m.materials@ == self.spec_materials()
                    &&& m.supports@ == self.spec_supports()
                    &&& self.spec_all_load_cases_hold(m.load_cases@)
                    &&& m.metadata.name@ == self.spec_name()
                    &&& m.metadata.description@ == self.spec_description()
                    &&& m.metadata.units == self.spec_units()
                    &&& m.metadata.created@ == m.metadata.modified@
                    &&& m.metadata.coordinate_system->x_direction@ == "East"@
                    &&& m.metadata.coordinate_system->y_direction@ == "North"@
                    &&& m.metadata.coordinate_system->z_direction@ == "Up"@
                    &&& model_errors(m, error_views(geometry@), error_views(properties@))
                        == Seq::<crate::validation::error::ValidationErrorView>::empty()
                },
                Err(e) => e matches BuildError::ValidationFailed { errors } && error_views(errors@)
                    == self.build_errors(error_views(geometry@), error_views(properties@)),
            },
            r is Ok <==> self.build_errors(error_views(geometry@), error_views(properties@))
                == Seq::<ValidationErrorView>::empty(),
    {
        let ghost g = error_views(geometry@);
        let ghost p = error_views(properties@);
        let mut load_cases = self.load_cases;
        match self.current_load_case {
            Some(load_case) => {
                let lc = load_case.into_load_case();
                load_cases.push(lc);
            },
            None => {},
        }
        let now = now_rfc3339();
        let model = StructuralModel {
            nodes: self.nodes,
            elements: self.elements,
            materials: self.materials,
            supports: self.supports,
            load_cases,
            metadata: ModelMetadata {
                name: self.name,
                description: self.description,
                created: now.clone(),
                modified: now,
                units: self.units,
                coordinate_system: CoordinateSystem::Global {
                    x_direction: "East".to_string(),
                    y_direction: "North".to_string(),
                    z_direction: "Up".to_string(),
                },
            },
        };
        proof {
            if self.current_load_case is Some {
                assert(model.load_cases@.drop_last() =~= self.load_cases@);
            }
            self.lemma_build_errors_of_parts(model, g, p);
        }
        match crate::validation::checks::validate_model(&model, geometry, properties) {
            Ok(()) => Ok(model),
            Err(errors) => {
                Err(BuildError::ValidationFailed { errors })
            },
        }
    }
}

/// An element the builder may hold at position `i`: identifier `i`, a two-node
/// beam or frame on nodes and a material that exist.
pub open spec fn well_placed<F>(
    e: Element<F>,
    i: int,
    node_count: nat,
    material_count: nat,
) -> bool {
    &&& e.id == i
    &&& e.connectivity@.len() == 2
    &&& e.connectivity@[0] < node_count
    &&& e.connectivity@[1] < node_count
    &&& e.material_id < material_count
    &&& (e.element_type == ElementType::Beam1D { formulation: BeamFormulation::EulerBernoulli }
        || e.element_type is Frame2D)
}


/// Identifier and reference soundness of the builder: whatever was added, a
/// model made of the builder's nodes, elements, materials and supports has no
/// duplicate identifier, no element on a missing node or material, no element
/// with a wrong node count, and no support on a missing node.
pub proof fn lemma_builder_parts_are_consistent<F>(b: ModelBuilder<F>, m: StructuralModel<F>)
    requires
        b.wf(),
        m.nodes@ == b.spec_nodes(),
        m.elements@ == b.spec_elements(),
        m.materials@ == b.spec_materials(),
        m.supports@ == b.spec_supports(),
    ensures
        unique_id_errors(m) == Seq::<ValidationErrorView>::empty(),
        node_reference_errors(m) == Seq::<ValidationErrorView>::empty(),
        material_reference_errors(m) == Seq::<ValidationErrorView>::empty(),
        m.supports@.len() > 0 ==> support_errors(m) == Seq::<ValidationErrorView>::empty(),
{
    let nids = node_ids(m.nodes@);
    let eids = element_ids(m.elements@);
    let mids = material_ids(m.materials@);
    assert forall|k: int| 0 <= k < nids.len() implies nids[k] == k by {
        assert(b.nodes@[k].id == k);
    }
    assert forall|k: int| 0 <= k < eids.len() implies eids[k] == k by {
        assert(well_placed(b.elements@[k], k, b.nodes@.len(), b.materials@.len()));
    }
    assert forall|k: int| 0 <= k < mids.len() implies mids[k] == k by {
        assert(b.materials@[k].id == k);
    }
    lemma_repeated_ids_of_positions(nids);
    lemma_repeated_ids_of_positions(eids);
    assert(unique_id_errors(m) =~= Seq::<ValidationErrorView>::empty());
    assert forall|k: int| 0 <= k < m.elements@.len() implies element_fits(
        #[trigger] m.elements@[k],
        nids,
        mids,
    ) by {
        let e = m.elements@[k];
        assert(well_placed(b.elements@[k], k, b.nodes@.len(), b.materials@.len()));
        lemma_absent_ids_of_positions(e.connectivity@, nids);
        assert(mids.contains(mids[e.material_id as int]));
    }
    lemma_references_of_fitting_elements(m.elements@, nids, mids);
    if m.supports@.len() > 0 {
        let sids = support_node_ids(m.supports@);
        assert forall|k: int| 0 <= k < sids.len() implies sids[k] < nids.len() by {
            assert(b.supports@[k].node_id < b.nodes@.len());
        }
        lemma_absent_ids_of_positions(sids, nids);
        assert(support_errors(m) =~= Seq::<ValidationErrorView>::empty());
    }
}

} // verus!
