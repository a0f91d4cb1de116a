use vstd::prelude::*;

use super::geometry::Vector3D;
use super::node::NodeId;
use super::section::Section;

verus! {

pub type ElementId = usize;

pub type MaterialId = usize;

/// A structural element: its kind, the nodes it connects, its material and section.
#[derive(Debug, Clone, PartialEq)]
pub struct Element<F> {
    pub id: ElementId,
    pub element_type: ElementType,
    pub connectivity: Vec<NodeId>,
    pub material_id: MaterialId,
    pub section: Section<F>,
    pub local_axes: Option<LocalCoordinateSystem<F>>,
}

#[derive(Debug, Clone, Copy, PartialEq, Eq, Structural)]
pub enum ElementType {
    Beam1D { formulation: BeamFormulation },
    Frame2D { plane: Plane },
    Frame3D,
    Shell2D,
    Solid3D,
}

#[derive(Debug, Clone, Copy, PartialEq, Eq, Structural)]
pub enum BeamFormulation {
    EulerBernoulli,
    Timoshenko,
}

/// The plane in which a two-dimensional frame element works.
#[derive(Debug, Clone, Copy, PartialEq, Eq, Structural)]
pub enum Plane {
    XY,
    XZ,
    YZ,
}

/// Local axes of an element, given by three direction vectors.
#[derive(Debug, Clone, PartialEq)]
pub struct LocalCoordinateSystem<F> {
    pub x_axis: Vector3D<F>,
    pub y_axis: Vector3D<F>,
    pub z_axis: Vector3D<F>,
}

/// Number of nodes an element of the given kind connects.
pub open spec fn spec_node_count(t: ElementType) -> nat {
    match t {
        ElementType::Beam1D { .. } => 2,
        ElementType::Frame2D { .. } => 2,
        ElementType::Frame3D => 2,
        ElementType::Shell2D => 3,
        ElementType::Solid3D => 8,
    }
}

/// Every line element (beam, two- or three-dimensional frame) connects exactly
/// two nodes; shells and solids connect more.
pub proof fn lemma_line_elements_have_two_nodes(t: ElementType)
    ensures
        (t is Beam1D || t is Frame2D || t is Frame3D) ==> spec_node_count(t) == 2,
        (t is Shell2D || t is Solid3D) ==> spec_node_count(t) > 2,
{
}

impl ElementType {
    /// Number of nodes an element of this kind connects.
    pub fn node_count(&self) -> (n: usize)
        ensures
            n == spec_node_count(*self),
    {
        match self {
            ElementType::Beam1D { .. } => 2,
            ElementType::Frame2D { .. } => 2,
            ElementType::Frame3D => 2,
            ElementType::Shell2D => 3,
            ElementType::Solid3D => 8,
        }
    }

    /// Whether this kind is a two-node line element (beam or frame).
    pub fn is_line_element(&self) -> (b: bool)
        ensures
            b == (*self is Beam1D || *self is Frame2D || *self is Frame3D),
    {
        match self {
            ElementType::Beam1D { .. } | ElementType::Frame2D { .. } | ElementType::Frame3D => true,
            _ => false,
        }
    }
}

} // verus!
