use vstd::prelude::*;

use super::element::ElementId;
use super::geometry::Vector3D;
use super::node::NodeId;

verus! {

pub type LoadCaseId = usize;

/// A named group of loads applied together.
#[derive(Debug, Clone)]
pub struct LoadCase<F> {
    pub id: LoadCaseId,
    pub name: String,
    pub load_type: LoadType,
    pub loads: Vec<Load<F>>,
}

#[derive(Debug, Clone)]
pub enum LoadType {
    Dead,
    Live,
    Wind,
    Seismic,
    Temperature,
    Settlement,
    Custom(String),
}

#[derive(Debug, Clone)]
pub enum Load<F> {
    NodalForce { node_id: NodeId, force: Vector3D<F>, moment: Vector3D<F> },
    ElementLoad { element_id: ElementId, load_distribution: LoadDistribution<F> },
    ImposedDisplacement { node_id: NodeId, displacement: Vector3D<F>, rotation: Vector3D<F> },
}

#[derive(Debug, Clone)]
pub enum LoadDistribution<F> {
    UniformDistributed { intensity: F, direction: Vector3D<F> },
    LinearlyVarying { start_intensity: F, end_intensity: F, direction: Vector3D<F> },
    PointLoad { position: F, force: Vector3D<F>, moment: Vector3D<F> },
}

} // verus!
