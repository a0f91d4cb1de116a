pub mod element;
pub mod geometry;
pub mod load;
pub mod material;
pub mod model;
pub mod node;
pub mod section;
pub mod support;

pub use element::{BeamFormulation, Element, ElementId, ElementType, LocalCoordinateSystem, Plane};
pub use geometry::{Point3D, Vector3D};
pub use load::{Load, LoadCase, LoadCaseId, LoadDistribution, LoadType};
pub use material::{
    CodeReference, ConcreteGrade, ConcreteStandard, Material, MaterialType, SteelGrade,
    SteelStandard,
};
pub use model::{CoordinateSystem, ModelMetadata, StructuralModel, UnitSystem};
pub use node::{DofMask, Node, NodeId};
pub use section::Section;
pub use support::{Direction, SpringStiffness, Support, SupportId, SupportType};
