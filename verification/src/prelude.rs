pub use crate::analysis::{CpuCholesky, GlobalAssembler};
pub use crate::audit::{AuditEntry, AuditTrail, AuditValue};
pub use crate::builder::{LoadCaseBuilder, ModelBuilder};
pub use crate::structure::element::{ElementType, Plane};
pub use crate::structure::geometry::{Point3D, Vector3D};
pub use crate::structure::load::{LoadDistribution, LoadType};
pub use crate::structure::material::{
    ConcreteGrade, ConcreteStandard, Material, MaterialType, SteelGrade, SteelStandard,
};
pub use crate::structure::model::{StructuralModel, UnitSystem};
pub use crate::structure::section::Section;
pub use crate::structure::support::{Direction, SupportType};
pub use crate::validation::{BuildError, ValidationError};
