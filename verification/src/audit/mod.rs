pub mod trail;

pub use trail::{AuditEntry, AuditTrail, AuditValue};
