pub mod audit_log;
pub mod compliance;

pub use audit_log::{AuditEntry, AuditError, AuditLog, Severity};
pub use compliance::{ComplianceError, ComplianceReport, ComplianceViolation};
