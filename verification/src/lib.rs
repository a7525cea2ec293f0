//! Verified core of an inventory dashboard: the rules by which items are
//! created, adjusted and deleted, the audit trail every change leaves, and the
//! text the dashboard derives from them.

pub mod api;
pub mod clock;
pub mod dashboard;
pub mod inventory;
pub mod laws;
pub mod text;
