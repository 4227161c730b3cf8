//! The persistence core of a desktop invoicing and time-tracking
//! application: an embedded relational store of organizations, clients,
//! projects, invoices with their line items, tax rates, tags and time
//! entries, with its repository operations, the planning of schema
//! migrations, and the backup and restore procedure.
//!
//! Every operation is verified against a contract over the store's
//! abstract state (`database::DbView`); `laws` proves how the operations
//! relate to one another.

pub mod text;
pub mod table;
pub mod model;
pub mod clock;
pub mod ids;
pub mod database;
pub mod organization;
pub mod client;
pub mod project;
pub mod invoice;
pub mod tax_rate;
pub mod time_tracking;
pub mod migration;
pub mod backup;
pub mod laws;
