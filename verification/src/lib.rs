//! Verified core of the Fluxora stream contract's event layer: the catalogue
//! of event topics, the event values that each emit helper publishes, and the
//! checks that keep event payload schemas and their documentation in step.

pub mod text;
pub mod topics;
pub mod events;
pub mod schema;
pub mod docs;
pub mod doc_schemas;
pub mod doc_agreement;
