//! An in-repository ticket tracker: projects and tickets kept as one text
//! record per file, loaded into an ordered store, queried, and written back.

pub mod error;
pub mod text;
pub mod ident;
pub mod record;
pub mod ticket;
pub mod project;
pub mod codec;
pub mod keyed;
pub mod query;
pub mod store;
pub mod actions;
pub mod files;
pub mod load;

pub use crate::error::StoreError;
pub use crate::ident::{ProjectId, RecordKind, TicketId};
pub use crate::project::Project;
pub use crate::record::{Field, FieldValue};
pub use crate::store::InRepoDB;
pub use crate::ticket::{ProjectStub, Ticket, TicketStatus, TicketType};
