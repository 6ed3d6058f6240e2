//! Dynamic-DNS update core: hostname normalization, credential checks and
//! reconciliation of a zone's address records with a desired address set.
pub mod address;
pub mod auth;
pub mod error;
pub mod hostname;
pub mod laws;
pub mod reconcile;
pub mod record;

pub use address::{AddressSet, IpAddress};
pub use error::UpdateError;
pub use hostname::HostName;
pub use record::{ExistingRecord, RecordContent, ZoneOp};
pub mod session;

pub use session::{Action, Event, Outcome, Phase, UpdateSession};
pub mod request;

pub use request::Credential;
