//! A document-notarization ledger: immutable, hash-identified documents with
//! version history, multi-party signature quorums, an authority-scoped
//! identity-claim registry, and admin-gated configuration, all over one
//! shared state aggregate.
//!
//! `types` holds the data model and the mathematical view of each type,
//! `model` the transition function of every operation together with the
//! aggregate's well-formedness, `contract` the executable operations whose
//! contracts tie them to those transitions, and `laws` the properties
//! proved of the transitions themselves.

pub mod contract;
pub mod laws;
pub mod model;
pub mod types;

pub use contract::ContractView;
pub use contract::NotaryContract;
pub use types::Address;
pub use types::Document;
pub use types::DocumentStatus;
pub use types::DocumentVersion;
pub use types::IdentityClaim;
pub use types::MetaEntry;
pub use types::NotaryError;
pub use types::NotaryEvent;
pub use types::NotaryState;
pub use types::Setting;
pub use types::Signature;
pub use types::UserClaims;
pub use types::UserDocs;
pub use types::VersionStatus;
