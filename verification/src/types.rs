//! The data model: identities, statuses, errors, signatures, claims,
//! document versions, documents, events, and the single state aggregate,
//! together with the mathematical view of each type.

use vstd::prelude::*;

verus! {

/// An opaque, comparable identity (signer, owner, authority, admin).
/// Nothing beyond equality is ever read from it.
#[derive(Clone, Copy, PartialEq, Eq, Structural, Debug)]
pub struct Address {
    pub id: u64,
}

/// The closed error taxonomy. Every public operation fails with one of
/// these; several kinds are reserved and never raised by this core.
#[derive(Clone, Copy, PartialEq, Eq, Structural, Debug)]
pub enum NotaryError {
    AlreadyExists,
    NotFound,
    Unauthorized,
    InvalidVersion,
    InvalidStatus,
    InvalidSignature,
    ExpiredClaim,
    MissingIdentityClaim,
    InvalidAuthority,
    InvalidInput,
    InvalidState,
    OperationFailed,
}

/// Lifecycle status of a document.
#[derive(Clone, Copy, PartialEq, Eq, Structural, Debug)]
pub enum DocumentStatus {
    Pending,
    Active,
    Revoked,
    Expired,
}

/// Lifecycle status of a single document version.
#[derive(Clone, Copy, PartialEq, Eq, Structural, Debug)]
pub enum VersionStatus {
    Draft,
    PendingApproval,
    Approved,
    Rejected,
    Superseded,
}

/// One key/value pair of free-form metadata. The ledger stores metadata
/// verbatim and never reads it.
pub struct MetaEntry {
    pub key: String,
    pub value: String,
}

/// A recorded approval of a document version. The signature bytes are
/// stored, not cryptographically validated here.
pub struct Signature {
    pub signer: Address,
    pub timestamp: u64,
    pub signature_data: Vec<u8>,
    pub claim_reference: Vec<u8>,
}

/// An authority-issued, time-bounded assertion about a user; retained
/// indefinitely once issued, expiry checked only at issuance.
pub struct IdentityClaim {
    pub authority: Address,
    pub claim_type: String,
    pub claim_value: Vec<u8>,
    pub signature: Vec<u8>,
    pub issued_at: u64,
    pub expires_at: u64,
    pub metadata: Vec<MetaEntry>,
}

/// One version of a document. `required_signers` is a snapshot of the
/// document's authorized-signer set at version-creation time and is never
/// updated afterwards.
pub struct DocumentVersion {
    pub hash: Vec<u8>,
    pub parent_hash: Vec<u8>,
    pub title: String,
    pub status: VersionStatus,
    pub creator: Address,
    pub created_at: u64,
    pub updated_at: u64,
    pub signatures: Vec<Signature>,
    pub required_signers: Vec<Address>,
    pub metadata: Vec<MetaEntry>,
}

/// A hash-identified document with its append-only version history.
pub struct Document {
    pub hash: Vec<u8>,
    pub status: DocumentStatus,
    pub owner: Address,
    pub created_at: u64,
    pub updated_at: u64,
    pub current_version: usize,
    pub versions: Vec<DocumentVersion>,
    pub authorized_signers: Vec<Address>,
    pub metadata: Vec<MetaEntry>,
}

/// The ordered list of document hashes attributed to one identity.
pub struct UserDocs {
    pub user: Address,
    pub hashes: Vec<Vec<u8>>,
}

/// The append-only list of identity claims issued for one subject.
pub struct UserClaims {
    pub user: Address,
    pub claims: Vec<IdentityClaim>,
}

/// One admin-writable configuration entry; values are opaque strings.
pub struct Setting {
    pub key: String,
    pub value: String,
}

/// The single persisted aggregate: every public operation reads and
/// rewrites this whole value atomically.
pub struct NotaryState {
    pub admin: Address,
    pub documents: Vec<Document>,
    pub user_documents: Vec<UserDocs>,
    pub authorities: Vec<Address>,
    pub claims: Vec<UserClaims>,
    pub settings: Vec<Setting>,
}

/// A lifecycle event, recorded for external observers.
pub enum NotaryEvent {
    DocumentCreated(Vec<u8>),
    VersionAdded(Vec<u8>),
    DocumentSigned(Vec<u8>),
    StatusChanged(Vec<u8>, DocumentStatus),
    ClaimAdded(Address),
    AuthorityAdded(Address),
}

// ------------------------------------------------------------------
// Mathematical views
// ------------------------------------------------------------------

#[verifier::ext_equal]
pub ghost struct MetaView {
    pub key: Seq<char>,
    pub value: Seq<char>,
}

#[verifier::ext_equal]
pub ghost struct SignatureView {
    pub signer: Address,
    pub timestamp: u64,
    pub signature_data: Seq<u8>,
    pub claim_reference: Seq<u8>,
}

#[verifier::ext_equal]
pub ghost struct ClaimView {
    pub authority: Address,
    pub claim_type: Seq<char>,
    pub claim_value: Seq<u8>,
    pub signature: Seq<u8>,
    pub issued_at: u64,
    pub expires_at: u64,
    pub metadata: Seq<MetaView>,
}

#[verifier::ext_equal]
pub ghost struct VersionView {
    pub hash: Seq<u8>,
    pub parent_hash: Seq<u8>,
    pub title: Seq<char>,
    pub status: VersionStatus,
    pub creator: Address,
    pub created_at: u64,
    pub updated_at: u64,
    pub signatures: Seq<SignatureView>,
    pub required_signers: Seq<Address>,
    pub metadata: Seq<MetaView>,
}

#[verifier::ext_equal]
pub ghost struct DocumentView {
    pub hash: Seq<u8>,
    pub status: DocumentStatus,
    pub owner: Address,
    pub created_at: u64,
    pub updated_at: u64,
    pub current_version: usize,
    pub versions: Seq<VersionView>,
    pub authorized_signers: Seq<Address>,
    pub metadata: Seq<MetaView>,
}

#[verifier::ext_equal]
pub ghost struct UserDocsView {
    pub user: Address,
    pub hashes: Seq<Seq<u8>>,
}

#[verifier::ext_equal]
pub ghost struct UserClaimsView {
    pub user: Address,
    pub claims: Seq<ClaimView>,
}

#[verifier::ext_equal]
pub ghost struct SettingView {
    pub key: Seq<char>,
    pub value: Seq<char>,
}

#[verifier::ext_equal]
pub ghost struct StateView {
    pub admin: Address,
    pub documents: Seq<DocumentView>,
    pub user_documents: Seq<UserDocsView>,
    pub authorities: Seq<Address>,
    pub claims: Seq<UserClaimsView>,
    pub settings: Seq<SettingView>,
}

#[verifier::ext_equal]
pub ghost enum EventView {
    DocumentCreated(Seq<u8>),
    VersionAdded(Seq<u8>),
    DocumentSigned(Seq<u8>),
    StatusChanged(Seq<u8>, DocumentStatus),
    ClaimAdded(Address),
    AuthorityAdded(Address),
}

/// The views of a metadata list.
pub open spec fn meta_views(v: Seq<MetaEntry>) -> Seq<MetaView> {
    v.map_values(|m: MetaEntry| m@)
}

/// The views of a signature list.
pub open spec fn sig_views(v: Seq<Signature>) -> Seq<SignatureView> {
    v.map_values(|s: Signature| s@)
}

/// The views of a version list.
pub open spec fn version_views(v: Seq<DocumentVersion>) -> Seq<VersionView> {
    v.map_values(|d: DocumentVersion| d@)
}

/// The views of a document list.
pub open spec fn doc_views(v: Seq<Document>) -> Seq<DocumentView> {
    v.map_values(|d: Document| d@)
}

/// The views of a list of byte strings.
pub open spec fn bytes_views(v: Seq<Vec<u8>>) -> Seq<Seq<u8>> {
    v.map_values(|h: Vec<u8>| h@)
}

/// The views of a claim list.
pub open spec fn claim_views(v: Seq<IdentityClaim>) -> Seq<ClaimView> {
    v.map_values(|c: IdentityClaim| c@)
}

/// The views of a per-user document-list table.
pub open spec fn user_docs_views(v: Seq<UserDocs>) -> Seq<UserDocsView> {
    v.map_values(|u: UserDocs| u@)
}

/// The views of a per-user claim-list table.
pub open spec fn user_claims_views(v: Seq<UserClaims>) -> Seq<UserClaimsView> {
    v.map_values(|u: UserClaims| u@)
}

/// The views of a settings table.
pub open spec fn setting_views(v: Seq<Setting>) -> Seq<SettingView> {
    v.map_values(|s: Setting| s@)
}

/// The views of an event log.
pub open spec fn event_views(v: Seq<NotaryEvent>) -> Seq<EventView> {
    v.map_values(|e: NotaryEvent| e@)
}

impl View for MetaEntry {
    type V = MetaView;

    open spec fn view(&self) -> MetaView {
        MetaView { key: self.key@, value: self.value@ }
    }
}

impl View for Signature {
    type V = SignatureView;

    open spec fn view(&self) -> SignatureView {
        SignatureView {
            signer: self.signer,
            timestamp: self.timestamp,
            signature_data: self.signature_data@,
            claim_reference: self.claim_reference@,
        }
    }
}

impl View for IdentityClaim {
    type V = ClaimView;

    open spec fn view(&self) -> ClaimView {
        ClaimView {
            authority: self.authority,
            claim_type: self.claim_type@,
            claim_value: self.claim_value@,
            signature: self.signature@,
            issued_at: self.issued_at,
            expires_at: self.expires_at,
            metadata: meta_views(self.metadata@),
        }
    }
}

impl View for DocumentVersion {
    type V = VersionView;

    open spec fn view(&self) -> VersionView {
        VersionView {
            hash: self.hash@,
            parent_hash: self.parent_hash@,
            title: self.title@,
            status: self.status,
            creator: self.creator,
            created_at: self.created_at,
            updated_at: self.updated_at,
            signatures: sig_views(self.signatures@),
            required_signers: self.required_signers@,
            metadata: meta_views(self.metadata@),
        }
    }
}

impl View for Document {
    type V = DocumentView;

    open spec fn view(&self) -> DocumentView {
        DocumentView {
            hash: self.hash@,
            status: self.status,
            owner: self.owner,
            created_at: self.created_at,
            updated_at: self.updated_at,
            current_version: self.current_version,
            versions: version_views(self.versions@),
            authorized_signers: self.authorized_signers@,
            metadata: meta_views(self.metadata@),
        }
    }
}

impl View for UserDocs {
    type V = UserDocsView;

    open spec fn view(&self) -> UserDocsView {
        UserDocsView {
            user: self.user,
            hashes: bytes_views(self.hashes@),
        }
    }
}

impl View for UserClaims {
    type V = UserClaimsView;

    open spec fn view(&self) -> UserClaimsView {
        UserClaimsView {
            user: self.user,
            claims: claim_views(self.claims@),
        }
    }
}

impl View for Setting {
    type V = SettingView;

    open spec fn view(&self) -> SettingView {
        SettingView { key: self.key@, value: self.value@ }
    }
}

impl View for NotaryState {
    type V = StateView;

    open spec fn view(&self) -> StateView {
        StateView {
            admin: self.admin,
            documents: doc_views(self.documents@),
            user_documents: user_docs_views(self.user_documents@),
            authorities: self.authorities@,
            claims: user_claims_views(self.claims@),
            settings: setting_views(self.settings@),
        }
    }
}

impl View for NotaryEvent {
    type V = EventView;

    open spec fn view(&self) -> EventView {
        match self {
            NotaryEvent::DocumentCreated(h) => EventView::DocumentCreated(h@),
            NotaryEvent::VersionAdded(h) => EventView::VersionAdded(h@),
            NotaryEvent::DocumentSigned(h) => EventView::DocumentSigned(h@),
            NotaryEvent::StatusChanged(h, s) => EventView::StatusChanged(h@, *s),
            NotaryEvent::ClaimAdded(u) => EventView::ClaimAdded(*u),
            NotaryEvent::AuthorityAdded(a) => EventView::AuthorityAdded(*a),
        }
    }
}

} // verus!
