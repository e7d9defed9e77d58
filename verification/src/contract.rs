//! The notary contract: an event log plus the optional state aggregate,
//! with one executable method per public operation. Each method's
//! contract ties its result, the new state, and the emitted events to
//! the model's transition functions.

use vstd::prelude::*;

use crate::model::add_claim_events;
use crate::model::add_claim_result;
use crate::model::add_claim_state;
use crate::model::add_version_events;
use crate::model::add_version_result;
use crate::model::add_version_state;
use crate::model::create_document_events;
use crate::model::create_document_result;
use crate::model::create_document_state;
use crate::model::current_version_of;
use crate::model::doc_at;
use crate::model::doc_index;
use crate::model::draft_version;
use crate::model::empty_state;
use crate::model::has_doc;
use crate::model::has_setting;
use crate::model::has_signed;
use crate::model::has_user_claims;
use crate::model::has_user_docs;
use crate::model::lemma_add_claim_wf;
use crate::model::lemma_add_version_wf;
use crate::model::lemma_create_document_wf;
use crate::model::lemma_doc_index_unique;
use crate::model::lemma_empty_state_wf;
use crate::model::lemma_register_authority_wf;
use crate::model::lemma_remove_insert;
use crate::model::lemma_setting_index_unique;
use crate::model::lemma_sign_document_wf;
use crate::model::lemma_update_config_wf;
use crate::model::lemma_update_status_wf;
use crate::model::lemma_user_claims_index_unique;
use crate::model::lemma_user_docs_index_unique;
use crate::model::new_document;
use crate::model::push_user_claim;
use crate::model::push_user_doc;
use crate::model::register_authority_events;
use crate::model::register_authority_result;
use crate::model::register_authority_state;
use crate::model::set_setting;
use crate::model::setting_index;
use crate::model::setting_value;
use crate::model::sign_document_events;
use crate::model::sign_document_result;
use crate::model::sign_document_state;
use crate::model::signed_document;
use crate::model::signed_version;
use crate::model::update_config_result;
use crate::model::update_config_state;
use crate::model::update_status_events;
use crate::model::update_status_result;
use crate::model::update_status_state;
use crate::model::user_claims_index;
use crate::model::user_docs_index;
use crate::model::user_docs_of;
use crate::model::wf_doc;
use crate::model::wf_state;
use crate::model::with_new_version;
use crate::model::zero_hash;
use crate::types::Address;
use crate::types::Document;
use crate::types::DocumentStatus;
use crate::types::DocumentVersion;
use crate::types::DocumentView;
use crate::types::EventView;
use crate::types::IdentityClaim;
use crate::types::MetaEntry;
use crate::types::NotaryError;
use crate::types::NotaryEvent;
use crate::types::NotaryState;
use crate::types::Setting;
use crate::types::Signature;
use crate::types::StateView;
use crate::types::UserClaims;
use crate::types::UserDocs;
use crate::types::VersionStatus;
use crate::types::bytes_views;
use crate::types::doc_views;
use crate::types::event_views;
use crate::types::meta_views;
use crate::types::sig_views;
use crate::types::user_claims_views;
use crate::types::user_docs_views;
use crate::types::version_views;

verus! {

// ------------------------------------------------------------------
// Small verified helpers over the plain collections
// ------------------------------------------------------------------

/// Byte-string equality, element by element.
fn bytes_eq(a: &Vec<u8>, b: &Vec<u8>) -> (r: bool)
    ensures
        r == (a@ == b@),
{
    if a.len() != b.len() {
        proof {
            if a@ == b@ {
                assert(a@.len() == b@.len());
            }
        }
        return false;
    }
    let mut i: usize = 0;
    while i < a.len()
        invariant
            i <= a.len(),
            a.len() == b.len(),
            forall|k: int| 0 <= k < i ==> a@[k] == b@[k],
        decreases a.len() - i,
    {
        if a[i] != b[i] {
            proof {
                if a@ == b@ {
                    assert(a@[i as int] == b@[i as int]);
                }
            }
            return false;
        }
        i += 1;
    }
    proof {
        assert(a@ =~= b@);
    }
    true
}

/// Membership of an identity in an identity list.
fn addr_in(v: &Vec<Address>, a: Address) -> (r: bool)
    ensures
        r == v@.contains(a),
{
    let mut i: usize = 0;
    while i < v.len()
        invariant
            i <= v.len(),
            forall|k: int| 0 <= k < i ==> v@[k] != a,
        decreases v.len() - i,
    {
        if v[i] == a {
            proof {
                assert(v@[i as int] == a);
            }
            return true;
        }
        i += 1;
    }
    false
}

/// The index of the document keyed by `h`, if any.
fn find_doc(docs: &Vec<Document>, h: &Vec<u8>) -> (r: Option<usize>)
    ensures
        match r {
            Some(i) => i < docs@.len() && (#[trigger] docs@[i as int]).hash@ == h@,
            None => forall|j: int| 0 <= j < docs@.len() ==> (#[trigger] docs@[j]).hash@ != h@,
        },
{
    let mut i: usize = 0;
    while i < docs.len()
        invariant
            i <= docs.len(),
            forall|k: int| 0 <= k < i ==> (#[trigger] docs@[k]).hash@ != h@,
        decreases docs.len() - i,
    {
        if bytes_eq(&docs[i].hash, h) {
            return Some(i);
        }
        i += 1;
    }
    None
}

/// The index of `u`'s document list, if any.
fn find_user_docs(uds: &Vec<UserDocs>, u: Address) -> (r: Option<usize>)
    ensures
        match r {
            Some(i) => i < uds@.len() && (#[trigger] uds@[i as int]).user == u,
            None => forall|j: int| 0 <= j < uds@.len() ==> (#[trigger] uds@[j]).user != u,
        },
{
    let mut i: usize = 0;
    while i < uds.len()
        invariant
            i <= uds.len(),
            forall|k: int| 0 <= k < i ==> (#[trigger] uds@[k]).user != u,
        decreases uds.len() - i,
    {
        if uds[i].user == u {
            return Some(i);
        }
        i += 1;
    }
    None
}

/// The index of the setting keyed by `k`, if any.
fn find_setting(ss: &Vec<Setting>, k: &String) -> (r: Option<usize>)
    ensures
        match r {
            Some(i) => i < ss@.len() && (#[trigger] ss@[i as int]).key@ == k@,
            None => forall|j: int| 0 <= j < ss@.len() ==> (#[trigger] ss@[j]).key@ != k@,
        },
{
    let mut i: usize = 0;
    while i < ss.len()
        invariant
            i <= ss.len(),
            forall|j: int| 0 <= j < i ==> (#[trigger] ss@[j]).key@ != k@,
        decreases ss.len() - i,
    {
        let e = &ss[i];
        if e.key == *k {
            return Some(i);
        }
        i += 1;
    }
    None
}

/// The index of `u`'s claim list, if any.
fn find_user_claims(ucs: &Vec<UserClaims>, u: Address) -> (r: Option<usize>)
    ensures
        match r {
            Some(i) => i < ucs@.len() && (#[trigger] ucs@[i as int]).user == u,
            None => forall|j: int| 0 <= j < ucs@.len() ==> (#[trigger] ucs@[j]).user != u,
        },
{
    let mut i: usize = 0;
    while i < ucs.len()
        invariant
            i <= ucs.len(),
            forall|k: int| 0 <= k < i ==> (#[trigger] ucs@[k]).user != u,
        decreases ucs.len() - i,
    {
        if ucs[i].user == u {
            return Some(i);
        }
        i += 1;
    }
    None
}

/// Whether some recorded signature carries the signer `a`.
fn signer_in(v: &Vec<Signature>, a: Address) -> (r: bool)
    ensures
        r == exists|k: int| 0 <= k < v@.len() && (#[trigger] v@[k]).signer == a,
{
    let mut i: usize = 0;
    while i < v.len()
        invariant
            i <= v.len(),
            forall|k: int| 0 <= k < i ==> (#[trigger] v@[k]).signer != a,
        decreases v.len() - i,
    {
        if v[i].signer == a {
            return true;
        }
        i += 1;
    }
    false
}

/// The all-zero sentinel value for "no parent version".
fn zero_bytes() -> (r: Vec<u8>)
    ensures
        r@ == zero_hash(),
{
    let mut r: Vec<u8> = Vec::new();
    let mut i: usize = 0;
    while i < 32
        invariant
            i <= 32,
            r@.len() == i,
            forall|k: int| 0 <= k < i ==> r@[k] == 0u8,
        decreases 32 - i,
    {
        r.push(0u8);
        i += 1;
    }
    proof {
        assert(r@ =~= zero_hash());
    }
    r
}

// ------------------------------------------------------------------
// Value-preserving copies
// ------------------------------------------------------------------

fn clone_bytes(v: &Vec<u8>) -> (r: Vec<u8>)
    ensures
        r@ == v@,
{
    let mut r: Vec<u8> = Vec::new();
    let mut i: usize = 0;
    while i < v.len()
        invariant
            i <= v.len(),
            r@.len() == i,
            forall|k: int| 0 <= k < i ==> r@[k] == v@[k],
        decreases v.len() - i,
    {
        r.push(v[i]);
        i += 1;
    }
    proof {
        assert(r@ =~= v@);
    }
    r
}

fn clone_addresses(v: &Vec<Address>) -> (r: Vec<Address>)
    ensures
        r@ == v@,
{
    let mut r: Vec<Address> = Vec::new();
    let mut i: usize = 0;
    while i < v.len()
        invariant
            i <= v.len(),
            r@.len() == i,
            forall|k: int| 0 <= k < i ==> r@[k] == v@[k],
        decreases v.len() - i,
    {
        r.push(v[i]);
        i += 1;
    }
    proof {
        assert(r@ =~= v@);
    }
    r
}

fn clone_meta(v: &Vec<MetaEntry>) -> (r: Vec<MetaEntry>)
    ensures
        r@ == v@,
{
    let mut r: Vec<MetaEntry> = Vec::new();
    let mut i: usize = 0;
    while i < v.len()
        invariant
            i <= v.len(),
            r@.len() == i,
            forall|k: int| 0 <= k < i ==> r@[k] == v@[k],
        decreases v.len() - i,
    {
        let e = &v[i];
        r.push(MetaEntry { key: e.key.clone(), value: e.value.clone() });
        i += 1;
    }
    proof {
        assert(r@ =~= v@);
    }
    r
}

fn clone_signature(s: &Signature) -> (r: Signature)
    ensures
        r@ == s@,
{
    Signature {
        signer: s.signer,
        timestamp: s.timestamp,
        signature_data: clone_bytes(&s.signature_data),
        claim_reference: clone_bytes(&s.claim_reference),
    }
}

fn clone_signatures(v: &Vec<Signature>) -> (r: Vec<Signature>)
    ensures
        sig_views(r@) == sig_views(v@),
{
    let mut r: Vec<Signature> = Vec::new();
    let mut i: usize = 0;
    while i < v.len()
        invariant
            i <= v.len(),
            r@.len() == i,
            forall|k: int| 0 <= k < i ==> (#[trigger] r@[k])@ == v@[k]@,
        decreases v.len() - i,
    {
        r.push(clone_signature(&v[i]));
        i += 1;
    }
    proof {
        assert(sig_views(r@) =~= sig_views(v@));
    }
    r
}

fn clone_version(v: &DocumentVersion) -> (r: DocumentVersion)
    ensures
        r@ == v@,
{
    DocumentVersion {
        hash: clone_bytes(&v.hash),
        parent_hash: clone_bytes(&v.parent_hash),
        title: v.title.clone(),
        status: v.status,
        creator: v.creator,
        created_at: v.created_at,
        updated_at: v.updated_at,
        signatures: clone_signatures(&v.signatures),
        required_signers: clone_addresses(&v.required_signers),
        metadata: clone_meta(&v.metadata),
    }
}

fn clone_versions(v: &Vec<DocumentVersion>) -> (r: Vec<DocumentVersion>)
    ensures
        version_views(r@) == version_views(v@),
{
    let mut r: Vec<DocumentVersion> = Vec::new();
    let mut i: usize = 0;
    while i < v.len()
        invariant
            i <= v.len(),
            r@.len() == i,
            forall|k: int| 0 <= k < i ==> (#[trigger] r@[k])@ == v@[k]@,
        decreases v.len() - i,
    {
        r.push(clone_version(&v[i]));
        i += 1;
    }
    proof {
        assert(version_views(r@) =~= version_views(v@));
    }
    r
}

fn clone_document(d: &Document) -> (r: Document)
    ensures
        r@ == d@,
{
    let r = Document {
        hash: clone_bytes(&d.hash),
        status: d.status,
        owner: d.owner,
        created_at: d.created_at,
        updated_at: d.updated_at,
        current_version: d.current_version,
        versions: clone_versions(&d.versions),
        authorized_signers: clone_addresses(&d.authorized_signers),
        metadata: clone_meta(&d.metadata),
    };
    proof {
        assert(r@ =~= d@);
    }
    r
}

fn clone_hashes(v: &Vec<Vec<u8>>) -> (r: Vec<Vec<u8>>)
    ensures
        bytes_views(r@) == bytes_views(v@),
{
    let mut r: Vec<Vec<u8>> = Vec::new();
    let mut i: usize = 0;
    while i < v.len()
        invariant
            i <= v.len(),
            r@.len() == i,
            forall|k: int| 0 <= k < i ==> (#[trigger] r@[k])@ == v@[k]@,
        decreases v.len() - i,
    {
        r.push(clone_bytes(&v[i]));
        i += 1;
    }
    proof {
        assert(bytes_views(r@) =~= bytes_views(v@));
    }
    r
}

// ------------------------------------------------------------------
// The contract
// ------------------------------------------------------------------

/// The view of a contract: the state aggregate (absent until
/// initialization) and every event emitted so far, in order.
#[verifier::ext_equal]
pub ghost struct ContractView {
    pub state: Option<StateView>,
    pub events: Seq<EventView>,
}

/// The notarization ledger. `state` is the single persisted aggregate;
/// `events` is the append-only log handed to external observers.
pub struct NotaryContract {
    pub state: Option<NotaryState>,
    pub events: Vec<NotaryEvent>,
}

impl View for NotaryContract {
    type V = ContractView;

    open spec fn view(&self) -> ContractView {
        ContractView {
            state: match self.state {
                Some(s) => Some(s@),
                None => None,
            },
            events: event_views(self.events@),
        }
    }
}

impl NotaryContract {
    /// Whether `initialize` has run.
    pub open spec fn is_init(self) -> bool {
        self@.state is Some
    }

    /// The current state aggregate (meaningful only once initialized).
    pub open spec fn st(self) -> StateView {
        self@.state->Some_0
    }

    /// The contract's invariant: once initialized, the aggregate is
    /// well formed.
    pub open spec fn wf(self) -> bool {
        self.is_init() ==> wf_state(self.st())
    }

    /// A fresh, uninitialized contract with an empty event log.
    pub fn new() -> (c: NotaryContract)
        ensures
            c.wf(),
            !c.is_init(),
            c@.events == Seq::<EventView>::empty(),
    {
        let c = NotaryContract { state: None, events: Vec::new() };
        proof {
            assert(c@.events =~= Seq::<EventView>::empty());
        }
        c
    }

    /// One-time setup: records the admin and creates the five empty
    /// collections. Fails with `AlreadyExists` on any later call.
    pub fn initialize(&mut self, admin: Address) -> (r: Result<(), NotaryError>)
        requires
            old(self).wf(),
        ensures
            final(self).wf(),
            old(self).is_init() ==> r == Err::<(), NotaryError>(NotaryError::AlreadyExists)
                && *final(self) == *old(self),
            !old(self).is_init() ==> r == Ok::<(), NotaryError>(()) && final(self)@.state
                == Some(empty_state(admin)) && final(self)@.events == old(self)@.events,
    {
        if self.state.is_some() {
            return Err(NotaryError::AlreadyExists);
        }
        self.state = Some(
            NotaryState {
                admin,
                documents: Vec::new(),
                user_documents: Vec::new(),
                authorities: Vec::new(),
                claims: Vec::new(),
                settings: Vec::new(),
            },
        );
        proof {
            lemma_empty_state_wf(admin);
            assert(self.st() =~= empty_state(admin));
        }
        Ok(())
    }

    /// Records a new document keyed by `hash`, wrapping a root version
    /// that awaits approval by `signers`; the hash must be fresh.
    pub fn create_document(
        &mut self,
        caller: Address,
        now: u64,
        hash: Vec<u8>,
        title: String,
        signers: Vec<Address>,
        metadata: Vec<MetaEntry>,
    ) -> (r: Result<(), NotaryError>)
        requires
            old(self).wf(),
            old(self).is_init(),
            hash@.len() == 32,
        ensures
            final(self).wf(),
            final(self).is_init(),
            r == create_document_result(old(self).st(), hash@),
            final(self)@.state == Some(
                create_document_state(
                    old(self).st(),
                    caller,
                    now,
                    hash@,
                    title@,
                    signers@,
                    meta_views(metadata@),
                ),
            ),
            final(self)@.events == old(self)@.events + create_document_events(
                old(self).st(),
                hash@,
            ),
    {
        let ghost h = hash@;
        let ghost t = title@;
        let ghost sg = signers@;
        let ghost meta = meta_views(metadata@);
        proof {
            lemma_create_document_wf(old(self).st(), caller, now, h, t, signers@, meta);
        }
        let mut state = self.state.take().unwrap();
        match find_doc(&state.documents, &hash) {
            Some(i) => {
                proof {
                    lemma_doc_index_unique(old(self).st(), h, i as int);
                }
                self.state = Some(state);
                return Err(NotaryError::AlreadyExists);
            },
            None => {
                proof {
                    if has_doc(old(self).st(), h) {
                        let j = doc_index(old(self).st(), h);
                        assert(state.documents@[j].hash@ == h);
                    }
                }
            },
        }
        let version = DocumentVersion {
            hash: clone_bytes(&hash),
            parent_hash: zero_bytes(),
            title,
            status: VersionStatus::PendingApproval,
            creator: caller,
            created_at: now,
            updated_at: now,
            signatures: Vec::new(),
            required_signers: clone_addresses(&signers),
            metadata: clone_meta(&metadata),
        };
        let mut versions: Vec<DocumentVersion> = Vec::new();
        versions.push(version);
        let document = Document {
            hash: clone_bytes(&hash),
            status: DocumentStatus::Pending,
            owner: caller,
            created_at: now,
            updated_at: now,
            current_version: 0,
            versions,
            authorized_signers: signers,
            metadata,
        };
        proof {
            assert(document@ =~~= new_document(h, t, caller, now, sg, meta));
        }
        state.documents.push(document);
        match find_user_docs(&state.user_documents, caller) {
            Some(i) => {
                proof {
                    lemma_user_docs_index_unique(old(self).st(), caller, i as int);
                }
                let mut ud = state.user_documents.remove(i);
                ud.hashes.push(clone_bytes(&hash));
                state.user_documents.insert(i, ud);
            },
            None => {
                proof {
                    if has_user_docs(old(self).st(), caller) {
                        let j = user_docs_index(old(self).st(), caller);
                        assert(state.user_documents@[j].user == caller);
                    }
                }
                let mut hashes: Vec<Vec<u8>> = Vec::new();
                hashes.push(clone_bytes(&hash));
                state.user_documents.push(UserDocs { user: caller, hashes });
            },
        }
        proof {
            assert(user_docs_views(state.user_documents@) =~~= push_user_doc(
                old(self).st().user_documents,
                caller,
                h,
            ));
        }
        self.state = Some(state);
        self.events.push(NotaryEvent::DocumentCreated(hash));
        proof {
            assert(self.st() =~~= create_document_state(
                old(self).st(),
                caller,
                now,
                h,
                t,
                sg,
                meta,
            ));
            assert(self@.events =~~= old(self)@.events + create_document_events(
                old(self).st(),
                h,
            ));
        }
        Ok(())
    }

    /// Appends a draft version to an existing document; only the owner
    /// or an authorized signer may amend. The new version becomes the
    /// current one.
    pub fn add_version(
        &mut self,
        caller: Address,
        now: u64,
        document_hash: Vec<u8>,
        version_hash: Vec<u8>,
        title: String,
        metadata: Vec<MetaEntry>,
    ) -> (r: Result<(), NotaryError>)
        requires
            old(self).wf(),
            old(self).is_init(),
            document_hash@.len() == 32,
            version_hash@.len() == 32,
        ensures
            final(self).wf(),
            final(self).is_init(),
            r == add_version_result(old(self).st(), caller, document_hash@),
            final(self)@.state == Some(
                add_version_state(
                    old(self).st(),
                    caller,
                    now,
                    document_hash@,
                    version_hash@,
                    title@,
                    meta_views(metadata@),
                ),
            ),
            final(self)@.events == old(self)@.events + add_version_events(
                old(self).st(),
                caller,
                document_hash@,
                version_hash@,
            ),
    {
        let ghost h = document_hash@;
        let ghost vh = version_hash@;
        let ghost t = title@;
        let ghost meta = meta_views(metadata@);
        proof {
            lemma_add_version_wf(old(self).st(), caller, now, h, vh, t, meta);
        }
        let mut state = self.state.take().unwrap();
        let i = match find_doc(&state.documents, &document_hash) {
            Some(i) => i,
            None => {
                proof {
                    if has_doc(old(self).st(), h) {
                        let j = doc_index(old(self).st(), h);
                        assert(state.documents@[j].hash@ == h);
                    }
                }
                self.state = Some(state);
                return Err(NotaryError::NotFound);
            },
        };
        proof {
            lemma_doc_index_unique(old(self).st(), h, i as int);
        }
        let authorized = caller == state.documents[i].owner || addr_in(
            &state.documents[i].authorized_signers,
            caller,
        );
        if !authorized {
            self.state = Some(state);
            return Err(NotaryError::Unauthorized);
        }
        let mut doc = state.documents.remove(i);
        let version = DocumentVersion {
            hash: clone_bytes(&version_hash),
            parent_hash: document_hash,
            title,
            status: VersionStatus::Draft,
            creator: caller,
            created_at: now,
            updated_at: now,
            signatures: Vec::new(),
            required_signers: clone_addresses(&doc.authorized_signers),
            metadata,
        };
        proof {
            assert(version@ =~~= draft_version(vh, h, t, caller, now, doc@.authorized_signers, meta));
        }
        doc.versions.push(version);
        doc.current_version = doc.versions.len() - 1;
        doc.updated_at = now;
        proof {
            assert(doc@ =~~= with_new_version(doc_at(old(self).st(), h), vh, t, caller, now, meta));
        }
        state.documents.insert(i, doc);
        proof {
            lemma_remove_insert(
                old(self).st().documents,
                i as int,
                with_new_version(doc_at(old(self).st(), h), vh, t, caller, now, meta),
            );
            assert(doc_views(state.documents@) =~~= old(self).st().documents.update(
                i as int,
                with_new_version(doc_at(old(self).st(), h), vh, t, caller, now, meta),
            ));
        }
        self.state = Some(state);
        self.events.push(NotaryEvent::VersionAdded(version_hash));
        proof {
            assert(self.st() =~~= add_version_state(old(self).st(), caller, now, h, vh, t, meta));
            assert(self@.events =~~= old(self)@.events + add_version_events(
                old(self).st(),
                caller,
                h,
                vh,
            ));
        }
        Ok(())
    }

    /// Records one signature on the document's current version; the
    /// signature's signer must be one of the document's authorized
    /// signers and must not have signed this version before. When the
    /// signature count reaches the version's frozen required-signer
    /// count, the version becomes `Approved` and the document `Active`
    /// in the same step.
    pub fn sign_document(
        &mut self,
        now: u64,
        document_hash: Vec<u8>,
        signature: Signature,
    ) -> (r: Result<(), NotaryError>)
        requires
            old(self).wf(),
            old(self).is_init(),
            document_hash@.len() == 32,
        ensures
            final(self).wf(),
            final(self).is_init(),
            r == sign_document_result(old(self).st(), document_hash@, signature@),
            final(self)@.state == Some(
                sign_document_state(old(self).st(), now, document_hash@, signature@),
            ),
            final(self)@.events == old(self)@.events + sign_document_events(
                old(self).st(),
                document_hash@,
                signature@,
            ),
    {
        let ghost h = document_hash@;
        let ghost sg = signature@;
        proof {
            lemma_sign_document_wf(old(self).st(), now, h, sg);
        }
        let mut state = self.state.take().unwrap();
        let i = match find_doc(&state.documents, &document_hash) {
            Some(i) => i,
            None => {
                proof {
                    if has_doc(old(self).st(), h) {
                        let j = doc_index(old(self).st(), h);
                        assert(state.documents@[j].hash@ == h);
                    }
                }
                self.state = Some(state);
                return Err(NotaryError::NotFound);
            },
        };
        proof {
            lemma_doc_index_unique(old(self).st(), h, i as int);
        }
        if !addr_in(&state.documents[i].authorized_signers, signature.signer) {
            self.state = Some(state);
            return Err(NotaryError::Unauthorized);
        }
        let ghost d = doc_at(old(self).st(), h);
        proof {
            assert(wf_doc(d));
        }
        let mut doc = state.documents.remove(i);
        let cv = doc.current_version;
        let ghost v = current_version_of(d);
        if signer_in(&doc.versions[cv].signatures, signature.signer) {
            proof {
                let vsigs = doc.versions@[cv as int].signatures@;
                let k = choose|k: int|
                    0 <= k < vsigs.len() && (#[trigger] vsigs[k]).signer == signature.signer;
                assert(v.signatures[k].signer == sg.signer);
                assert(has_signed(v, sg.signer));
            }
            state.documents.insert(i, doc);
            proof {
                lemma_remove_insert(old(self).st().documents, i as int, d);
                assert(doc_views(state.documents@) =~~= old(self).st().documents);
            }
            self.state = Some(state);
            proof {
                assert(self.st() =~~= old(self).st());
            }
            return Err(NotaryError::AlreadyExists);
        }
        proof {
            if has_signed(v, sg.signer) {
                let k = choose|k: int|
                    0 <= k < v.signatures.len() && (#[trigger] v.signatures[k]).signer == sg.signer;
                assert(doc.versions@[cv as int].signatures@[k].signer == sg.signer);
            }
        }
        let mut ver = doc.versions.remove(cv);
        ver.signatures.push(signature);
        ver.updated_at = now;
        if ver.signatures.len() == ver.required_signers.len() {
            ver.status = VersionStatus::Approved;
            doc.status = DocumentStatus::Active;
        }
        proof {
            assert(ver@ =~~= signed_version(v, sg, now));
        }
        doc.versions.insert(cv, ver);
        doc.updated_at = now;
        proof {
            lemma_remove_insert(d.versions, cv as int, signed_version(v, sg, now));
            assert(version_views(doc.versions@) =~~= d.versions.update(
                cv as int,
                signed_version(v, sg, now),
            ));
            assert(doc@ =~~= signed_document(d, sg, now));
        }
        state.documents.insert(i, doc);
        proof {
            lemma_remove_insert(old(self).st().documents, i as int, signed_document(d, sg, now));
            assert(doc_views(state.documents@) =~~= old(self).st().documents.update(
                i as int,
                signed_document(d, sg, now),
            ));
        }
        self.state = Some(state);
        self.events.push(NotaryEvent::DocumentSigned(document_hash));
        proof {
            assert(self.st() =~~= sign_document_state(old(self).st(), now, h, sg));
            assert(self@.events =~~= old(self)@.events + sign_document_events(
                old(self).st(),
                h,
                sg,
            ));
        }
        Ok(())
    }

    /// Owner-only, unguarded overwrite of a document's status: any
    /// status may move to any other.
    pub fn update_status(
        &mut self,
        caller: Address,
        now: u64,
        document_hash: Vec<u8>,
        new_status: DocumentStatus,
    ) -> (r: Result<(), NotaryError>)
        requires
            old(self).wf(),
            old(self).is_init(),
            document_hash@.len() == 32,
        ensures
            final(self).wf(),
            final(self).is_init(),
            r == update_status_result(old(self).st(), caller, document_hash@),
            final(self)@.state == Some(
                update_status_state(old(self).st(), caller, now, document_hash@, new_status),
            ),
            final(self)@.events == old(self)@.events + update_status_events(
                old(self).st(),
                caller,
                document_hash@,
                new_status,
            ),
    {
        let ghost h = document_hash@;
        proof {
            lemma_update_status_wf(old(self).st(), caller, now, h, new_status);
        }
        let mut state = self.state.take().unwrap();
        let i = match find_doc(&state.documents, &document_hash) {
            Some(i) => i,
            None => {
                proof {
                    if has_doc(old(self).st(), h) {
                        let j = doc_index(old(self).st(), h);
                        assert(state.documents@[j].hash@ == h);
                    }
                }
                self.state = Some(state);
                return Err(NotaryError::NotFound);
            },
        };
        proof {
            lemma_doc_index_unique(old(self).st(), h, i as int);
        }
        if caller != state.documents[i].owner {
            self.state = Some(state);
            return Err(NotaryError::Unauthorized);
        }
        let ghost d = doc_at(old(self).st(), h);
        let mut doc = state.documents.remove(i);
        doc.status = new_status;
        doc.updated_at = now;
        proof {
            assert(doc@ =~~= DocumentView { status: new_status, updated_at: now, ..d });
        }
        state.documents.insert(i, doc);
        proof {
            lemma_remove_insert(
                old(self).st().documents,
                i as int,
                DocumentView { status: new_status, updated_at: now, ..d },
            );
            assert(doc_views(state.documents@) =~~= old(self).st().documents.update(
                i as int,
                DocumentView { status: new_status, updated_at: now, ..d },
            ));
        }
        self.state = Some(state);
        self.events.push(NotaryEvent::StatusChanged(document_hash, new_status));
        proof {
            assert(self.st() =~~= update_status_state(old(self).st(), caller, now, h, new_status));
            assert(self@.events =~~= old(self)@.events + update_status_events(
                old(self).st(),
                caller,
                h,
                new_status,
            ));
        }
        Ok(())
    }

    /// Issues an identity claim for `user`. Only a registered authority
    /// may issue, and the claim must not already be expired: its
    /// `expires_at` must lie strictly after `now`.
    pub fn add_claim(
        &mut self,
        caller: Address,
        now: u64,
        user: Address,
        claim: IdentityClaim,
    ) -> (r: Result<(), NotaryError>)
        requires
            old(self).wf(),
            old(self).is_init(),
        ensures
            final(self).wf(),
            final(self).is_init(),
            r == add_claim_result(old(self).st(), caller, now, claim@),
            final(self)@.state == Some(
                add_claim_state(old(self).st(), caller, now, user, claim@),
            ),
            final(self)@.events == old(self)@.events + add_claim_events(
                old(self).st(),
                caller,
                now,
                user,
                claim@,
            ),
    {
        let ghost c = claim@;
        proof {
            lemma_add_claim_wf(old(self).st(), caller, now, user, c);
        }
        let mut state = self.state.take().unwrap();
        if !addr_in(&state.authorities, caller) {
            self.state = Some(state);
            return Err(NotaryError::InvalidAuthority);
        }
        if claim.expires_at <= now {
            self.state = Some(state);
            return Err(NotaryError::ExpiredClaim);
        }
        match find_user_claims(&state.claims, user) {
            Some(i) => {
                proof {
                    lemma_user_claims_index_unique(old(self).st(), user, i as int);
                }
                let mut uc = state.claims.remove(i);
                uc.claims.push(claim);
                state.claims.insert(i, uc);
            },
            None => {
                proof {
                    if has_user_claims(old(self).st(), user) {
                        let j = user_claims_index(old(self).st(), user);
                        assert(state.claims@[j].user == user);
                    }
                }
                let mut cs: Vec<IdentityClaim> = Vec::new();
                cs.push(claim);
                state.claims.push(UserClaims { user, claims: cs });
            },
        }
        proof {
            assert(user_claims_views(state.claims@) =~~= push_user_claim(
                old(self).st().claims,
                user,
                c,
            ));
        }
        self.state = Some(state);
        self.events.push(NotaryEvent::ClaimAdded(user));
        proof {
            assert(self.st() =~~= add_claim_state(old(self).st(), caller, now, user, c));
            assert(self@.events =~~= old(self)@.events + add_claim_events(
                old(self).st(),
                caller,
                now,
                user,
                c,
            ));
        }
        Ok(())
    }

    /// Looks a document up by hash and returns a value-equal copy;
    /// `NotFound` when no document carries the hash.
    pub fn verify_document(&self, document_hash: &Vec<u8>) -> (r: Result<Document, NotaryError>)
        requires
            self.wf(),
            self.is_init(),
        ensures
            r is Ok <==> has_doc(self.st(), document_hash@),
            r is Ok ==> r->Ok_0@ == doc_at(self.st(), document_hash@),
            r is Err ==> r == Err::<Document, NotaryError>(NotaryError::NotFound),
    {
        let state = self.state.as_ref().unwrap();
        match find_doc(&state.documents, document_hash) {
            Some(i) => {
                proof {
                    lemma_doc_index_unique(self.st(), document_hash@, i as int);
                }
                Ok(clone_document(&state.documents[i]))
            },
            None => {
                proof {
                    if has_doc(self.st(), document_hash@) {
                        let j = doc_index(self.st(), document_hash@);
                        assert(state.documents@[j].hash@ == document_hash@);
                    }
                }
                Err(NotaryError::NotFound)
            },
        }
    }

    /// The ordered document hashes attributed to `user`; an empty list,
    /// never an error, when there are none.
    pub fn get_user_documents(&self, user: Address) -> (r: Result<Vec<Vec<u8>>, NotaryError>)
        requires
            self.wf(),
            self.is_init(),
        ensures
            r is Ok,
            bytes_views(r->Ok_0@) == user_docs_of(self.st(), user),
    {
        let state = self.state.as_ref().unwrap();
        match find_user_docs(&state.user_documents, user) {
            Some(i) => {
                proof {
                    lemma_user_docs_index_unique(self.st(), user, i as int);
                }
                Ok(clone_hashes(&state.user_documents[i].hashes))
            },
            None => {
                proof {
                    if has_user_docs(self.st(), user) {
                        let j = user_docs_index(self.st(), user);
                        assert(state.user_documents@[j].user == user);
                    }
                }
                let r: Vec<Vec<u8>> = Vec::new();
                proof {
                    assert(bytes_views(r@) =~= user_docs_of(self.st(), user));
                }
                Ok(r)
            },
        }
    }

    /// Admin-only registration of a certification authority; a repeat
    /// registration is an event-free no-op that still succeeds.
    pub fn register_authority(&mut self, caller: Address, authority: Address) -> (r: Result<
        (),
        NotaryError,
    >)
        requires
            old(self).wf(),
            old(self).is_init(),
        ensures
            final(self).wf(),
            final(self).is_init(),
            r == register_authority_result(old(self).st(), caller),
            final(self)@.state == Some(
                register_authority_state(old(self).st(), caller, authority),
            ),
            final(self)@.events == old(self)@.events + register_authority_events(
                old(self).st(),
                caller,
                authority,
            ),
    {
        proof {
            lemma_register_authority_wf(old(self).st(), caller, authority);
        }
        let mut state = self.state.take().unwrap();
        if caller != state.admin {
            self.state = Some(state);
            proof {
                assert(final(self)@.events =~= old(self)@.events + register_authority_events(
                    old(self).st(),
                    caller,
                    authority,
                ));
            }
            return Err(NotaryError::Unauthorized);
        }
        if !addr_in(&state.authorities, authority) {
            state.authorities.push(authority);
            self.state = Some(state);
            self.events.push(NotaryEvent::AuthorityAdded(authority));
            proof {
                assert(self.st() =~= register_authority_state(old(self).st(), caller, authority));
                assert(self@.events =~= old(self)@.events + register_authority_events(
                    old(self).st(),
                    caller,
                    authority,
                ));
            }
            return Ok(());
        }
        self.state = Some(state);
        proof {
            assert(self.st() =~= register_authority_state(old(self).st(), caller, authority));
            assert(self@.events =~= old(self)@.events + register_authority_events(
                old(self).st(),
                caller,
                authority,
            ));
        }
        Ok(())
    }

    /// Admin-only write of one opaque configuration string.
    pub fn update_config(&mut self, caller: Address, key: String, value: String) -> (r: Result<
        (),
        NotaryError,
    >)
        requires
            old(self).wf(),
            old(self).is_init(),
        ensures
            final(self).wf(),
            final(self).is_init(),
            r == update_config_result(old(self).st(), caller),
            final(self)@.state == Some(update_config_state(old(self).st(), caller, key@, value@)),
            final(self)@.events == old(self)@.events,
    {
        proof {
            lemma_update_config_wf(old(self).st(), caller, key@, value@);
        }
        let ghost k = key@;
        let ghost v = value@;
        let mut state = self.state.take().unwrap();
        if caller != state.admin {
            self.state = Some(state);
            return Err(NotaryError::Unauthorized);
        }
        match find_setting(&state.settings, &key) {
            Some(i) => {
                proof {
                    lemma_setting_index_unique(old(self).st(), k, i as int);
                }
                state.settings[i] = Setting { key, value };
                proof {
                    assert(state@.settings =~= set_setting(old(self).st().settings, k, v));
                }
            },
            None => {
                state.settings.push(Setting { key, value });
                proof {
                    assert(state@.settings =~= set_setting(old(self).st().settings, k, v));
                }
            },
        }
        self.state = Some(state);
        proof {
            assert(self.st() =~= update_config_state(old(self).st(), caller, k, v));
        }
        Ok(())
    }

    /// Read of one configuration string; `NotFound` when the key was
    /// never set.
    pub fn get_config(&self, key: &String) -> (r: Result<String, NotaryError>)
        requires
            self.wf(),
            self.is_init(),
        ensures
            r is Ok <==> has_setting(self.st(), key@),
            r is Ok ==> r->Ok_0@ == setting_value(self.st(), key@),
            r is Err ==> r == Err::<String, NotaryError>(NotaryError::NotFound),
    {
        let state = self.state.as_ref().unwrap();
        match find_setting(&state.settings, key) {
            Some(i) => {
                proof {
                    lemma_setting_index_unique(self.st(), key@, i as int);
                }
                Ok(state.settings[i].value.clone())
            },
            None => {
                proof {
                    if has_setting(self.st(), key@) {
                        let j = setting_index(self.st(), key@);
                        assert(state.settings@[j].key@ == key@);
                    }
                }
                Err(NotaryError::NotFound)
            },
        }
    }
}


} // verus!
