//! The mathematical model: lookups over the state view, well-formedness,
//! and one transition function per public operation. Every executable
//! operation's contract says that it returns exactly the result, reaches
//! exactly the state, and emits exactly the events that these functions
//! give.

use vstd::prelude::*;

use crate::types::Address;
use crate::types::ClaimView;
use crate::types::DocumentStatus;
use crate::types::DocumentView;
use crate::types::EventView;
use crate::types::MetaView;
use crate::types::NotaryError;
use crate::types::SettingView;
use crate::types::SignatureView;
use crate::types::StateView;
use crate::types::UserClaimsView;
use crate::types::UserDocsView;
use crate::types::VersionStatus;
use crate::types::VersionView;

verus! {

/// The all-zero 32-byte sentinel marking "no parent version".
pub open spec fn zero_hash() -> Seq<u8> {
    Seq::new(32, |i: int| 0u8)
}

// ------------------------------------------------------------------
// Lookups
// ------------------------------------------------------------------

pub open spec fn has_doc(st: StateView, h: Seq<u8>) -> bool {
    exists|i: int| 0 <= i < st.documents.len() && (#[trigger] st.documents[i]).hash == h
}

pub open spec fn doc_index(st: StateView, h: Seq<u8>) -> int {
    choose|i: int| 0 <= i < st.documents.len() && (#[trigger] st.documents[i]).hash == h
}

pub open spec fn doc_at(st: StateView, h: Seq<u8>) -> DocumentView {
    st.documents[doc_index(st, h)]
}

/// The version that signatures currently accumulate against.
pub open spec fn current_version_of(d: DocumentView) -> VersionView {
    d.versions[d.current_version as int]
}

pub open spec fn is_authority(st: StateView, a: Address) -> bool {
    st.authorities.contains(a)
}

pub open spec fn has_user_docs(st: StateView, u: Address) -> bool {
    exists|i: int| 0 <= i < st.user_documents.len() && (#[trigger] st.user_documents[i]).user == u
}

pub open spec fn user_docs_index(st: StateView, u: Address) -> int {
    choose|i: int| 0 <= i < st.user_documents.len() && (#[trigger] st.user_documents[i]).user == u
}

/// The ordered document hashes attributed to `u`; empty when unknown.
pub open spec fn user_docs_of(st: StateView, u: Address) -> Seq<Seq<u8>> {
    if has_user_docs(st, u) {
        st.user_documents[user_docs_index(st, u)].hashes
    } else {
        Seq::empty()
    }
}

pub open spec fn has_user_claims(st: StateView, u: Address) -> bool {
    exists|i: int| 0 <= i < st.claims.len() && (#[trigger] st.claims[i]).user == u
}

pub open spec fn user_claims_index(st: StateView, u: Address) -> int {
    choose|i: int| 0 <= i < st.claims.len() && (#[trigger] st.claims[i]).user == u
}

/// The claims issued so far for subject `u`; empty when none.
pub open spec fn claims_of(st: StateView, u: Address) -> Seq<ClaimView> {
    if has_user_claims(st, u) {
        st.claims[user_claims_index(st, u)].claims
    } else {
        Seq::empty()
    }
}

pub open spec fn has_setting(st: StateView, k: Seq<char>) -> bool {
    exists|i: int| 0 <= i < st.settings.len() && (#[trigger] st.settings[i]).key == k
}

pub open spec fn setting_index(st: StateView, k: Seq<char>) -> int {
    choose|i: int| 0 <= i < st.settings.len() && (#[trigger] st.settings[i]).key == k
}

pub open spec fn setting_value(st: StateView, k: Seq<char>) -> Seq<char> {
    st.settings[setting_index(st, k)].value
}

/// Whether `a` already signed version `v`.
pub open spec fn has_signed(v: VersionView, a: Address) -> bool {
    exists|i: int| 0 <= i < v.signatures.len() && (#[trigger] v.signatures[i]).signer == a
}

// ------------------------------------------------------------------
// Well-formedness
// ------------------------------------------------------------------

/// No signer identity appears twice among a version's signatures, and
/// every recorded signer is one of the version's frozen required
/// signers — which is what keeps the signature count from ever passing
/// the required count.
pub open spec fn wf_version(v: VersionView) -> bool {
    &&& forall|i: int, j: int|
        0 <= i < j < v.signatures.len() ==> (#[trigger] v.signatures[i]).signer != (
        #[trigger] v.signatures[j]).signer
    &&& forall|i: int|
        0 <= i < v.signatures.len() ==> v.required_signers.contains(
            (#[trigger] v.signatures[i]).signer,
        )
}

/// A document always has at least one version, `current_version` indexes
/// into them, and every version is itself well formed. Every version's
/// `required_signers` snapshot still equals the document's live
/// `authorized_signers`: no operation ever rewrites the signer set, so
/// the snapshot has nothing to diverge from.
pub open spec fn wf_doc(d: DocumentView) -> bool {
    &&& d.versions.len() >= 1
    &&& (d.current_version as int) < d.versions.len()
    &&& forall|i: int| 0 <= i < d.versions.len() ==> wf_version(#[trigger] d.versions[i])
    &&& forall|i: int|
        0 <= i < d.versions.len() ==> (#[trigger] d.versions[i]).required_signers
            == d.authorized_signers
}

/// The aggregate's invariant: unique document hashes, well-formed
/// documents, and unique keys in every keyed collection.
pub open spec fn wf_state(st: StateView) -> bool {
    &&& forall|i: int, j: int|
        0 <= i < j < st.documents.len() ==> (#[trigger] st.documents[i]).hash != (
        #[trigger] st.documents[j]).hash
    &&& forall|i: int| 0 <= i < st.documents.len() ==> wf_doc(#[trigger] st.documents[i])
    &&& forall|i: int, j: int|
        0 <= i < j < st.user_documents.len() ==> (#[trigger] st.user_documents[i]).user != (
        #[trigger] st.user_documents[j]).user
    &&& forall|i: int, j: int|
        0 <= i < j < st.authorities.len() ==> st.authorities[i] != st.authorities[j]
    &&& forall|i: int, j: int|
        0 <= i < j < st.claims.len() ==> (#[trigger] st.claims[i]).user != (
        #[trigger] st.claims[j]).user
    &&& forall|i: int, j: int|
        0 <= i < j < st.settings.len() ==> (#[trigger] st.settings[i]).key != (
        #[trigger] st.settings[j]).key
}

// ------------------------------------------------------------------
// Transitions
// ------------------------------------------------------------------

/// The state right after initialization: an admin and five empty
/// collections.
pub open spec fn empty_state(admin: Address) -> StateView {
    StateView {
        admin,
        documents: Seq::empty(),
        user_documents: Seq::empty(),
        authorities: Seq::empty(),
        claims: Seq::empty(),
        settings: Seq::empty(),
    }
}

/// The root version of a freshly created document: pending approval,
/// parent pinned to the zero sentinel, no signatures yet.
pub open spec fn root_version(
    h: Seq<u8>,
    title: Seq<char>,
    creator: Address,
    now: u64,
    signers: Seq<Address>,
    meta: Seq<MetaView>,
) -> VersionView {
    VersionView {
        hash: h,
        parent_hash: zero_hash(),
        title,
        status: VersionStatus::PendingApproval,
        creator,
        created_at: now,
        updated_at: now,
        signatures: Seq::empty(),
        required_signers: signers,
        metadata: meta,
    }
}

/// A freshly created document wrapping its root version.
pub open spec fn new_document(
    h: Seq<u8>,
    title: Seq<char>,
    creator: Address,
    now: u64,
    signers: Seq<Address>,
    meta: Seq<MetaView>,
) -> DocumentView {
    DocumentView {
        hash: h,
        status: DocumentStatus::Pending,
        owner: creator,
        created_at: now,
        updated_at: now,
        current_version: 0,
        versions: seq![root_version(h, title, creator, now, signers, meta)],
        authorized_signers: signers,
        metadata: meta,
    }
}

/// Appends `h` to `u`'s document list, creating the list if absent.
/// Duplicates are kept: the list is append-only with no dedup guarantee.
pub open spec fn push_user_doc(
    uds: Seq<UserDocsView>,
    u: Address,
    h: Seq<u8>,
) -> Seq<UserDocsView> {
    if exists|i: int| 0 <= i < uds.len() && (#[trigger] uds[i]).user == u {
        let i = choose|i: int| 0 <= i < uds.len() && (#[trigger] uds[i]).user == u;
        uds.update(i, UserDocsView { user: u, hashes: uds[i].hashes.push(h) })
    } else {
        uds.push(UserDocsView { user: u, hashes: seq![h] })
    }
}

/// Appends `c` to `u`'s claim list, creating the list if absent.
pub open spec fn push_user_claim(
    ucs: Seq<UserClaimsView>,
    u: Address,
    c: ClaimView,
) -> Seq<UserClaimsView> {
    if exists|i: int| 0 <= i < ucs.len() && (#[trigger] ucs[i]).user == u {
        let i = choose|i: int| 0 <= i < ucs.len() && (#[trigger] ucs[i]).user == u;
        ucs.update(i, UserClaimsView { user: u, claims: ucs[i].claims.push(c) })
    } else {
        ucs.push(UserClaimsView { user: u, claims: seq![c] })
    }
}

/// Sets `k` to `v`, overwriting an existing entry or appending a new one.
pub open spec fn set_setting(
    ss: Seq<SettingView>,
    k: Seq<char>,
    v: Seq<char>,
) -> Seq<SettingView> {
    if exists|i: int| 0 <= i < ss.len() && (#[trigger] ss[i]).key == k {
        let i = choose|i: int| 0 <= i < ss.len() && (#[trigger] ss[i]).key == k;
        ss.update(i, SettingView { key: k, value: v })
    } else {
        ss.push(SettingView { key: k, value: v })
    }
}

// --- create_document ---

pub open spec fn create_document_result(st: StateView, h: Seq<u8>) -> Result<(), NotaryError> {
    if has_doc(st, h) {
        Err(NotaryError::AlreadyExists)
    } else {
        Ok(())
    }
}

pub open spec fn create_document_state(
    st: StateView,
    caller: Address,
    now: u64,
    h: Seq<u8>,
    title: Seq<char>,
    signers: Seq<Address>,
    meta: Seq<MetaView>,
) -> StateView {
    if has_doc(st, h) {
        st
    } else {
        StateView {
            documents: st.documents.push(new_document(h, title, caller, now, signers, meta)),
            user_documents: push_user_doc(st.user_documents, caller, h),
            ..st
        }
    }
}

pub open spec fn create_document_events(st: StateView, h: Seq<u8>) -> Seq<EventView> {
    if has_doc(st, h) {
        Seq::empty()
    } else {
        seq![EventView::DocumentCreated(h)]
    }
}

// --- add_version ---

pub open spec fn may_amend(d: DocumentView, caller: Address) -> bool {
    caller == d.owner || d.authorized_signers.contains(caller)
}

pub open spec fn add_version_result(
    st: StateView,
    caller: Address,
    dh: Seq<u8>,
) -> Result<(), NotaryError> {
    if !has_doc(st, dh) {
        Err(NotaryError::NotFound)
    } else if !may_amend(doc_at(st, dh), caller) {
        Err(NotaryError::Unauthorized)
    } else {
        Ok(())
    }
}

/// A new draft version: its parent is the document's root hash (all
/// versions chain to the document, not to each other) and its required
/// signers are a frozen snapshot of the document's current signer set.
pub open spec fn draft_version(
    vh: Seq<u8>,
    dh: Seq<u8>,
    title: Seq<char>,
    creator: Address,
    now: u64,
    signers: Seq<Address>,
    meta: Seq<MetaView>,
) -> VersionView {
    VersionView {
        hash: vh,
        parent_hash: dh,
        title,
        status: VersionStatus::Draft,
        creator,
        created_at: now,
        updated_at: now,
        signatures: Seq::empty(),
        required_signers: signers,
        metadata: meta,
    }
}

/// The document after a version was appended: the new version becomes
/// current, and the document's timestamp moves to `now`.
pub open spec fn with_new_version(
    d: DocumentView,
    vh: Seq<u8>,
    title: Seq<char>,
    creator: Address,
    now: u64,
    meta: Seq<MetaView>,
) -> DocumentView {
    DocumentView {
        versions: d.versions.push(
            draft_version(vh, d.hash, title, creator, now, d.authorized_signers, meta),
        ),
        current_version: d.versions.len() as usize,
        updated_at: now,
        ..d
    }
}

pub open spec fn add_version_state(
    st: StateView,
    caller: Address,
    now: u64,
    dh: Seq<u8>,
    vh: Seq<u8>,
    title: Seq<char>,
    meta: Seq<MetaView>,
) -> StateView {
    if add_version_result(st, caller, dh) is Ok {
        StateView {
            documents: st.documents.update(
                doc_index(st, dh),
                with_new_version(doc_at(st, dh), vh, title, caller, now, meta),
            ),
            ..st
        }
    } else {
        st
    }
}

pub open spec fn add_version_events(
    st: StateView,
    caller: Address,
    dh: Seq<u8>,
    vh: Seq<u8>,
) -> Seq<EventView> {
    if add_version_result(st, caller, dh) is Ok {
        seq![EventView::VersionAdded(vh)]
    } else {
        Seq::empty()
    }
}

// --- sign_document ---

/// The signature's own signer must be in the document's live
/// `authorized_signers`, must not already have signed the current
/// version, and quorum later counts the recorded signatures against
/// the version's frozen `required_signers` snapshot. Live set and
/// frozen snapshot are kept apart, as designed.
pub open spec fn sign_document_result(
    st: StateView,
    dh: Seq<u8>,
    sig: SignatureView,
) -> Result<(), NotaryError> {
    if !has_doc(st, dh) {
        Err(NotaryError::NotFound)
    } else if !doc_at(st, dh).authorized_signers.contains(sig.signer) {
        Err(NotaryError::Unauthorized)
    } else if has_signed(current_version_of(doc_at(st, dh)), sig.signer) {
        Err(NotaryError::AlreadyExists)
    } else {
        Ok(())
    }
}

/// Whether appending one more signature to `v` reaches quorum: exact
/// equality with the frozen required-signer count.
pub open spec fn reaches_quorum(v: VersionView) -> bool {
    v.signatures.len() + 1 == v.required_signers.len()
}

/// The current version after a signature was recorded: on quorum it
/// becomes `Approved`, otherwise its status is untouched.
pub open spec fn signed_version(v: VersionView, sig: SignatureView, now: u64) -> VersionView {
    VersionView {
        signatures: v.signatures.push(sig),
        updated_at: now,
        status: if reaches_quorum(v) {
            VersionStatus::Approved
        } else {
            v.status
        },
        ..v
    }
}

/// The document after its current version was signed: on quorum the
/// document becomes `Active` in the same step.
pub open spec fn signed_document(d: DocumentView, sig: SignatureView, now: u64) -> DocumentView {
    DocumentView {
        versions: d.versions.update(
            d.current_version as int,
            signed_version(current_version_of(d), sig, now),
        ),
        updated_at: now,
        status: if reaches_quorum(current_version_of(d)) {
            DocumentStatus::Active
        } else {
            d.status
        },
        ..d
    }
}

pub open spec fn sign_document_state(
    st: StateView,
    now: u64,
    dh: Seq<u8>,
    sig: SignatureView,
) -> StateView {
    if sign_document_result(st, dh, sig) is Ok {
        StateView {
            documents: st.documents.update(
                doc_index(st, dh),
                signed_document(doc_at(st, dh), sig, now),
            ),
            ..st
        }
    } else {
        st
    }
}

pub open spec fn sign_document_events(
    st: StateView,
    dh: Seq<u8>,
    sig: SignatureView,
) -> Seq<EventView> {
    if sign_document_result(st, dh, sig) is Ok {
        seq![EventView::DocumentSigned(dh)]
    } else {
        Seq::empty()
    }
}

// --- register_authority ---

pub open spec fn register_authority_result(
    st: StateView,
    caller: Address,
) -> Result<(), NotaryError> {
    if caller != st.admin {
        Err(NotaryError::Unauthorized)
    } else {
        Ok(())
    }
}

pub open spec fn register_authority_state(
    st: StateView,
    caller: Address,
    a: Address,
) -> StateView {
    if caller == st.admin && !is_authority(st, a) {
        StateView { authorities: st.authorities.push(a), ..st }
    } else {
        st
    }
}

pub open spec fn register_authority_events(
    st: StateView,
    caller: Address,
    a: Address,
) -> Seq<EventView> {
    if caller == st.admin && !is_authority(st, a) {
        seq![EventView::AuthorityAdded(a)]
    } else {
        Seq::empty()
    }
}

// --- add_claim ---

pub open spec fn add_claim_result(
    st: StateView,
    caller: Address,
    now: u64,
    claim: ClaimView,
) -> Result<(), NotaryError> {
    if !is_authority(st, caller) {
        Err(NotaryError::InvalidAuthority)
    } else if claim.expires_at <= now {
        Err(NotaryError::ExpiredClaim)
    } else {
        Ok(())
    }
}

pub open spec fn add_claim_state(
    st: StateView,
    caller: Address,
    now: u64,
    user: Address,
    claim: ClaimView,
) -> StateView {
    if add_claim_result(st, caller, now, claim) is Ok {
        StateView { claims: push_user_claim(st.claims, user, claim), ..st }
    } else {
        st
    }
}

pub open spec fn add_claim_events(
    st: StateView,
    caller: Address,
    now: u64,
    user: Address,
    claim: ClaimView,
) -> Seq<EventView> {
    if add_claim_result(st, caller, now, claim) is Ok {
        seq![EventView::ClaimAdded(user)]
    } else {
        Seq::empty()
    }
}

// --- update_status ---

pub open spec fn update_status_result(
    st: StateView,
    caller: Address,
    dh: Seq<u8>,
) -> Result<(), NotaryError> {
    if !has_doc(st, dh) {
        Err(NotaryError::NotFound)
    } else if caller != doc_at(st, dh).owner {
        Err(NotaryError::Unauthorized)
    } else {
        Ok(())
    }
}

pub open spec fn update_status_state(
    st: StateView,
    caller: Address,
    now: u64,
    dh: Seq<u8>,
    ns: DocumentStatus,
) -> StateView {
    if update_status_result(st, caller, dh) is Ok {
        StateView {
            documents: st.documents.update(
                doc_index(st, dh),
                DocumentView { status: ns, updated_at: now, ..doc_at(st, dh) },
            ),
            ..st
        }
    } else {
        st
    }
}

pub open spec fn update_status_events(
    st: StateView,
    caller: Address,
    dh: Seq<u8>,
    ns: DocumentStatus,
) -> Seq<EventView> {
    if update_status_result(st, caller, dh) is Ok {
        seq![EventView::StatusChanged(dh, ns)]
    } else {
        Seq::empty()
    }
}

// --- update_config ---

pub open spec fn update_config_result(st: StateView, caller: Address) -> Result<
    (),
    NotaryError,
> {
    if caller != st.admin {
        Err(NotaryError::Unauthorized)
    } else {
        Ok(())
    }
}

pub open spec fn update_config_state(
    st: StateView,
    caller: Address,
    k: Seq<char>,
    v: Seq<char>,
) -> StateView {
    if caller == st.admin {
        StateView { settings: set_setting(st.settings, k, v), ..st }
    } else {
        st
    }
}

// ------------------------------------------------------------------
// A sequence fact used when relating vector edits to their views
// ------------------------------------------------------------------

pub proof fn lemma_remove_insert<A>(s: Seq<A>, i: int, x: A)
    requires
        0 <= i < s.len(),
    ensures
        s.remove(i).insert(i, x) == s.update(i, x),
{
    assert(s.remove(i).insert(i, x) =~= s.update(i, x));
}

// ------------------------------------------------------------------
// In a well-formed state every key matches at most one entry, so an
// index found by scanning is the index the model's choose picks.
// ------------------------------------------------------------------

pub proof fn lemma_doc_index_unique(st: StateView, h: Seq<u8>, i: int)
    requires
        wf_state(st),
        0 <= i < st.documents.len(),
        st.documents[i].hash == h,
    ensures
        has_doc(st, h),
        doc_index(st, h) == i,
        doc_at(st, h) == st.documents[i],
{
    assert(has_doc(st, h));
    let j = doc_index(st, h);
    if i < j {
        assert(st.documents[i].hash != st.documents[j].hash);
    } else if j < i {
        assert(st.documents[j].hash != st.documents[i].hash);
    }
}

pub proof fn lemma_user_docs_index_unique(st: StateView, u: Address, i: int)
    requires
        wf_state(st),
        0 <= i < st.user_documents.len(),
        st.user_documents[i].user == u,
    ensures
        has_user_docs(st, u),
        user_docs_index(st, u) == i,
{
    assert(has_user_docs(st, u));
    let j = user_docs_index(st, u);
    if i < j {
        assert(st.user_documents[i].user != st.user_documents[j].user);
    } else if j < i {
        assert(st.user_documents[j].user != st.user_documents[i].user);
    }
}

pub proof fn lemma_user_claims_index_unique(st: StateView, u: Address, i: int)
    requires
        wf_state(st),
        0 <= i < st.claims.len(),
        st.claims[i].user == u,
    ensures
        has_user_claims(st, u),
        user_claims_index(st, u) == i,
{
    assert(has_user_claims(st, u));
    let j = user_claims_index(st, u);
    if i < j {
        assert(st.claims[i].user != st.claims[j].user);
    } else if j < i {
        assert(st.claims[j].user != st.claims[i].user);
    }
}

pub proof fn lemma_setting_index_unique(st: StateView, k: Seq<char>, i: int)
    requires
        wf_state(st),
        0 <= i < st.settings.len(),
        st.settings[i].key == k,
    ensures
        has_setting(st, k),
        setting_index(st, k) == i,
        setting_value(st, k) == st.settings[i].value,
{
    assert(has_setting(st, k));
    let j = setting_index(st, k);
    if i < j {
        assert(st.settings[i].key != st.settings[j].key);
    } else if j < i {
        assert(st.settings[j].key != st.settings[i].key);
    }
}

// ------------------------------------------------------------------
// The transitions preserve well-formedness
// ------------------------------------------------------------------

pub proof fn lemma_empty_state_wf(admin: Address)
    ensures
        wf_state(empty_state(admin)),
{
}

pub proof fn lemma_create_document_wf(
    st: StateView,
    caller: Address,
    now: u64,
    h: Seq<u8>,
    title: Seq<char>,
    signers: Seq<Address>,
    meta: Seq<MetaView>,
)
    requires
        wf_state(st),
    ensures
        wf_state(create_document_state(st, caller, now, h, title, signers, meta)),
{
    if !has_doc(st, h) {
        let nd = new_document(h, title, caller, now, signers, meta);
        let post = create_document_state(st, caller, now, h, title, signers, meta);
        assert(wf_doc(nd)) by {
            assert(nd.versions.len() == 1);
            assert(wf_version(nd.versions[0]));
        }
        assert forall|i: int, j: int|
            0 <= i < j < post.documents.len() implies (#[trigger] post.documents[i]).hash != (
        #[trigger] post.documents[j]).hash by {
            if j == st.documents.len() {
                assert(post.documents[i] == st.documents[i]);
            }
        }
        let uds = st.user_documents;
        if exists|i: int| 0 <= i < uds.len() && (#[trigger] uds[i]).user == caller {
            let k = choose|i: int| 0 <= i < uds.len() && (#[trigger] uds[i]).user == caller;
            assert(post.user_documents =~= uds.update(
                k,
                UserDocsView { user: caller, hashes: uds[k].hashes.push(h) },
            ));
        }
    }
}

pub proof fn lemma_add_version_wf(
    st: StateView,
    caller: Address,
    now: u64,
    dh: Seq<u8>,
    vh: Seq<u8>,
    title: Seq<char>,
    meta: Seq<MetaView>,
)
    requires
        wf_state(st),
    ensures
        wf_state(add_version_state(st, caller, now, dh, vh, title, meta)),
{
    if add_version_result(st, caller, dh) is Ok {
        let i = doc_index(st, dh);
        let d = doc_at(st, dh);
        let nd = with_new_version(d, vh, title, caller, now, meta);
        assert(wf_doc(nd)) by {
            assert forall|k: int| 0 <= k < nd.versions.len() implies wf_version(
                #[trigger] nd.versions[k],
            ) by {
                if k < d.versions.len() {
                    assert(nd.versions[k] == d.versions[k]);
                }
            }
        }
        let post = add_version_state(st, caller, now, dh, vh, title, meta);
        assert forall|a: int, b: int|
            0 <= a < b < post.documents.len() implies (#[trigger] post.documents[a]).hash != (
        #[trigger] post.documents[b]).hash by {
            assert(st.documents[a].hash != st.documents[b].hash);
        }
    }
}

pub proof fn lemma_sign_document_wf(st: StateView, now: u64, dh: Seq<u8>, sig: SignatureView)
    requires
        wf_state(st),
    ensures
        wf_state(sign_document_state(st, now, dh, sig)),
{
    if sign_document_result(st, dh, sig) is Ok {
        let d = doc_at(st, dh);
        let v = current_version_of(d);
        let nv = signed_version(v, sig, now);
        let nd = signed_document(d, sig, now);
        assert(wf_version(nv)) by {
            assert forall|a: int, b: int|
                0 <= a < b < nv.signatures.len() implies (#[trigger] nv.signatures[a]).signer != (
            #[trigger] nv.signatures[b]).signer by {
                if b == v.signatures.len() {
                    assert(!has_signed(v, sig.signer));
                    assert(nv.signatures[a] == v.signatures[a]);
                }
            }
            assert forall|a: int|
                0 <= a < nv.signatures.len() implies nv.required_signers.contains(
                (#[trigger] nv.signatures[a]).signer,
            ) by {
                if a < v.signatures.len() {
                    assert(nv.signatures[a] == v.signatures[a]);
                } else {
                    assert(v.required_signers == d.authorized_signers);
                }
            }
        }
        assert(wf_doc(nd)) by {
            assert forall|k: int| 0 <= k < nd.versions.len() implies wf_version(
                #[trigger] nd.versions[k],
            ) by {
                if k != d.current_version as int {
                    assert(nd.versions[k] == d.versions[k]);
                }
            }
        }
        let post = sign_document_state(st, now, dh, sig);
        assert forall|a: int, b: int|
            0 <= a < b < post.documents.len() implies (#[trigger] post.documents[a]).hash != (
        #[trigger] post.documents[b]).hash by {
            assert(st.documents[a].hash != st.documents[b].hash);
        }
    }
}

pub proof fn lemma_register_authority_wf(st: StateView, caller: Address, a: Address)
    requires
        wf_state(st),
    ensures
        wf_state(register_authority_state(st, caller, a)),
{
    let post = register_authority_state(st, caller, a);
    if caller == st.admin && !is_authority(st, a) {
        assert forall|i: int, j: int|
            0 <= i < j < post.authorities.len() implies post.authorities[i]
            != post.authorities[j] by {
            if j == st.authorities.len() {
                assert(!st.authorities.contains(a));
                assert(st.authorities[i] == post.authorities[i]);
                assert(st.authorities.contains(st.authorities[i]));
            }
        }
    }
}

pub proof fn lemma_add_claim_wf(
    st: StateView,
    caller: Address,
    now: u64,
    user: Address,
    claim: ClaimView,
)
    requires
        wf_state(st),
    ensures
        wf_state(add_claim_state(st, caller, now, user, claim)),
{
    if add_claim_result(st, caller, now, claim) is Ok {
        let post = add_claim_state(st, caller, now, user, claim);
        let ucs = st.claims;
        if exists|i: int| 0 <= i < ucs.len() && (#[trigger] ucs[i]).user == user {
            let k = choose|i: int| 0 <= i < ucs.len() && (#[trigger] ucs[i]).user == user;
            assert(post.claims =~= ucs.update(
                k,
                UserClaimsView { user, claims: ucs[k].claims.push(claim) },
            ));
        }
    }
}

pub proof fn lemma_update_status_wf(
    st: StateView,
    caller: Address,
    now: u64,
    dh: Seq<u8>,
    ns: DocumentStatus,
)
    requires
        wf_state(st),
    ensures
        wf_state(update_status_state(st, caller, now, dh, ns)),
{
    if update_status_result(st, caller, dh) is Ok {
        let post = update_status_state(st, caller, now, dh, ns);
        let nd = DocumentView { status: ns, updated_at: now, ..doc_at(st, dh) };
        assert(wf_doc(nd));
        assert forall|a: int, b: int|
            0 <= a < b < post.documents.len() implies (#[trigger] post.documents[a]).hash != (
        #[trigger] post.documents[b]).hash by {
            assert(st.documents[a].hash != st.documents[b].hash);
        }
    }
}

pub proof fn lemma_update_config_wf(st: StateView, caller: Address, k: Seq<char>, v: Seq<char>)
    requires
        wf_state(st),
    ensures
        wf_state(update_config_state(st, caller, k, v)),
{
    if caller == st.admin {
        let post = update_config_state(st, caller, k, v);
        let ss = st.settings;
        if exists|i: int| 0 <= i < ss.len() && (#[trigger] ss[i]).key == k {
            let idx = choose|i: int| 0 <= i < ss.len() && (#[trigger] ss[i]).key == k;
            assert(post.settings =~= ss.update(idx, SettingView { key: k, value: v }));
        }
    }
}

} // verus!
