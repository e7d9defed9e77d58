//! The laws the ledger obeys, stated over the model's transition
//! functions and proved once and for all: hash uniqueness, quorum
//! exactness, no double-signing, the claim-expiry boundary, authority
//! gating, and idempotent authority registration.

use vstd::prelude::*;

use crate::model::add_claim_events;
use crate::model::add_claim_result;
use crate::model::add_claim_state;
use crate::model::claims_of;
use crate::model::create_document_events;
use crate::model::create_document_result;
use crate::model::create_document_state;
use crate::model::current_version_of;
use crate::model::doc_index;
use crate::model::doc_at;
use crate::model::has_doc;
use crate::model::has_signed;
use crate::model::has_user_claims;
use crate::model::is_authority;
use crate::model::lemma_add_claim_wf;
use crate::model::lemma_create_document_wf;
use crate::model::lemma_doc_index_unique;
use crate::model::lemma_sign_document_wf;
use crate::model::lemma_user_claims_index_unique;
use crate::model::new_document;
use crate::model::register_authority_events;
use crate::model::register_authority_result;
use crate::model::register_authority_state;
use crate::model::sign_document_events;
use crate::model::sign_document_result;
use crate::model::sign_document_state;
use crate::model::signed_document;
use crate::model::signed_version;
use crate::model::user_claims_index;
use crate::model::wf_doc;
use crate::model::wf_state;
use crate::model::wf_version;
use crate::types::Address;
use crate::types::ClaimView;
use crate::types::DocumentStatus;
use crate::types::EventView;
use crate::types::MetaView;
use crate::types::NotaryError;
use crate::types::SignatureView;
use crate::types::StateView;
use crate::types::VersionStatus;
use crate::types::VersionView;

verus! {

/// Uniqueness: when `h` is fresh, creating a document under `h`
/// succeeds; a second creation under the same `h` — whatever its other
/// arguments — fails with `AlreadyExists`, emits nothing, and leaves
/// the state, the first document's data included, unchanged.
pub proof fn lemma_create_document_unique(
    st: StateView,
    caller1: Address,
    now1: u64,
    title1: Seq<char>,
    signers1: Seq<Address>,
    meta1: Seq<MetaView>,
    caller2: Address,
    now2: u64,
    title2: Seq<char>,
    signers2: Seq<Address>,
    meta2: Seq<MetaView>,
    h: Seq<u8>,
)
    requires
        wf_state(st),
        !has_doc(st, h),
    ensures
        create_document_result(st, h) == Ok::<(), NotaryError>(()),
        ({
            let st1 = create_document_state(st, caller1, now1, h, title1, signers1, meta1);
            &&& create_document_result(st1, h) == Err::<(), NotaryError>(
                NotaryError::AlreadyExists,
            )
            &&& create_document_state(st1, caller2, now2, h, title2, signers2, meta2) == st1
            &&& create_document_events(st1, h) == Seq::<EventView>::empty()
            &&& doc_at(st1, h) == new_document(h, title1, caller1, now1, signers1, meta1)
        }),
{
    let st1 = create_document_state(st, caller1, now1, h, title1, signers1, meta1);
    lemma_create_document_wf(st, caller1, now1, h, title1, signers1, meta1);
    let n = st.documents.len() as int;
    assert(st1.documents[n].hash == h);
    lemma_doc_index_unique(st1, h, n);
}

/// Quorum exactness: a successful signature raises the current
/// version's signature count by exactly one and keeps its frozen
/// required-signer set. While the new count still differs from the
/// required count, neither the version's status nor the document's
/// changes; the moment they are equal, the version becomes `Approved`
/// and the document `Active` in the same transition.
pub proof fn lemma_quorum_exactness(st: StateView, now: u64, dh: Seq<u8>, sig: SignatureView)
    requires
        wf_state(st),
        sign_document_result(st, dh, sig) == Ok::<(), NotaryError>(()),
    ensures
        ({
            let st1 = sign_document_state(st, now, dh, sig);
            let v = current_version_of(doc_at(st, dh));
            let d1 = doc_at(st1, dh);
            let v1 = current_version_of(d1);
            &&& v1.signatures.len() == v.signatures.len() + 1
            &&& v1.required_signers == v.required_signers
            &&& v.signatures.len() + 1 != v.required_signers.len() ==> v1.status == v.status
                && d1.status == doc_at(st, dh).status
            &&& v.signatures.len() + 1 == v.required_signers.len() ==> v1.status
                == VersionStatus::Approved && d1.status == DocumentStatus::Active
        }),
{
    let st1 = sign_document_state(st, now, dh, sig);
    let i = doc_index(st, dh);
    let d = doc_at(st, dh);
    let nd = signed_document(d, sig, now);
    lemma_sign_document_wf(st, now, dh, sig);
    assert(st1.documents[i] == nd);
    assert(nd.hash == dh);
    lemma_doc_index_unique(st1, dh, i);
    assert(current_version_of(nd) == signed_version(current_version_of(d), sig, now));
}

/// The state after one `sign_document` transition per element of
/// `sigs`, applied in order against the same document.
pub open spec fn sign_many(
    st: StateView,
    sigs: Seq<SignatureView>,
    now: u64,
    dh: Seq<u8>,
) -> StateView
    decreases sigs.len(),
{
    if sigs.len() == 0 {
        st
    } else {
        sign_many(sign_document_state(st, now, dh, sigs[0]), sigs.drop_first(), now, dh)
    }
}

/// Whether every transition in the run of `sign_many` succeeds.
pub open spec fn all_signs_succeed(
    st: StateView,
    sigs: Seq<SignatureView>,
    now: u64,
    dh: Seq<u8>,
) -> bool
    decreases sigs.len(),
{
    sigs.len() == 0 || {
        &&& sign_document_result(st, dh, sigs[0]) is Ok
        &&& all_signs_succeed(sign_document_state(st, now, dh, sigs[0]), sigs.drop_first(), now, dh)
    }
}

/// Quorum progress over a whole run: after `k` successful signatures
/// the current version carries exactly `k` more; as long as the total
/// stays below the frozen required count, neither the version's status
/// nor the document's has moved, and the run whose total reaches the
/// count exactly ends with the version `Approved` and the document
/// `Active`.
pub proof fn lemma_quorum_progress(
    st: StateView,
    sigs: Seq<SignatureView>,
    now: u64,
    dh: Seq<u8>,
)
    requires
        wf_state(st),
        sigs.len() > 0,
        has_doc(st, dh),
        all_signs_succeed(st, sigs, now, dh),
        current_version_of(doc_at(st, dh)).signatures.len() + sigs.len() <= current_version_of(
            doc_at(st, dh),
        ).required_signers.len(),
    ensures
        ({
            let stk = sign_many(st, sigs, now, dh);
            let v0 = current_version_of(doc_at(st, dh));
            let vk = current_version_of(doc_at(stk, dh));
            &&& wf_state(stk)
            &&& has_doc(stk, dh)
            &&& vk.signatures.len() == v0.signatures.len() + sigs.len()
            &&& vk.required_signers == v0.required_signers
            &&& v0.signatures.len() + sigs.len() < v0.required_signers.len() ==> vk.status
                == v0.status && doc_at(stk, dh).status == doc_at(st, dh).status
            &&& v0.signatures.len() + sigs.len() == v0.required_signers.len() ==> vk.status
                == VersionStatus::Approved && doc_at(stk, dh).status == DocumentStatus::Active
        }),
    decreases sigs.len(),
{
    let st1 = sign_document_state(st, now, dh, sigs[0]);
    assert(sign_document_result(st, dh, sigs[0]) == Ok::<(), NotaryError>(()));
    lemma_quorum_exactness(st, now, dh, sigs[0]);
    lemma_sign_document_wf(st, now, dh, sigs[0]);
    let i = doc_index(st, dh);
    assert(st1.documents[i].hash == dh);
    lemma_doc_index_unique(st1, dh, i);
    if sigs.len() > 1 {
        lemma_quorum_progress(st1, sigs.drop_first(), now, dh);
    }
}

/// The recorded signers of a well-formed version are pairwise distinct
/// and all drawn from its frozen required set, so its signature count
/// never exceeds the required-signer count.
pub proof fn lemma_version_count_bound(v: VersionView)
    requires
        wf_version(v),
    ensures
        v.signatures.len() <= v.required_signers.len(),
{
    broadcast use vstd::seq_lib::seq_to_set_is_finite;

    let signers = v.signatures.map_values(|s: SignatureView| s.signer);
    assert forall|i: int, j: int|
        0 <= i < signers.len() && 0 <= j < signers.len() && i != j implies signers[i]
        != signers[j] by {
        if i < j {
            assert(v.signatures[i].signer != v.signatures[j].signer);
        } else {
            assert(v.signatures[j].signer != v.signatures[i].signer);
        }
    }
    assert(signers.no_duplicates());
    assert forall|a: Address| signers.to_set().contains(a) implies v.required_signers.to_set()
        .contains(a) by {
        let i = choose|i: int| 0 <= i < signers.len() && signers[i] == a;
        assert(v.required_signers.contains(v.signatures[i].signer));
    }
    signers.unique_seq_to_set();
    vstd::set_lib::lemma_len_subset(signers.to_set(), v.required_signers.to_set());
    v.required_signers.lemma_cardinality_of_set();
}

/// Progress toward, never past, the threshold: in a well-formed state
/// no version of any document carries more signatures than its frozen
/// required-signer count — duplicate prevention and signer-keyed
/// authorization together keep the count bounded.
pub proof fn lemma_signature_count_bounded(st: StateView, dh: Seq<u8>)
    requires
        wf_state(st),
        has_doc(st, dh),
    ensures
        forall|k: int|
            0 <= k < doc_at(st, dh).versions.len() ==> (#[trigger] doc_at(
                st,
                dh,
            ).versions[k]).signatures.len() <= doc_at(st, dh).versions[k].required_signers.len(),
{
    let d = doc_at(st, dh);
    assert(wf_doc(d));
    assert forall|k: int| 0 <= k < d.versions.len() implies (#[trigger] d.versions[k]).signatures.len()
        <= d.versions[k].required_signers.len() by {
        lemma_version_count_bound(d.versions[k]);
    }
}

/// No double-signing: a signer who already signed the current version
/// is turned away with `AlreadyExists`; the state — the signature
/// count included — is untouched and nothing is emitted.
pub proof fn lemma_no_double_signing(st: StateView, now: u64, dh: Seq<u8>, sig: SignatureView)
    requires
        has_doc(st, dh),
        doc_at(st, dh).authorized_signers.contains(sig.signer),
        has_signed(current_version_of(doc_at(st, dh)), sig.signer),
    ensures
        sign_document_result(st, dh, sig) == Err::<(), NotaryError>(NotaryError::AlreadyExists),
        sign_document_state(st, now, dh, sig) == st,
        sign_document_events(st, dh, sig) == Seq::<EventView>::empty(),
{
}

/// Claim-expiry boundary: issued by a registered authority, a claim
/// whose `expires_at` equals the current time is rejected as expired
/// (and nothing changes), while one expiring a single tick later is
/// accepted.
pub proof fn lemma_claim_expiry_boundary(
    st: StateView,
    caller: Address,
    now: u64,
    user: Address,
    expiring_now: ClaimView,
    expiring_later: ClaimView,
)
    requires
        is_authority(st, caller),
        expiring_now.expires_at == now,
        expiring_later.expires_at == now + 1,
    ensures
        add_claim_result(st, caller, now, expiring_now) == Err::<(), NotaryError>(
            NotaryError::ExpiredClaim,
        ),
        add_claim_state(st, caller, now, user, expiring_now) == st,
        add_claim_events(st, caller, now, user, expiring_now) == Seq::<EventView>::empty(),
        add_claim_result(st, caller, now, expiring_later) == Ok::<(), NotaryError>(()),
{
}

/// Authority gating: a caller who is not a registered authority always
/// fails with `InvalidAuthority`, however valid the claim, and neither
/// the state nor the event log moves.
pub proof fn lemma_authority_gating(
    st: StateView,
    caller: Address,
    now: u64,
    user: Address,
    claim: ClaimView,
)
    requires
        !is_authority(st, caller),
    ensures
        add_claim_result(st, caller, now, claim) == Err::<(), NotaryError>(
            NotaryError::InvalidAuthority,
        ),
        add_claim_state(st, caller, now, user, claim) == st,
        add_claim_events(st, caller, now, user, claim) == Seq::<EventView>::empty(),
{
}

/// Claim retention: a successfully issued claim is appended to the
/// subject's list as it was handed in; nothing is replaced or dropped,
/// so earlier claims — of the same type included — are all retained.
pub proof fn lemma_claims_append(
    st: StateView,
    caller: Address,
    now: u64,
    user: Address,
    claim: ClaimView,
)
    requires
        wf_state(st),
        add_claim_result(st, caller, now, claim) is Ok,
    ensures
        claims_of(add_claim_state(st, caller, now, user, claim), user) == claims_of(
            st,
            user,
        ).push(claim),
{
    let st1 = add_claim_state(st, caller, now, user, claim);
    lemma_add_claim_wf(st, caller, now, user, claim);
    if has_user_claims(st, user) {
        let k = user_claims_index(st, user);
        lemma_user_claims_index_unique(st, user, k);
        assert(st1.claims[k].user == user);
        lemma_user_claims_index_unique(st1, user, k);
    } else {
        let n = st.claims.len() as int;
        assert(st1.claims[n].user == user);
        lemma_user_claims_index_unique(st1, user, n);
        assert(claims_of(st1, user) =~= claims_of(st, user).push(claim));
    }
}

/// Idempotent authority registration: registering the same authority
/// twice succeeds both times, the registry afterwards holds exactly
/// one entry for it, and only the first call emits an event.
pub proof fn lemma_register_authority_idempotent(st: StateView, a: Address)
    requires
        wf_state(st),
        !is_authority(st, a),
    ensures
        register_authority_result(st, st.admin) == Ok::<(), NotaryError>(()),
        ({
            let st1 = register_authority_state(st, st.admin, a);
            &&& register_authority_result(st1, st1.admin) == Ok::<(), NotaryError>(())
            &&& register_authority_state(st1, st1.admin, a) == st1
            &&& is_authority(st1, a)
            &&& exists|i: int| 0 <= i < st1.authorities.len() && st1.authorities[i] == a
            &&& forall|i: int, j: int|
                0 <= i < st1.authorities.len() && 0 <= j < st1.authorities.len()
                    && st1.authorities[i] == a && st1.authorities[j] == a ==> i == j
            &&& register_authority_events(st, st.admin, a) == seq![EventView::AuthorityAdded(a)]
            &&& register_authority_events(st1, st1.admin, a) == Seq::<EventView>::empty()
        }),
{
    let st1 = register_authority_state(st, st.admin, a);
    let n = st.authorities.len() as int;
    assert(st1.authorities[n] == a);
    assert(st1.authorities.contains(a));
    assert forall|i: int, j: int|
        0 <= i < st1.authorities.len() && 0 <= j < st1.authorities.len() && st1.authorities[i] == a
            && st1.authorities[j] == a implies i == j by {
        if i < n {
            assert(st.authorities[i] == a);
            assert(st.authorities.contains(a));
        }
        if j < n {
            assert(st.authorities[j] == a);
            assert(st.authorities.contains(a));
        }
    }
}

} // verus!
