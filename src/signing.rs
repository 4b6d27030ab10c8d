//! Threshold signing: nonce generation, signature-share creation and combination.
use crate::collab::{
    combined_of, final_nonce_of, gen_nonce, group_key_point, hex_decode, hex_decoded, hex_encode,
    hex_of, index_scalar, key_decodable, key_length_nonzero, key_threshold, pairs_view,
    party_index_scalar, public_nonce_of, seed_nonce_rng, session_final_nonce, share_decodes,
    share_index, share_index_scalar, share_key_point, share_public_key, shared_key_public_key,
    shared_key_threshold, sign_share, signature_share_of, verify_and_combine,
};
use crate::keygen::KEYGEN_SESSION;
use crate::store::{NonceData, Phase, SessionStore, StoreKey, StoreValue};
use vstd::prelude::*;

verus! {

/// The domain tag under which messages are signed.
pub const MESSAGE_TAG: &'static str = "frosty-taipei";

/// A signer's public nonce, the relay payload of nonce generation.
#[derive(Debug, Clone)]
pub struct NonceOutput {
    pub party_index: u32,
    pub session: String,
    /// Hex of the encoded public nonce.
    pub nonce: String,
    pub event_type: String,
}

/// Public nonces re-keyed by signer, with the group key.
#[derive(Debug)]
pub struct NonceInput {
    pub nonces: Vec<NonceData>,
    pub public_key: String,
}

/// A signer's signature share, the relay payload of share creation.
#[derive(Debug, Clone)]
pub struct SignatureShareOutput {
    pub party_index: u32,
    pub session: String,
    pub message: String,
    /// Hex of the encoded signature share.
    pub signature_share: String,
    pub event_type: String,
}

/// Signature shares re-keyed by signer, with the group key and final nonce.
#[derive(Debug)]
pub struct SignatureShareInput {
    pub shares: Vec<SignatureShareData>,
    pub public_key: String,
    pub final_nonce: String,
}

#[derive(Debug)]
pub struct SignatureShareData {
    pub index: u32,
    pub share: String,
}

/// The result of combination: the signature and the group public key in hex, and the message.
#[derive(Debug)]
pub struct CombinedSignature {
    pub signature: String,
    pub public_key: String,
    pub message: String,
}

#[derive(Debug, Clone, Copy, PartialEq, Eq, Structural)]
pub enum SigningError {
    /// An earlier phase has not been run.
    Missing(Phase),
    /// What the store holds for an earlier phase is not what that phase writes.
    CorruptState(Phase),
    /// A message names party zero.
    ZeroParty,
    /// Two messages come from the same party.
    DuplicateParty(u32),
    /// The session's private nonce has already signed a message.
    NonceReused,
    /// This party is not among the signers whose nonces were given.
    NotASigner(u32),
    /// Fewer nonces than the key's threshold.
    NotEnoughNonces { needed: usize, got: usize },
    /// The secret share does not belong to the group key.
    KeyMismatch,
    /// A party's public nonce does not decode.
    UndecodableNonce(u32),
    /// No signature shares were given.
    NoShares,
    /// A signature share does not decode.
    UndecodableShare(u32),
    /// A signature share did not verify, or too few were given: no signature was produced.
    InvalidShares,
    /// The collaborator could not produce or encode a value.
    Crypto,
}

/// Signer indices: none is zero, no two alike.
pub open spec fn signers_valid(idx: Seq<u32>) -> bool {
    &&& forall|k: int| 0 <= k < idx.len() ==> #[trigger] idx[k] != 0
    &&& forall|i: int, j: int| 0 <= i < j < idx.len() ==> idx[i] != idx[j]
}

pub open spec fn nonce_senders(msgs: Seq<NonceOutput>) -> Seq<u32> {
    msgs.map_values(|m: NonceOutput| m.party_index)
}

pub open spec fn share_senders(msgs: Seq<SignatureShareOutput>) -> Seq<u32> {
    msgs.map_values(|m: SignatureShareOutput| m.party_index)
}

pub open spec fn final_share_key() -> StoreKey {
    (KEYGEN_SESSION@, Phase::FinalShare)
}

pub open spec fn shared_key_key() -> StoreKey {
    (KEYGEN_SESSION@, Phase::SharedKey)
}

/// What nonce generation leaves in the store: a private nonce under the session, in place of
/// any earlier one.
pub open spec fn nonce_effect(
    before: Map<StoreKey, StoreValue>,
    after: Map<StoreKey, StoreValue>,
    session: Seq<char>,
) -> bool {
    let k = (session, Phase::SecretNonce);
    &&& after == before.insert(k, after[k])
    &&& after[k] is Blob
}

/// The public nonce list kept for a session: the relayed nonces, re-keyed by signer.
pub open spec fn nonce_list_of(msgs: Seq<NonceOutput>, kept: Seq<NonceData>) -> bool {
    &&& kept.len() == msgs.len()
    &&& forall|k: int|
        0 <= k < kept.len() ==> (#[trigger] kept[k]).index == msgs[k].party_index && kept[k].nonce
            == msgs[k].nonce
}

/// What share creation leaves in the store: the session's aggregated nonce and its nonce list,
/// and the private nonce marked as spent.
pub open spec fn sign_effect(
    before: Map<StoreKey, StoreValue>,
    after: Map<StoreKey, StoreValue>,
    session: Seq<char>,
    msgs: Seq<NonceOutput>,
) -> bool {
    let kf = (session, Phase::FinalNonce);
    let kn = (session, Phase::SessionNonces);
    let ks = (session, Phase::SecretNonce);
    &&& after == before.insert(kf, after[kf]).insert(kn, after[kn]).insert(ks, StoreValue::Spent)
    &&& after[kf] is Blob
    &&& after[kn] matches StoreValue::Nonces(v) && nonce_list_of(msgs, v@)
}

/// Re-running nonce generation for a session leaves only the later private nonce stored
/// under it: the earlier one is overwritten, not kept beside it.
pub proof fn lemma_nonce_regeneration_overwrites(
    s0: Map<StoreKey, StoreValue>,
    s1: Map<StoreKey, StoreValue>,
    s2: Map<StoreKey, StoreValue>,
    session: Seq<char>,
)
    requires
        nonce_effect(s0, s1, session),
        nonce_effect(s1, s2, session),
    ensures
        s2 == s0.insert((session, Phase::SecretNonce), s2[(session, Phase::SecretNonce)]),
        s2.contains_key((session, Phase::SecretNonce)),
        s2[(session, Phase::SecretNonce)] is Blob,
{
    let k = (session, Phase::SecretNonce);
    assert(s2 =~= s0.insert(k, s2[k]));
}

/// Once a share is created for a session, its private nonce is spent: share creation for that
/// session is refused until nonce generation runs again.
pub proof fn lemma_nonce_signs_once(
    s0: Map<StoreKey, StoreValue>,
    s1: Map<StoreKey, StoreValue>,
    session: Seq<char>,
    msgs: Seq<NonceOutput>,
)
    requires
        sign_effect(s0, s1, session, msgs),
    ensures
        s1.contains_key((session, Phase::SecretNonce)),
        s1[(session, Phase::SecretNonce)] == StoreValue::Spent,
{
}

/// Checks that no signer index is zero and none repeats.
pub fn check_signers(indices: &Vec<u32>) -> (r: Result<(), SigningError>)
    ensures
        r is Ok <==> signers_valid(indices@),
        r is Err ==> r == Err::<(), SigningError>(SigningError::ZeroParty) || r is Err
            && r->Err_0 is DuplicateParty,
        r == Err::<(), SigningError>(SigningError::ZeroParty) ==> exists|k: int|
            0 <= k < indices@.len() && indices@[k] == 0,
        r matches Err(SigningError::DuplicateParty(v)) ==> exists|i: int, j: int|
            0 <= i < j < indices@.len() && indices@[i] == v && indices@[j] == v,
{
    let len = indices.len();
    let mut k: usize = 0;
    while k < len
        invariant
            len == indices@.len(),
            k <= len,
            forall|q: int| 0 <= q < k ==> #[trigger] indices@[q] != 0,
            forall|i: int, j: int| 0 <= i < j < k ==> indices@[i] != indices@[j],
        decreases len - k,
    {
        let v = indices[k];
        if v == 0 {
            return Err(SigningError::ZeroParty);
        }
        let mut j: usize = 0;
        while j < k
            invariant
                k < len,
                len == indices@.len(),
                j <= k,
                v == indices@[k as int],
                forall|i: int| 0 <= i < j ==> indices@[i] != v,
            decreases k - j,
        {
            if indices[j] == v {
                return Err(SigningError::DuplicateParty(v));
            }
            j = j + 1;
        }
        k = k + 1;
    }
    Ok(())
}

fn bytes_equal(a: &Vec<u8>, b: &Vec<u8>) -> (r: bool)
    ensures
        r == (a@ == b@),
{
    if a.len() != b.len() {
        return false;
    }
    let mut k: usize = 0;
    while k < a.len()
        invariant
            a@.len() == b@.len(),
            k <= a@.len(),
            forall|q: int| 0 <= q < k ==> a@[q] == b@[q],
        decreases a.len() - k,
    {
        if a[k] != b[k] {
            return false;
        }
        k = k + 1;
    }
    proof {
        assert(a@ =~= b@);
    }
    true
}

/// Whether `v` occurs in `indices`.
fn contains_index(indices: &Vec<u32>, v: u32) -> (r: bool)
    ensures
        r == exists|k: int| 0 <= k < indices@.len() && indices@[k] == v,
{
    let mut k: usize = 0;
    while k < indices.len()
        invariant
            k <= indices@.len(),
            forall|q: int| 0 <= q < k ==> indices@[q] != v,
        decreases indices.len() - k,
    {
        if indices[k] == v {
            return true;
        }
        k = k + 1;
    }
    false
}

/// Reads this party's finalized secret share with its party index.
fn load_final_share(store: &SessionStore) -> (r: Result<(u32, &Vec<u8>), SigningError>)
    ensures
        !store@.contains_key(final_share_key()) ==> r == Err::<(u32, &Vec<u8>), SigningError>(
            SigningError::Missing(Phase::FinalShare),
        ),
        r matches Ok((i, s)) ==> store@.contains_key(final_share_key()) && store@[final_share_key()]
            == (StoreValue::Share { party_index: i, secret: *s }),
        store@.contains_key(final_share_key()) && store@[final_share_key()] is Share ==> r is Ok,
{
    match store.get(KEYGEN_SESSION, Phase::FinalShare) {
        Ok(StoreValue::Share { party_index, secret }) => Ok((*party_index, secret)),
        Ok(_) => Err(SigningError::CorruptState(Phase::FinalShare)),
        Err(_) => Err(SigningError::Missing(Phase::FinalShare)),
    }
}

/// Reads the group's shared key.
fn load_shared_key(store: &SessionStore) -> (r: Result<&Vec<u8>, SigningError>)
    ensures
        !store@.contains_key(shared_key_key()) ==> r == Err::<&Vec<u8>, SigningError>(
            SigningError::Missing(Phase::SharedKey),
        ),
        store@.contains_key(shared_key_key()) && store@[shared_key_key()] is Blob ==> r is Ok,
        r matches Ok(k) ==> store@.contains_key(shared_key_key()) && store@[shared_key_key()]
            == StoreValue::Blob(*k),
{
    match store.get(KEYGEN_SESSION, Phase::SharedKey) {
        Ok(StoreValue::Blob(key)) => Ok(key),
        Ok(_) => Err(SigningError::CorruptState(Phase::SharedKey)),
        Err(_) => Err(SigningError::Missing(Phase::SharedKey)),
    }
}

/// Nonce generation: derives a fresh nonce pair for the session from the finalized share,
/// keeps the private half under the session and returns the public half for the relay.
pub fn generate_nonce(store: &mut SessionStore, session: &str) -> (r: Result<NonceOutput, SigningError>)
    ensures
        !old(store)@.contains_key(final_share_key()) ==> r == Err::<NonceOutput, SigningError>(
            SigningError::Missing(Phase::FinalShare),
        ),
        old(store)@.contains_key(final_share_key()) && old(store)@[final_share_key()] is Share
            && share_decodes(old(store)@[final_share_key()]->secret@) ==> r is Ok,
        r is Err ==> final(store)@ == old(store)@,
        r is Ok ==> nonce_effect(old(store)@, final(store)@, session@),
        r matches Ok(out) ==> old(store)@[final_share_key()] is Share && out.party_index == old(
            store,
        )@[final_share_key()]->party_index && out.session@ == session@ && out.event_type@
            == "signing_nonce"@,
        r matches Ok(out) ==> final(store)@[(session@, Phase::SecretNonce)] matches StoreValue::Blob(b)
            && out.nonce@ == hex_of(public_nonce_of(b@)),
{
    let (party_index, secret) = load_final_share(store)?;
    let mut rng = match seed_nonce_rng(secret, session) {
        Some(rng) => rng,
        None => return Err(SigningError::CorruptState(Phase::FinalShare)),
    };
    let (private_nonce, public_nonce) = match gen_nonce(&mut rng) {
        Some(pair) => pair,
        None => return Err(SigningError::Crypto),
    };
    let nonce = hex_encode(&public_nonce);
    store.put(session, Phase::SecretNonce, StoreValue::Blob(private_nonce));
    Ok(NonceOutput {
        party_index,
        session: String::from_str(session),
        nonce,
        event_type: String::from_str("signing_nonce"),
    })
}

/// The signers of the given nonce messages, in order.
pub fn nonce_signers(msgs: &Vec<NonceOutput>) -> (r: Vec<u32>)
    ensures
        r@ == nonce_senders(msgs@),
{
    let mut r: Vec<u32> = Vec::new();
    let mut k: usize = 0;
    while k < msgs.len()
        invariant
            k <= msgs@.len(),
            r@ == nonce_senders(msgs@.take(k as int)),
        decreases msgs.len() - k,
    {
        r.push(msgs[k].party_index);
        k = k + 1;
        proof {
            assert(nonce_senders(msgs@.take(k as int)) =~= nonce_senders(msgs@.take(k - 1)).push(
                msgs@[k - 1].party_index,
            ));
        }
    }
    proof {
        assert(msgs@.take(msgs@.len() as int) =~= msgs@);
    }
    r
}

/// The signers of the given signature-share messages, in order.
pub fn share_signers(msgs: &Vec<SignatureShareOutput>) -> (r: Vec<u32>)
    ensures
        r@ == share_senders(msgs@),
{
    let mut r: Vec<u32> = Vec::new();
    let mut k: usize = 0;
    while k < msgs.len()
        invariant
            k <= msgs@.len(),
            r@ == share_senders(msgs@.take(k as int)),
        decreases msgs.len() - k,
    {
        r.push(msgs[k].party_index);
        k = k + 1;
        proof {
            assert(share_senders(msgs@.take(k as int)) =~= share_senders(msgs@.take(k - 1)).push(
                msgs@[k - 1].party_index,
            ));
        }
    }
    proof {
        assert(msgs@.take(msgs@.len() as int) =~= msgs@);
    }
    r
}

/// The relayed nonces re-keyed by signer, as kept for the session.
pub fn nonce_list(msgs: &Vec<NonceOutput>) -> (r: Vec<NonceData>)
    ensures
        nonce_list_of(msgs@, r@),
{
    let mut r: Vec<NonceData> = Vec::new();
    let mut k: usize = 0;
    while k < msgs.len()
        invariant
            k <= msgs@.len(),
            r@.len() == k,
            forall|q: int|
                0 <= q < k ==> (#[trigger] r@[q]).index == msgs@[q].party_index && r@[q].nonce
                    == msgs@[q].nonce,
        decreases msgs.len() - k,
    {
        r.push(NonceData { index: msgs[k].party_index, nonce: msgs[k].nonce.clone() });
        k = k + 1;
    }
    r
}

/// The indices of a nonce list, in order.
fn list_indices(list: &Vec<NonceData>) -> (r: Vec<u32>)
    ensures
        r@.len() == list@.len(),
        forall|k: int| 0 <= k < r@.len() ==> #[trigger] r@[k] == list@[k].index,
{
    let mut r: Vec<u32> = Vec::new();
    let mut k: usize = 0;
    while k < list.len()
        invariant
            k <= list@.len(),
            r@.len() == k,
            forall|q: int| 0 <= q < k ==> #[trigger] r@[q] == list@[q].index,
        decreases list.len() - k,
    {
        r.push(list[k].index);
        k = k + 1;
    }
    r
}

/// Every relayed nonce is hex.
pub open spec fn nonces_decode(msgs: Seq<NonceOutput>) -> bool {
    forall|k: int| 0 <= k < msgs.len() ==> hex_decoded((#[trigger] msgs[k]).nonce@) is Some
}

/// The relayed nonces as signer index and decoded bytes.
pub open spec fn nonce_pairs(msgs: Seq<NonceOutput>) -> Seq<(u32, Seq<u8>)> {
    msgs.map_values(|m: NonceOutput| (m.party_index, hex_decoded(m.nonce@)->Some_0))
}

/// Every nonce of a kept list is hex.
pub open spec fn list_decodes(list: Seq<NonceData>) -> bool {
    forall|k: int| 0 <= k < list.len() ==> hex_decoded((#[trigger] list[k]).nonce@) is Some
}

/// A kept nonce list as signer index and decoded bytes.
pub open spec fn list_pairs(list: Seq<NonceData>) -> Seq<(u32, Seq<u8>)> {
    list.map_values(|d: NonceData| (d.index, hex_decoded(d.nonce@)->Some_0))
}

/// Every relayed signature share is hex.
pub open spec fn shares_decode(msgs: Seq<SignatureShareOutput>) -> bool {
    forall|k: int| 0 <= k < msgs.len() ==> hex_decoded((#[trigger] msgs[k]).signature_share@) is Some
}

/// The relayed signature shares as signer index and decoded bytes.
pub open spec fn share_pairs(msgs: Seq<SignatureShareOutput>) -> Seq<(u32, Seq<u8>)> {
    msgs.map_values(|m: SignatureShareOutput| (m.party_index, hex_decoded(m.signature_share@)->Some_0))
}

/// Decodes a nonce list into signer indices with encoded public nonces.
fn decode_nonces(list: &Vec<NonceData>) -> (r: Result<Vec<(u32, Vec<u8>)>, SigningError>)
    ensures
        r is Ok <==> list_decodes(list@),
        r matches Ok(v) ==> pairs_view(v@) == list_pairs(list@),
        r matches Err(e) ==> e is UndecodableNonce,
{
    let mut r: Vec<(u32, Vec<u8>)> = Vec::new();
    let mut k: usize = 0;
    while k < list.len()
        invariant
            k <= list@.len(),
            pairs_view(r@) == list_pairs(list@).take(k as int),
            forall|q: int| 0 <= q < k ==> hex_decoded((#[trigger] list@[q]).nonce@) is Some,
        decreases list.len() - k,
    {
        match hex_decode(list[k].nonce.as_str()) {
            Some(b) => {
                let ghost before = pairs_view(r@);
                r.push((list[k].index, b));
                proof {
                    assert(pairs_view(r@) =~= before.push((list@[k as int].index, b@)));
                    assert(list_pairs(list@).take(k + 1) =~= list_pairs(list@).take(k as int).push(
                        (list@[k as int].index, b@),
                    ));
                }
            },
            None => return Err(SigningError::UndecodableNonce(list[k].index)),
        }
        k = k + 1;
    }
    proof {
        assert(list_pairs(list@).take(list@.len() as int) =~= list_pairs(list@));
    }
    Ok(r)
}

/// Decodes the relayed signature shares into signer indices with encoded shares.
fn decode_shares(msgs: &Vec<SignatureShareOutput>) -> (r: Result<Vec<(u32, Vec<u8>)>, SigningError>)
    ensures
        r is Ok <==> shares_decode(msgs@),
        r matches Ok(v) ==> pairs_view(v@) == share_pairs(msgs@),
        r matches Err(e) ==> e is UndecodableShare,
{
    let mut r: Vec<(u32, Vec<u8>)> = Vec::new();
    let mut k: usize = 0;
    while k < msgs.len()
        invariant
            k <= msgs@.len(),
            pairs_view(r@) == share_pairs(msgs@).take(k as int),
            forall|q: int| 0 <= q < k ==> hex_decoded((#[trigger] msgs@[q]).signature_share@) is Some,
        decreases msgs.len() - k,
    {
        match hex_decode(msgs[k].signature_share.as_str()) {
            Some(b) => {
                let ghost before = pairs_view(r@);
                r.push((msgs[k].party_index, b));
                proof {
                    assert(pairs_view(r@) =~= before.push((msgs@[k as int].party_index, b@)));
                    assert(share_pairs(msgs@).take(k + 1) =~= share_pairs(msgs@).take(k as int).push(
                        (msgs@[k as int].party_index, b@),
                    ));
                }
            },
            None => return Err(SigningError::UndecodableShare(msgs[k].party_index)),
        }
        k = k + 1;
    }
    proof {
        assert(share_pairs(msgs@).take(msgs@.len() as int) =~= share_pairs(msgs@));
    }
    Ok(r)
}

/// Checks that the key decodes and that `count` nonces reach its threshold.
fn check_threshold(key: &Vec<u8>, count: usize) -> (r: Result<(), SigningError>)
    ensures
        r is Ok <==> key_decodable(key@) && group_key_point(key@) is Some && count >= key_threshold(
            key@,
        ),
{
    if !key_length_nonzero(key) {
        return Err(SigningError::CorruptState(Phase::SharedKey));
    }
    match shared_key_threshold(key) {
        Some(t) => if count < t {
            Err(SigningError::NotEnoughNonces { needed: t, got: count })
        } else {
            Ok(())
        },
        None => Err(SigningError::CorruptState(Phase::SharedKey)),
    }
}

/// What share creation reads from the store is there, and the relayed nonces name distinct
/// signers, this party among them.
pub open spec fn sign_inputs_present(
    s: Map<StoreKey, StoreValue>,
    session: Seq<char>,
    nonces: Seq<NonceOutput>,
) -> bool {
    let kn = (session, Phase::SecretNonce);
    &&& s.contains_key(kn) && s[kn] is Blob
    &&& s.contains_key(final_share_key()) && s[final_share_key()] is Share
    &&& s.contains_key(shared_key_key()) && s[shared_key_key()] is Blob
    &&& signers_valid(nonce_senders(nonces))
    &&& nonce_senders(nonces).contains(s[final_share_key()]->party_index)
}

/// As `sign_inputs_present`, and every relayed nonce is hex.
pub open spec fn sign_ready(
    s: Map<StoreKey, StoreValue>,
    session: Seq<char>,
    nonces: Seq<NonceOutput>,
) -> bool {
    sign_inputs_present(s, session, nonces) && nonces_decode(nonces)
}

/// What the collaborator decides in share creation: the key decodes and is met by enough
/// nonces, the share belongs to it under this party's index, and the session yields a share
/// and a final nonce.
pub open spec fn sign_accepted(
    s: Map<StoreKey, StoreValue>,
    session: Seq<char>,
    message: Seq<char>,
    nonces: Seq<NonceOutput>,
) -> bool {
    let key = s[shared_key_key()]->Blob_0@;
    let secret = s[final_share_key()]->secret@;
    let pairs = nonce_pairs(nonces);
    &&& key_decodable(key) && group_key_point(key) is Some && nonces.len() >= key_threshold(key)
    &&& share_decodes(secret) && group_key_point(key) == Some(share_key_point(secret))
    &&& index_scalar(s[final_share_key()]->party_index) == share_index_scalar(secret)
    &&& signature_share_of(key, secret, s[(session, Phase::SecretNonce)]->Blob_0@, pairs, MESSAGE_TAG@, message) is Some
    &&& final_nonce_of(key, pairs, MESSAGE_TAG@, message) is Some
}

/// Share creation: over the relayed public nonces of the signers taking part, builds the
/// signing session for the message, signs with the session's private nonce and the finalized
/// share, keeps the session's aggregated nonce and nonce list, and returns the share.
pub fn create_signature_share(
    store: &mut SessionStore,
    session: &str,
    message: &str,
    nonces: &Vec<NonceOutput>,
) -> (r: Result<SignatureShareOutput, SigningError>)
    ensures
        !old(store)@.contains_key((session@, Phase::SecretNonce)) ==> r == Err::<
            SignatureShareOutput,
            SigningError,
        >(SigningError::Missing(Phase::SecretNonce)),
        old(store)@.contains_key((session@, Phase::SecretNonce)) && old(store)@[(
            session@,
            Phase::SecretNonce,
        )] == StoreValue::Spent ==> r == Err::<SignatureShareOutput, SigningError>(
            SigningError::NonceReused,
        ),
        r is Err ==> final(store)@ == old(store)@,
        ({
            let s = old(store)@;
            let kn = (session@, Phase::SecretNonce);
            s.contains_key(kn) && s[kn] is Blob && s.contains_key(final_share_key())
                && s[final_share_key()] is Share && s.contains_key(shared_key_key())
                && s[shared_key_key()] is Blob && signers_valid(nonce_senders(nonces@))
                && !nonce_senders(nonces@).contains(s[final_share_key()]->party_index) ==> r
                == Err::<SignatureShareOutput, SigningError>(
                SigningError::NotASigner(s[final_share_key()]->party_index),
            )
        }),
        sign_inputs_present(old(store)@, session@, nonces@) && !nonces_decode(nonces@) ==> r is Err
            && r->Err_0 is UndecodableNonce,
        sign_ready(old(store)@, session@, nonces@) ==> (r is Ok <==> sign_accepted(
            old(store)@,
            session@,
            message@,
            nonces@,
        )),
        r is Ok ==> sign_ready(old(store)@, session@, nonces@) && sign_effect(
            old(store)@,
            final(store)@,
            session@,
            nonces@,
        ),
        r matches Ok(out) ==> old(store)@[final_share_key()] is Share && out.party_index == old(
            store,
        )@[final_share_key()]->party_index && out.session@ == session@ && out.message@ == message@
            && out.event_type@ == "signing_share"@,
        r matches Ok(out) ==> {
            let s = old(store)@;
            let key = s[shared_key_key()]->Blob_0@;
            let pairs = nonce_pairs(nonces@);
            &&& out.signature_share@ == hex_of(
                signature_share_of(
                    key,
                    s[final_share_key()]->secret@,
                    s[(session@, Phase::SecretNonce)]->Blob_0@,
                    pairs,
                    MESSAGE_TAG@,
                    message@,
                )->Some_0,
            )
            &&& final(store)@[(session@, Phase::FinalNonce)] == StoreValue::Blob(
                final(store)@[(session@, Phase::FinalNonce)]->Blob_0,
            )
            &&& final(store)@[(session@, Phase::FinalNonce)]->Blob_0@ == final_nonce_of(
                key,
                pairs,
                MESSAGE_TAG@,
                message@,
            )->Some_0
        },
{
    let private_nonce = match store.get(session, Phase::SecretNonce) {
        Ok(StoreValue::Blob(n)) => n,
        Ok(StoreValue::Spent) => return Err(SigningError::NonceReused),
        Ok(_) => return Err(SigningError::CorruptState(Phase::SecretNonce)),
        Err(_) => return Err(SigningError::Missing(Phase::SecretNonce)),
    };
    let (party_index, secret) = load_final_share(store)?;
    let key = load_shared_key(store)?;
    let parties = nonce_signers(nonces);
    check_signers(&parties)?;
    if !contains_index(&parties, party_index) {
        return Err(SigningError::NotASigner(party_index));
    }
    let list = nonce_list(nonces);
    let pairs = decode_nonces(&list)?;
    proof {
        assert(list_pairs(list@) =~= nonce_pairs(nonces@));
        assert forall|k: int| 0 <= k < list@.len() implies (#[trigger] list@[k]).nonce
            == nonces@[k].nonce by {}
        if nonces_decode(nonces@) {
            assert forall|k: int| 0 <= k < list@.len() implies hex_decoded(
                (#[trigger] list@[k]).nonce@,
            ) is Some by {
                assert(list@[k].nonce == nonces@[k].nonce);
            }
        }
        if list_decodes(list@) {
            assert forall|k: int| 0 <= k < nonces@.len() implies hex_decoded(
                (#[trigger] nonces@[k]).nonce@,
            ) is Some by {
                assert(list@[k].nonce == nonces@[k].nonce);
            }
        }
    }
    check_threshold(key, pairs.len())?;
    let (share_point, group_point) = match (share_public_key(secret), shared_key_public_key(key)) {
        (Some(a), Some(b)) => (a, b),
        _ => return Err(SigningError::CorruptState(Phase::FinalShare)),
    };
    if !bytes_equal(&share_point, &group_point) {
        return Err(SigningError::KeyMismatch);
    }
    let (own, expected) = match (share_index(secret), party_index_scalar(party_index)) {
        (Some(a), Some(b)) => (a, b),
        _ => return Err(SigningError::CorruptState(Phase::FinalShare)),
    };
    if !bytes_equal(&own, &expected) {
        return Err(SigningError::CorruptState(Phase::FinalShare));
    }
    proof {
        let k = choose|k: int| 0 <= k < parties@.len() && parties@[k] == party_index;
        assert(pairs_view(pairs@)[k].0 == pairs@[k].0);
        assert(pairs@[k].0 == parties@[k]);
        assert(index_scalar(pairs@[k].0) == share_index_scalar(secret@));
        assert forall|i: int, j: int| 0 <= i < j < pairs@.len() implies pairs@[i].0 != pairs@[j].0 by {
            assert(pairs_view(pairs@)[i].0 == pairs@[i].0);
            assert(pairs_view(pairs@)[j].0 == pairs@[j].0);
            assert(pairs@[i].0 == parties@[i]);
            assert(pairs@[j].0 == parties@[j]);
        }
    }
    let share = match sign_share(key, secret, private_nonce, &pairs, MESSAGE_TAG, message) {
        Some(s) => s,
        None => return Err(SigningError::InvalidShares),
    };
    let final_nonce = match session_final_nonce(key, &pairs, MESSAGE_TAG, message) {
        Some(n) => n,
        None => return Err(SigningError::Crypto),
    };
    let signature_share = hex_encode(&share);
    store.put(session, Phase::FinalNonce, StoreValue::Blob(final_nonce));
    store.put(session, Phase::SessionNonces, StoreValue::Nonces(list));
    store.put(session, Phase::SecretNonce, StoreValue::Spent);
    Ok(SignatureShareOutput {
        party_index,
        session: String::from_str(session),
        message: String::from_str(message),
        signature_share,
        event_type: String::from_str("signing_share"),
    })
}

/// What combination reads from the store is there for the first share's session, the kept
/// nonce list names distinct signers with hex nonces, and the shares come from distinct signers.
pub open spec fn combine_inputs_present(s: Map<StoreKey, StoreValue>, shares: Seq<SignatureShareOutput>) -> bool {
    let session = shares[0].session@;
    let kn = (session, Phase::SessionNonces);
    &&& shares.len() > 0
    &&& s.contains_key(shared_key_key()) && s[shared_key_key()] is Blob
    &&& s.contains_key((session, Phase::FinalNonce))
    &&& s.contains_key(kn) && s[kn] is Nonces
    &&& signers_valid(s[kn]->Nonces_0@.map_values(|d: NonceData| d.index))
    &&& list_decodes(s[kn]->Nonces_0@)
    &&& signers_valid(share_senders(shares))
}

/// As `combine_inputs_present`, and every relayed share is hex.
pub open spec fn combine_ready(s: Map<StoreKey, StoreValue>, shares: Seq<SignatureShareOutput>) -> bool {
    combine_inputs_present(s, shares) && shares_decode(shares)
}

/// The signature that the collaborator combines for the first share's session and message.
pub open spec fn combine_result(s: Map<StoreKey, StoreValue>, shares: Seq<SignatureShareOutput>) -> Option<Seq<u8>> {
    let key = s[shared_key_key()]->Blob_0@;
    let list = s[(shares[0].session@, Phase::SessionNonces)]->Nonces_0@;
    if key_decodable(key) && group_key_point(key) is Some && list.len() >= key_threshold(key) {
        combined_of(key, list_pairs(list), MESSAGE_TAG@, shares[0].message@, share_pairs(shares))
    } else {
        None
    }
}

/// Combination: over the session and message of the first share, rebuilds the signing session
/// from the kept nonce list, verifies every share and combines them into the signature.
/// The store is only read.
pub fn combine_signatures(store: &SessionStore, shares: &Vec<SignatureShareOutput>) -> (r: Result<
    CombinedSignature,
    SigningError,
>)
    ensures
        shares@.len() == 0 ==> r == Err::<CombinedSignature, SigningError>(SigningError::NoShares),
        shares@.len() > 0 && !store@.contains_key(shared_key_key()) ==> r == Err::<
            CombinedSignature,
            SigningError,
        >(SigningError::Missing(Phase::SharedKey)),
        shares@.len() > 0 && store@.contains_key(shared_key_key()) && store@[shared_key_key()] is Blob
            && !store@.contains_key((shares@[0].session@, Phase::FinalNonce)) ==> r == Err::<
            CombinedSignature,
            SigningError,
        >(SigningError::Missing(Phase::FinalNonce)),
        shares@.len() > 0 && store@.contains_key(shared_key_key()) && store@[shared_key_key()] is Blob
            && store@.contains_key((shares@[0].session@, Phase::FinalNonce))
            && !store@.contains_key((shares@[0].session@, Phase::SessionNonces)) ==> r == Err::<
            CombinedSignature,
            SigningError,
        >(SigningError::Missing(Phase::SessionNonces)),
        !signers_valid(share_senders(shares@)) ==> r is Err,
        combine_inputs_present(store@, shares@) && !shares_decode(shares@) ==> r is Err
            && r->Err_0 is UndecodableShare,
        combine_ready(store@, shares@) ==> (r is Ok <==> combine_result(store@, shares@) is Some),
        r matches Ok(out) ==> combine_ready(store@, shares@) && out.message@ == shares@[0].message@
            && out.signature@ == hex_of(combine_result(store@, shares@)->Some_0) && out.public_key@
            == hex_of(group_key_point(store@[shared_key_key()]->Blob_0@)->Some_0),
{
    if shares.len() == 0 {
        return Err(SigningError::NoShares);
    }
    let first = &shares[0];
    let key = load_shared_key(store)?;
    match store.get(first.session.as_str(), Phase::FinalNonce) {
        Ok(_) => {},
        Err(_) => return Err(SigningError::Missing(Phase::FinalNonce)),
    }
    let list = match store.get(first.session.as_str(), Phase::SessionNonces) {
        Ok(StoreValue::Nonces(v)) => v,
        Ok(_) => return Err(SigningError::CorruptState(Phase::SessionNonces)),
        Err(_) => return Err(SigningError::Missing(Phase::SessionNonces)),
    };
    let signers = share_signers(shares);
    check_signers(&signers)?;
    let kept = list_indices(list);
    proof {
        assert(kept@ =~= list@.map_values(|d: NonceData| d.index));
    }
    if check_signers(&kept).is_err() {
        return Err(SigningError::CorruptState(Phase::SessionNonces));
    }
    let pairs = decode_nonces(list)?;
    let share_pairs = decode_shares(shares)?;
    proof {
        assert(pairs_view(pairs@).len() == pairs@.len());
        assert(list_pairs(list@).len() == list@.len());
        assert forall|i: int, j: int| 0 <= i < j < pairs@.len() implies pairs@[i].0 != pairs@[j].0 by {
            assert(pairs_view(pairs@)[i].0 == pairs@[i].0);
            assert(pairs_view(pairs@)[j].0 == pairs@[j].0);
            assert(list_pairs(list@)[i].0 == list@[i].index);
            assert(list_pairs(list@)[j].0 == list@[j].index);
            assert(kept@[i] == list@[i].index);
            assert(kept@[j] == list@[j].index);
            assert(kept@[i] != kept@[j]);
        }
    }
    check_threshold(key, pairs.len())?;
    let signature = match verify_and_combine(key, &pairs, MESSAGE_TAG, first.message.as_str(), &share_pairs) {
        Some(sig) => sig,
        None => return Err(SigningError::InvalidShares),
    };
    let public_key = match shared_key_public_key(key) {
        Some(p) => p,
        None => return Err(SigningError::Crypto),
    };
    Ok(CombinedSignature {
        signature: hex_encode(&signature),
        public_key: hex_encode(&public_key),
        message: first.message.clone(),
    })
}

} // verus!
