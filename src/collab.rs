//! The cryptography collaborator: schnorr_fun's FROST with SimplePedPop key generation.
//!
//! Every value that crosses a phase is held as its bincode encoding; opaque objects live only
//! within one phase.
use rand_chacha::ChaCha20Rng;
use schnorr_fun::binonce::NonceKeyPair;
use schnorr_fun::frost::chilldkg::simplepedpop::{self, AggKeygenInput, Coordinator, Contributor};
use schnorr_fun::frost::{self, PairedSecretShare, ShareIndex, SharedKey};
use schnorr_fun::fun::marker::{EvenY, Secret, Zero};
use schnorr_fun::fun::Scalar;
use schnorr_fun::Message;
use sha2::Sha256;
use std::collections::BTreeSet;
use vstd::prelude::*;

verus! {

#[verifier::external_type_specification]
#[verifier::external_body]
pub struct ExCoordinator(Coordinator);

#[verifier::external_type_specification]
#[verifier::external_body]
pub struct ExChaCha20Rng(ChaCha20Rng);

/// Output of a keygen contribution, each part bincode-encoded.
pub struct Contribution {
    /// The private contributor state.
    pub contributor: Vec<u8>,
    /// The public commitment with its proof of possession.
    pub keygen_input: Vec<u8>,
    /// One secret share per receiver, in increasing receiver order.
    pub shares: Vec<Vec<u8>>,
}

/// Why a keygen input could not be added to the aggregate.
pub enum AddInputFault {
    Undecodable,
    Rejected,
}

/// The two-digit hex form of a byte string, lower case.
pub open spec fn hex_of(b: Seq<u8>) -> Seq<char>
    decreases b.len(),
{
    if b.len() == 0 {
        seq![]
    } else {
        let digits = seq!['0', '1', '2', '3', '4', '5', '6', '7', '8', '9', 'a', 'b', 'c', 'd', 'e', 'f'];
        hex_of(b.drop_last()) + seq![digits[(b.last() / 16) as int], digits[(b.last() % 16) as int]]
    }
}

/// A byte string that schnorr_fun's shared-key decoder reads without panicking. bincode gives
/// the coefficient list's length in the first eight bytes, and the decoder indexes the first
/// coefficient without checking that the list is non-empty.
pub open spec fn key_decodable(key: Seq<u8>) -> bool {
    key.len() < 8 || exists|k: int| 0 <= k < 8 && key[k] != 0
}

/// Tests `key_decodable`.
pub fn key_length_nonzero(key: &Vec<u8>) -> (r: bool)
    ensures
        r == key_decodable(key@),
{
    if key.len() < 8 {
        return true;
    }
    let mut k: usize = 0;
    while k < 8
        invariant
            key@.len() >= 8,
            k <= 8,
            forall|q: int| 0 <= q < k ==> key@[q] == 0,
        decreases 8 - k,
    {
        if key[k] != 0 {
            return true;
        }
        k = k + 1;
    }
    false
}

/// Each byte string of a list, as plain values.
pub open spec fn bytes_list(v: Seq<Vec<u8>>) -> Seq<Seq<u8>> {
    v.map_values(|x: Vec<u8>| x@)
}

/// Index and bytes of each pair, as plain values.
pub open spec fn pairs_view(v: Seq<(u32, Vec<u8>)>) -> Seq<(u32, Seq<u8>)> {
    v.map_values(|p: (u32, Vec<u8>)| (p.0, p.1@))
}

/// The encoded x-only public key that an encoded paired secret share carries.
pub uninterp spec fn share_key_point(share: Seq<u8>) -> Seq<u8>;

/// Whether bytes decode as an x-only paired secret share.
pub uninterp spec fn share_decodes(share: Seq<u8>) -> bool;

/// The encoded public key of an encoded shared key.
pub uninterp spec fn group_key_point(key: Seq<u8>) -> Option<Seq<u8>>;

/// The encoded share index of an encoded paired secret share.
pub uninterp spec fn share_index_scalar(share: Seq<u8>) -> Seq<u8>;

/// The encoded scalar that a party index stands for.
pub uninterp spec fn index_scalar(index: u32) -> Seq<u8>;

/// The threshold of an encoded shared key.
pub uninterp spec fn key_threshold(key: Seq<u8>) -> nat;

/// The keygen inputs a coordinator holds, by contributor slot, as the bytes they came in.
pub uninterp spec fn coordinator_inputs(c: Coordinator) -> Map<u32, Seq<u8>>;

/// The threshold and number of contributors a coordinator was made with.
pub uninterp spec fn coordinator_config(c: Coordinator) -> (u32, u32);

/// Whether a coordinator of the given threshold accepts an encoded keygen input in a free slot.
pub uninterp spec fn commitment_accepted(threshold: u32, input: Seq<u8>) -> bool;

/// The encoded aggregate of a full set of keygen inputs.
pub uninterp spec fn agg_of(threshold: u32, inputs: Map<u32, Seq<u8>>) -> Seq<u8>;

/// The encoded sum of the received secret inputs for the receiver at `index`.
pub uninterp spec fn collected_share(index: u32, inputs: Seq<Seq<u8>>) -> Option<Seq<u8>>;

/// The encoded x-only paired share that an aggregate validates a summed share into.
pub uninterp spec fn received_share(agg: Seq<u8>, share: Seq<u8>) -> Option<Seq<u8>>;

/// The encoded x-only shared key of an encoded aggregate.
pub uninterp spec fn agg_key(agg: Seq<u8>) -> Option<Seq<u8>>;

/// The encoded public half of an encoded nonce pair.
pub uninterp spec fn public_nonce_of(pair: Seq<u8>) -> Seq<u8>;

/// The encoded signature share over a signing session.
pub uninterp spec fn signature_share_of(
    key: Seq<u8>,
    share: Seq<u8>,
    nonce: Seq<u8>,
    nonces: Seq<(u32, Seq<u8>)>,
    tag: Seq<char>,
    message: Seq<char>,
) -> Option<Seq<u8>>;

/// The encoded final (aggregated, bound) nonce of a signing session.
pub uninterp spec fn final_nonce_of(
    key: Seq<u8>,
    nonces: Seq<(u32, Seq<u8>)>,
    tag: Seq<char>,
    message: Seq<char>,
) -> Option<Seq<u8>>;

/// The encoded signature combined from verified shares in a signing session.
pub uninterp spec fn combined_of(
    key: Seq<u8>,
    nonces: Seq<(u32, Seq<u8>)>,
    tag: Seq<char>,
    message: Seq<char>,
    shares: Seq<(u32, Seq<u8>)>,
) -> Option<Seq<u8>>;

/// Relies on `hex::encode`: two lower-case digits per byte, most significant first.
#[verifier::external_body]
pub(crate) fn hex_encode(b: &Vec<u8>) -> (r: String)
    ensures
        r@ == hex_of(b@),
{
    hex::encode(b)
}

/// What `hex::decode` gives for a text: `None` where it is not hex.
pub uninterp spec fn hex_decoded(s: Seq<char>) -> Option<Seq<u8>>;

/// Relies on `hex::decode`; the bytes depend on the text alone.
#[verifier::external_body]
pub(crate) fn hex_decode(s: &str) -> (r: Option<Vec<u8>>)
    ensures
        match r {
            Some(v) => hex_decoded(s@) == Some(v@),
            None => hex_decoded(s@) is None,
        },
{
    hex::decode(s).ok()
}

/// Relies on `Contributor::gen_keygen_input` (random polynomial from the thread's RNG), which
/// always returns; the shares come keyed by receiver index, which orders as the integers do.
/// bincode encodes these values without fail.
#[verifier::external_body]
pub(crate) fn gen_keygen_input(threshold: u32, receivers: &Vec<u32>, my_index: u32) -> (r: Option<
    Contribution,
>)
    requires
        threshold >= 1,
        forall|i: int, j: int| 0 <= i < j < receivers@.len() ==> receivers@[i] < receivers@[j],
    ensures
        (forall|k: int| 0 <= k < receivers@.len() ==> receivers@[k] != 0) ==> r is Some,
        r matches Some(c) ==> c.shares@.len() == receivers@.len(),
{
    let frost = frost::new_with_deterministic_nonces::<Sha256>();
    let set = receivers.iter().map(|i| Scalar::<Secret, Zero>::from(*i).public().non_zero());
    let set = set.collect::<Option<BTreeSet<_>>>()?;
    let mut rng = rand::thread_rng();
    let (c, input, shares) = Contributor::gen_keygen_input(&frost.schnorr, threshold, &set, my_index, &mut rng);
    let shares = shares.values().map(|s| bincode::serialize(s).ok()).collect::<Option<Vec<_>>>()?;
    let contributor = bincode::serialize(&c).ok()?;
    Some(Contribution { contributor, keygen_input: bincode::serialize(&input).ok()?, shares })
}

/// Relies on `Coordinator::new`, which asserts a threshold above zero and starts with no input.
#[verifier::external_body]
pub(crate) fn coordinator_new(threshold: u32, n_contributors: u32) -> (r: Coordinator)
    requires
        threshold >= 1,
    ensures
        coordinator_inputs(r).dom().len() == 0,
        coordinator_inputs(r).dom().finite(),
        coordinator_config(r) == (threshold, n_contributors),
{
    Coordinator::new(threshold, n_contributors)
}

/// Relies on `Coordinator::add_input`: it refuses a slot outside `0..n_contributors` or already
/// filled, and otherwise accepts exactly the inputs with the right threshold and a valid proof
/// of possession; a refused input leaves the coordinator as it was.
#[verifier::external_body]
pub(crate) fn coordinator_add_input(c: &mut Coordinator, from: u32, input: &Vec<u8>) -> (r: Result<
    (),
    AddInputFault,
>)
    ensures
        coordinator_config(*final(c)) == coordinator_config(*old(c)),
        r is Ok ==> coordinator_inputs(*final(c)) == coordinator_inputs(*old(c)).insert(from, input@),
        r is Ok ==> from < coordinator_config(*old(c)).1,
        r is Err ==> coordinator_inputs(*final(c)) == coordinator_inputs(*old(c)),
        from < coordinator_config(*old(c)).1 && !coordinator_inputs(*old(c)).contains_key(from) ==> (
        r is Ok <==> commitment_accepted(coordinator_config(*old(c)).0, input@)),
{
    let input: simplepedpop::KeygenInput = match bincode::deserialize(input) {
        Ok(v) => v,
        Err(_) => return Err(AddInputFault::Undecodable),
    };
    let frost = frost::new_with_deterministic_nonces::<Sha256>();
    c.add_input(&frost.schnorr, from, input).map_err(|_| AddInputFault::Rejected)
}

/// Relies on `Coordinator::finish`: an aggregate once every slot is filled (encoded without
/// fail), `None` before.
#[verifier::external_body]
pub(crate) fn coordinator_finish(c: Coordinator) -> (r: Option<Vec<u8>>)
    ensures
        (forall|s: u32| s < coordinator_config(c).1 ==> coordinator_inputs(c).contains_key(s)) ==> r is Some,
        r matches Some(v) ==> v@ == agg_of(coordinator_config(c).0, coordinator_inputs(c)),
{
    bincode::serialize(&c.finish()?).ok()
}

/// Relies on `simplepedpop::collect_secret_inputs`: sums the received keygen shares for the
/// receiver at `my_index`; `None` where an input does not decode.
#[verifier::external_body]
pub(crate) fn collect_secret_inputs(my_index: u32, inputs: &Vec<Vec<u8>>) -> (r: Option<Vec<u8>>)
    ensures
        match r {
            Some(v) => collected_share(my_index, bytes_list(inputs@)) == Some(v@),
            None => collected_share(my_index, bytes_list(inputs@)) is None,
        },
{
    let index = Scalar::<Secret, Zero>::from(my_index).public().non_zero()?;
    let inputs = inputs.iter().map(|b| bincode::deserialize::<Scalar<Secret, Zero>>(b).ok());
    let share = simplepedpop::collect_secret_inputs(index, inputs.collect::<Option<Vec<_>>>()?);
    bincode::serialize(&share).ok()
}

/// Relies on `simplepedpop::receive_secret_share`, which checks every proof of possession and
/// that the share matches the aggregate; the result is turned to its x-only (even-y) form.
#[verifier::external_body]
pub(crate) fn receive_secret_share(agg: &Vec<u8>, share: &Vec<u8>) -> (r: Option<Vec<u8>>)
    ensures
        match r {
            Some(v) => received_share(agg@, share@) == Some(v@),
            None => received_share(agg@, share@) is None,
        },
{
    let (agg, share) = (bincode::deserialize::<AggKeygenInput>(agg).ok()?, bincode::deserialize(share).ok()?);
    let frost = frost::new_with_deterministic_nonces::<Sha256>();
    let paired = simplepedpop::receive_secret_share(&frost.schnorr, &agg, share).ok()?;
    bincode::serialize(&paired.non_zero()?.into_xonly()).ok()
}

/// Relies on `AggKeygenInput::shared_key`, turned to its x-only (even-y) form.
#[verifier::external_body]
pub(crate) fn agg_shared_key(agg: &Vec<u8>) -> (r: Option<Vec<u8>>)
    ensures
        match r {
            Some(v) => agg_key(agg@) == Some(v@),
            None => agg_key(agg@) is None,
        },
{
    let agg = bincode::deserialize::<AggKeygenInput>(agg).ok()?;
    bincode::serialize(&agg.shared_key().non_zero()?.into_xonly()).ok()
}

/// Relies on `SharedKey::threshold`; the decoder panics on an empty coefficient list.
#[verifier::external_body]
pub(crate) fn shared_key_threshold(key: &Vec<u8>) -> (r: Option<usize>)
    requires
        key_decodable(key@),
    ensures
        r is Some <==> group_key_point(key@) is Some,
        r matches Some(t) ==> t == key_threshold(key@),
{
    Some(bincode::deserialize::<SharedKey<EvenY>>(key).ok()?.threshold())
}

/// Relies on `SharedKey::public_key`; the decoder panics on an empty coefficient list.
#[verifier::external_body]
pub(crate) fn shared_key_public_key(key: &Vec<u8>) -> (r: Option<Vec<u8>>)
    requires
        key_decodable(key@),
    ensures
        match r {
            Some(v) => group_key_point(key@) == Some(v@),
            None => group_key_point(key@) is None,
        },
{
    bincode::serialize(&bincode::deserialize::<SharedKey<EvenY>>(key).ok()?.public_key()).ok()
}

/// Relies on `PairedSecretShare::public_key`.
#[verifier::external_body]
pub(crate) fn share_public_key(share: &Vec<u8>) -> (r: Option<Vec<u8>>)
    ensures
        r is Some <==> share_decodes(share@),
        r matches Some(v) ==> v@ == share_key_point(share@),
{
    let share = bincode::deserialize::<PairedSecretShare<EvenY>>(share).ok()?;
    bincode::serialize(&share.public_key()).ok()
}

/// Relies on `PairedSecretShare::index`.
#[verifier::external_body]
pub(crate) fn share_index(share: &Vec<u8>) -> (r: Option<Vec<u8>>)
    ensures
        r is Some <==> share_decodes(share@),
        r matches Some(v) ==> v@ == share_index_scalar(share@),
{
    let share = bincode::deserialize::<PairedSecretShare<EvenY>>(share).ok()?;
    bincode::serialize(&share.index()).ok()
}

/// Relies on `Scalar::from(u32)`: the share index of a party, defined for every index but 0.
#[verifier::external_body]
pub(crate) fn party_index_scalar(index: u32) -> (r: Option<Vec<u8>>)
    ensures
        index != 0 ==> r is Some,
        r matches Some(v) ==> v@ == index_scalar(index),
{
    bincode::serialize(&Scalar::<Secret, Zero>::from(index).public().non_zero()?).ok()
}

/// Relies on `Frost::seed_nonce_rng` (synthetic nonces: the session id and fresh randomness
/// from the thread's RNG are mixed in), which always returns.
#[verifier::external_body]
pub(crate) fn seed_nonce_rng(share: &Vec<u8>, session: &str) -> (r: Option<ChaCha20Rng>)
    ensures
        r is Some <==> share_decodes(share@),
{
    let share = bincode::deserialize::<PairedSecretShare<EvenY>>(share).ok()?;
    let frost = frost::new_with_synthetic_nonces::<Sha256, rand::rngs::ThreadRng>();
    Some(frost.seed_nonce_rng(share, session.as_bytes()))
}

/// Relies on `Frost::gen_nonce` and `NonceKeyPair::public`: a fresh nonce pair and its public
/// half, both encoded without fail.
#[verifier::external_body]
pub(crate) fn gen_nonce(rng: &mut ChaCha20Rng) -> (r: Option<(Vec<u8>, Vec<u8>)>)
    ensures
        r is Some,
        r matches Some(p) ==> p.1@ == public_nonce_of(p.0@),
{
    let frost = frost::new_with_synthetic_nonces::<Sha256, rand::rngs::ThreadRng>();
    let nonce: NonceKeyPair = frost.gen_nonce(rng);
    Some((bincode::serialize(&nonce).ok()?, bincode::serialize(&nonce.public()).ok()?))
}

/// Relies on `Frost::coordinator_sign_session` (which panics on fewer nonces than the key's
/// threshold) and `PartySignSession::sign` over its aggregate nonce and parties (which panics
/// unless the share belongs to the key and its index is among the parties; encodings of points
/// and scalars are one-to-one). The message is tagged with `tag`.
#[verifier::external_body]
pub(crate) fn sign_share(key: &Vec<u8>, share: &Vec<u8>, nonce: &Vec<u8>, nonces: &Vec<(u32, Vec<u8>)>, tag: &'static str, message: &str) -> (r: Option<Vec<u8>>)
    requires
        key_decodable(key@),
        nonces@.len() >= key_threshold(key@),
        forall|i: int, j: int| 0 <= i < j < nonces@.len() ==> nonces@[i].0 != nonces@[j].0,
        group_key_point(key@) == Some(share_key_point(share@)),
        exists|k: int| 0 <= k < nonces@.len() && index_scalar(#[trigger] nonces@[k].0) == share_index_scalar(share@),
    ensures
        match r {
            Some(v) => signature_share_of(key@, share@, nonce@, pairs_view(nonces@), tag@, message@) == Some(v@),
            None => signature_share_of(key@, share@, nonce@, pairs_view(nonces@), tag@, message@) is None,
        },
{
    let (key, share, nonce): (_, _, NonceKeyPair) = (bincode::deserialize(key).ok()?, bincode::deserialize(share).ok()?, bincode::deserialize(nonce).ok()?);
    let (frost, msg) = (frost::new_with_deterministic_nonces::<Sha256>(), Message::new(tag, message.as_bytes()));
    let session = frost.coordinator_sign_session(&key, nonces.iter().map(|(i, n)| Some((ShareIndex::try_from(*i).ok()?, bincode::deserialize(n).ok()?))).collect::<Option<_>>()?, msg);
    bincode::serialize(&frost.party_sign_session(key.public_key(), session.parties(), session.agg_binonce(), msg).sign(&share, nonce)).ok()
}

/// Relies on `Frost::coordinator_sign_session` (which panics on fewer nonces than the key's
/// threshold) and `CoordinatorSignSession::final_nonce`.
#[verifier::external_body]
pub(crate) fn session_final_nonce(key: &Vec<u8>, nonces: &Vec<(u32, Vec<u8>)>, tag: &'static str, message: &str) -> (r: Option<Vec<u8>>)
    requires
        key_decodable(key@),
        nonces@.len() >= key_threshold(key@),
        forall|i: int, j: int| 0 <= i < j < nonces@.len() ==> nonces@[i].0 != nonces@[j].0,
    ensures
        match r {
            Some(v) => final_nonce_of(key@, pairs_view(nonces@), tag@, message@) == Some(v@),
            None => final_nonce_of(key@, pairs_view(nonces@), tag@, message@) is None,
        },
{
    let key = bincode::deserialize::<SharedKey<EvenY>>(key).ok()?;
    let map = nonces.iter().map(|(i, n)| Some((ShareIndex::try_from(*i).ok()?, bincode::deserialize(n).ok()?)));
    let frost = frost::new_with_deterministic_nonces::<Sha256>();
    let session = frost.coordinator_sign_session(&key, map.collect::<Option<_>>()?, Message::new(tag, message.as_bytes()));
    bincode::serialize(&session.final_nonce()).ok()
}

/// Relies on `Frost::coordinator_sign_session` (which panics on fewer nonces than the key's
/// threshold) and `CoordinatorSignSession::verify_and_combine_signature_shares`: checks each
/// share against its party's verification share and combines them; `None` where one is
/// invalid, too few are given, or a value does not decode.
#[verifier::external_body]
pub(crate) fn verify_and_combine(key: &Vec<u8>, nonces: &Vec<(u32, Vec<u8>)>, tag: &'static str, message: &str, shares: &Vec<(u32, Vec<u8>)>) -> (r: Option<Vec<u8>>)
    requires
        key_decodable(key@),
        nonces@.len() >= key_threshold(key@),
        forall|i: int, j: int| 0 <= i < j < nonces@.len() ==> nonces@[i].0 != nonces@[j].0,
    ensures
        match r {
            Some(v) => combined_of(key@, pairs_view(nonces@), tag@, message@, pairs_view(shares@)) == Some(v@),
            None => combined_of(key@, pairs_view(nonces@), tag@, message@, pairs_view(shares@)) is None,
        },
{
    let key = bincode::deserialize(key).ok()?;
    let map = nonces.iter().map(|(i, n)| Some((ShareIndex::try_from(*i).ok()?, bincode::deserialize(n).ok()?)));
    let session = frost::new_with_deterministic_nonces::<Sha256>().coordinator_sign_session(&key, map.collect::<Option<_>>()?, Message::new(tag, message.as_bytes()));
    let shares = shares.iter().map(|(i, s)| Some((ShareIndex::try_from(*i).ok()?, bincode::deserialize(s).ok()?)));
    bincode::serialize(&session.verify_and_combine_signature_shares(&key, shares.collect::<Option<_>>()?).ok()?).ok()
}

} // verus!
