//! Distributed key generation: contribution, aggregation and finalization phases.
use crate::collab::{
    agg_key, agg_of, agg_shared_key, bytes_list, collect_secret_inputs, collected_share, commitment_accepted,
    coordinator_add_input, coordinator_config, coordinator_finish, coordinator_inputs,
    coordinator_new, gen_keygen_input, group_key_point, hex_decode, hex_decoded, hex_encode,
    hex_of, key_decodable, key_length_nonzero, receive_secret_share, received_share,
    shared_key_public_key, AddInputFault,
};
use crate::store::{
    CommitmentData, KeygenState, Phase, SessionStore, ShareData, StoreKey, StoreValue,
};
use vstd::prelude::*;

verus! {

/// The store session under which key generation keeps its artifacts.
pub const KEYGEN_SESSION: &'static str = "keygen";

/// A party's commitment, the relay payload of the contribution phase.
#[derive(Debug, Clone)]
pub struct Round1Output {
    pub party_index: u32,
    /// Hex of the encoded commitment and proof of possession.
    pub keygen_input: String,
    pub event_type: String,
}

/// Commitments re-keyed by sender.
#[derive(Debug)]
pub struct Round1Input {
    pub commitments: Vec<CommitmentData>,
}

/// A party's outbound secret shares, the relay payload of the aggregation phase.
#[derive(Debug, Clone)]
pub struct Round2Output {
    pub party_index: u32,
    pub shares: Vec<ShareData>,
    pub event_type: String,
}

/// Shares addressed to this party, re-keyed by sender.
#[derive(Debug)]
pub struct Round2Input {
    pub shares_for_me: Vec<IncomingShare>,
}

#[derive(Debug, Clone, PartialEq, Eq)]
pub struct IncomingShare {
    pub from_index: u32,
    pub share: String,
}

/// What finalization reports: this party's secret share and the group public key, in hex.
#[derive(Debug)]
pub struct FinalKey {
    pub secret_share: String,
    pub public_key: String,
}

/// What is wrong with a list of party indices.
#[derive(Debug, Clone, Copy, PartialEq, Eq, Structural)]
pub enum IndexFault {
    OutOfRange(u32),
    Duplicate(u32),
    Count(usize),
}

#[derive(Debug, Clone, Copy, PartialEq, Eq, Structural)]
pub enum KeygenError {
    /// The threshold is zero or exceeds the number of parties.
    ThresholdOutOfRange,
    /// The own index is outside `[1, n_parties]`.
    IndexOutOfRange,
    /// An earlier phase has not been run.
    Missing(Phase),
    /// What the store holds for an earlier phase is not what that phase writes.
    CorruptState(Phase),
    /// A message names a party outside `[1, n_parties]`.
    PartyOutOfRange(u32),
    /// Two messages come from the same party.
    DuplicateParty(u32),
    /// Not one commitment per party.
    CommitmentCount { expected: u32, got: usize },
    /// Not one share per party addressed to this party.
    ShareCount { expected: u32, got: usize },
    /// A party's commitment does not decode.
    UndecodableCommitment(u32),
    /// A party's commitment is rejected (wrong threshold or proof of possession).
    InvalidCommitment(u32),
    /// A party's share does not decode.
    UndecodableShare(u32),
    /// The received shares do not match the aggregated commitments.
    InvalidShare,
    /// The collaborator could not produce or encode a value.
    Crypto,
}

pub open spec fn config_valid(threshold: u32, n_parties: u32, my_index: u32) -> bool {
    1 <= threshold <= n_parties && 1 <= my_index <= n_parties
}

/// One index per party: exactly `n` of them, each in `[1, n]`, no two alike.
pub open spec fn party_indices_valid(idx: Seq<u32>, n: u32) -> bool {
    &&& idx.len() == n
    &&& forall|k: int| 0 <= k < idx.len() ==> 1 <= #[trigger] idx[k] <= n
    &&& forall|i: int, j: int| 0 <= i < j < idx.len() ==> idx[i] != idx[j]
}

pub open spec fn state_valid(st: KeygenState) -> bool {
    config_valid(st.threshold, st.n_parties, st.my_index)
}

pub open spec fn sender_indices(cs: Seq<CommitmentData>) -> Seq<u32> {
    cs.map_values(|c: CommitmentData| c.index)
}

/// The relayed commitments re-keyed by sender.
pub open spec fn commitment_data_of(msgs: Seq<Round1Output>) -> Seq<CommitmentData> {
    msgs.map_values(|m: Round1Output| CommitmentData { index: m.party_index, data: m.keygen_input })
}

pub open spec fn incoming_indices(shares: Seq<IncomingShare>) -> Seq<u32> {
    shares.map_values(|s: IncomingShare| s.from_index)
}

/// The shares addressed to `me`, in relay order, each with its sender.
pub open spec fn shares_for(msgs: Seq<Round2Output>, me: u32) -> Seq<IncomingShare>
    decreases msgs.len(),
{
    if msgs.len() == 0 {
        seq![]
    } else {
        shares_for(msgs.drop_last(), me) + shares_in(msgs.last(), me)
    }
}

/// The shares of one message addressed to `me`.
pub open spec fn shares_in(msg: Round2Output, me: u32) -> Seq<IncomingShare> {
    addressed(msg.shares@, msg.party_index, me)
}

/// The shares among `shares`, sent by `from`, that are addressed to `me`.
pub open spec fn addressed(shares: Seq<ShareData>, from: u32, me: u32) -> Seq<IncomingShare>
    decreases shares.len(),
{
    if shares.len() == 0 {
        seq![]
    } else {
        addressed(shares.drop_last(), from, me) + if shares.last().to_index == me {
            seq![IncomingShare { from_index: from, share: shares.last().share }]
        } else {
            seq![]
        }
    }
}

pub open spec fn keygen_key(phase: Phase) -> (Seq<char>, Phase) {
    (KEYGEN_SESSION@, phase)
}

/// `1, 2, ..., n`.
pub open spec fn indices_upto(n: nat) -> Seq<u32> {
    Seq::new(n, |k: int| (k + 1) as u32)
}

/// Checks that `indices` names every party in `[1, n]` exactly once.
pub fn check_party_indices(indices: &Vec<u32>, n: u32) -> (r: Result<(), IndexFault>)
    ensures
        r is Ok <==> party_indices_valid(indices@, n),
        r matches Err(IndexFault::OutOfRange(v)) ==> exists|k: int|
            0 <= k < indices@.len() && indices@[k] == v && !(1 <= v <= n),
        r matches Err(IndexFault::Duplicate(v)) ==> exists|i: int, j: int|
            0 <= i < j < indices@.len() && indices@[i] == v && indices@[j] == v,
        r matches Err(IndexFault::Count(c)) ==> c == indices@.len() && c != n,
{
    let len = indices.len();
    let mut k: usize = 0;
    while k < len
        invariant
            len == indices@.len(),
            k <= len,
            forall|q: int| 0 <= q < k ==> 1 <= #[trigger] indices@[q] <= n,
            forall|i: int, j: int| 0 <= i < j < k ==> indices@[i] != indices@[j],
        decreases len - k,
    {
        let v = indices[k];
        if v < 1 || v > n {
            return Err(IndexFault::OutOfRange(v));
        }
        let mut j: usize = 0;
        while j < k
            invariant
                k < len,
                len == indices@.len(),
                j <= k,
                v == indices@[k as int],
                forall|i: int| 0 <= i < j ==> indices@[i] != v,
            decreases k - j,
        {
            if indices[j] == v {
                return Err(IndexFault::Duplicate(v));
            }
            j = j + 1;
        }
        k = k + 1;
    }
    if len != n as usize {
        return Err(IndexFault::Count(len));
    }
    Ok(())
}

/// The senders of the given commitments, in order.
pub fn commitment_senders(cs: &Vec<CommitmentData>) -> (r: Vec<u32>)
    ensures
        r@ == sender_indices(cs@),
{
    let mut r: Vec<u32> = Vec::new();
    let mut k: usize = 0;
    while k < cs.len()
        invariant
            k <= cs@.len(),
            r@ == sender_indices(cs@.take(k as int)),
        decreases cs.len() - k,
    {
        r.push(cs[k].index);
        k = k + 1;
        proof {
            assert(sender_indices(cs@.take(k as int)) =~= sender_indices(cs@.take(k - 1)).push(
                cs@[k - 1].index,
            ));
        }
    }
    proof {
        assert(cs@.take(cs@.len() as int) =~= cs@);
    }
    r
}

/// The relayed commitments re-keyed by sender, in relay order.
pub fn commitment_list(msgs: &Vec<Round1Output>) -> (r: Vec<CommitmentData>)
    ensures
        r@ == commitment_data_of(msgs@),
{
    let mut r: Vec<CommitmentData> = Vec::new();
    let mut k: usize = 0;
    while k < msgs.len()
        invariant
            k <= msgs@.len(),
            r@ == commitment_data_of(msgs@).take(k as int),
        decreases msgs.len() - k,
    {
        r.push(CommitmentData { index: msgs[k].party_index, data: msgs[k].keygen_input.clone() });
        k = k + 1;
        proof {
            assert(r@ =~= commitment_data_of(msgs@).take(k as int));
        }
    }
    proof {
        assert(commitment_data_of(msgs@).take(msgs@.len() as int) =~= commitment_data_of(msgs@));
    }
    r
}

/// The shares addressed to `my_index` among the relayed share messages, each with its sender.
pub fn shares_addressed_to(msgs: &Vec<Round2Output>, my_index: u32) -> (r: Vec<IncomingShare>)
    ensures
        r@ == shares_for(msgs@, my_index),
{
    let mut r: Vec<IncomingShare> = Vec::new();
    let mut k: usize = 0;
    while k < msgs.len()
        invariant
            k <= msgs@.len(),
            r@ == shares_for(msgs@.take(k as int), my_index),
        decreases msgs.len() - k,
    {
        let m = &msgs[k];
        let ghost before = r@;
        let mut q: usize = 0;
        while q < m.shares.len()
            invariant
                k < msgs@.len(),
                *m == msgs@[k as int],
                q <= m.shares@.len(),
                r@ == before + addressed(m.shares@.take(q as int), m.party_index, my_index),
            decreases m.shares.len() - q,
        {
            let s = &m.shares[q];
            proof {
                assert(m.shares@.take(q + 1).drop_last() =~= m.shares@.take(q as int));
                assert(m.shares@.take(q + 1).last() == *s);
            }
            if s.to_index == my_index {
                r.push(IncomingShare { from_index: m.party_index, share: s.share.clone() });
            }
            q = q + 1;
            proof {
                assert(r@ =~= before + addressed(m.shares@.take(q as int), m.party_index, my_index));
            }
        }
        k = k + 1;
        proof {
            assert(m.shares@.take(m.shares@.len() as int) =~= m.shares@);
            assert(msgs@.take(k as int).drop_last() =~= msgs@.take(k - 1));
            assert(r@ =~= shares_for(msgs@.take(k as int), my_index));
        }
    }
    proof {
        assert(msgs@.take(msgs@.len() as int) =~= msgs@);
    }
    r
}

/// What the contribution phase leaves in the store: its configuration and contribution, and
/// one outbound share (the hex of an encoded secret value) for each party `1..=n_parties`.
pub open spec fn round1_effect(
    before: Map<StoreKey, StoreValue>,
    after: Map<StoreKey, StoreValue>,
    threshold: u32,
    n_parties: u32,
    my_index: u32,
) -> bool {
    let ks = keygen_key(Phase::KeygenState);
    let ko = keygen_key(Phase::OutboundShares);
    &&& after == before.insert(ks, after[ks]).insert(ko, after[ko])
    &&& after[ks] matches StoreValue::Keygen(st) && st.my_index == my_index && st.threshold
        == threshold && st.n_parties == n_parties && st.share_indices@ == indices_upto(
        n_parties as nat,
    )
    &&& after[ko] matches StoreValue::Shares(v) && v@.len() == n_parties && forall|k: int|
        0 <= k < v@.len() ==> (#[trigger] v@[k]).to_index == k + 1 && exists|b: Seq<u8>|
            v@[k].share@ == hex_of(b)
}

/// Contribution phase: checks the configuration, draws this party's contribution, keeps it
/// with one secret share per party, and returns the public commitment for the relay.
pub fn round1(store: &mut SessionStore, threshold: u32, n_parties: u32, my_index: u32) -> (r: Result<
    Round1Output,
    KeygenError,
>)
    ensures
        threshold == 0 || threshold > n_parties ==> r == Err::<Round1Output, KeygenError>(
            KeygenError::ThresholdOutOfRange,
        ),
        1 <= threshold <= n_parties && !(1 <= my_index <= n_parties) ==> r == Err::<
            Round1Output,
            KeygenError,
        >(KeygenError::IndexOutOfRange),
        config_valid(threshold, n_parties, my_index) ==> r is Ok,
        r is Err ==> final(store)@ == old(store)@,
        r is Ok ==> config_valid(threshold, n_parties, my_index) && round1_effect(
            old(store)@,
            final(store)@,
            threshold,
            n_parties,
            my_index,
        ),
        r matches Ok(out) ==> out.party_index == my_index && out.event_type@ == "keygen_round1"@
            && exists|b: Seq<u8>| out.keygen_input@ == hex_of(b),
{
    if threshold == 0 || threshold > n_parties {
        return Err(KeygenError::ThresholdOutOfRange);
    }
    if my_index == 0 || my_index > n_parties {
        return Err(KeygenError::IndexOutOfRange);
    }
    let mut receivers: Vec<u32> = Vec::new();
    let mut i: u32 = 0;
    while i < n_parties
        invariant
            i <= n_parties,
            receivers@ == indices_upto(i as nat),
        decreases n_parties - i,
    {
        i = i + 1;
        receivers.push(i);
        proof {
            assert(receivers@ =~= indices_upto(i as nat));
        }
    }
    let c = match gen_keygen_input(threshold, &receivers, my_index - 1) {
        Some(c) => c,
        None => return Err(KeygenError::Crypto),
    };
    let mut outbound: Vec<ShareData> = Vec::new();
    let mut k: usize = 0;
    while k < c.shares.len()
        invariant
            c.shares@.len() == n_parties,
            receivers@ == indices_upto(n_parties as nat),
            outbound@.len() == k,
            k <= n_parties,
            forall|q: int| 0 <= q < k ==> (#[trigger] outbound@[q]).to_index == q + 1
                && outbound@[q].share@ == hex_of(c.shares@[q]@),
        decreases c.shares.len() - k,
    {
        outbound.push(ShareData { to_index: receivers[k], share: hex_encode(&c.shares[k]) });
        k = k + 1;
    }
    let keygen_input = hex_encode(&c.keygen_input);
    let state = KeygenState {
        my_index,
        threshold,
        n_parties,
        contributor: c.contributor,
        share_indices: receivers,
    };
    store.put(KEYGEN_SESSION, Phase::KeygenState, StoreValue::Keygen(state));
    store.put(KEYGEN_SESSION, Phase::OutboundShares, StoreValue::Shares(outbound));
    proof {
        assert forall|q: int| 0 <= q < outbound@.len() implies exists|b: Seq<u8>|
            (#[trigger] outbound@[q]).share@ == hex_of(b) by {
            assert(outbound@[q].share@ == hex_of(c.shares@[q]@));
        }
    }
    Ok(Round1Output {
        party_index: my_index,
        keygen_input,
        event_type: String::from_str("keygen_round1"),
    })
}

/// A copy of the shares, field by field.
fn copy_shares(v: &Vec<ShareData>) -> (r: Vec<ShareData>)
    ensures
        r@ == v@,
{
    let mut r: Vec<ShareData> = Vec::new();
    let mut k: usize = 0;
    while k < v.len()
        invariant
            k <= v@.len(),
            r@ == v@.take(k as int),
        decreases v.len() - k,
    {
        r.push(ShareData { to_index: v[k].to_index, share: v[k].share.clone() });
        k = k + 1;
        proof {
            assert(r@ =~= v@.take(k as int));
        }
    }
    proof {
        assert(v@.take(v@.len() as int) =~= v@);
    }
    r
}

/// Reads the contribution phase's state and checks its configuration.
fn load_state(store: &SessionStore) -> (r: Result<&KeygenState, KeygenError>)
    ensures
        !store@.contains_key(keygen_key(Phase::KeygenState)) ==> r == Err::<&KeygenState, KeygenError>(
            KeygenError::Missing(Phase::KeygenState),
        ),
        r matches Ok(st) ==> store@.contains_key(keygen_key(Phase::KeygenState)) && store@[keygen_key(
            Phase::KeygenState,
        )] == StoreValue::Keygen(*st) && state_valid(*st),
        has_valid_state(store@) ==> r is Ok,
{
    match store.get(KEYGEN_SESSION, Phase::KeygenState) {
        Ok(StoreValue::Keygen(st)) => {
            if st.threshold == 0 || st.threshold > st.n_parties || st.my_index == 0 || st.my_index
                > st.n_parties {
                return Err(KeygenError::CorruptState(Phase::KeygenState));
            }
            Ok(st)
        },
        Ok(_) => Err(KeygenError::CorruptState(Phase::KeygenState)),
        Err(_) => Err(KeygenError::Missing(Phase::KeygenState)),
    }
}

fn index_error(f: IndexFault, n: u32, shares: bool) -> (r: KeygenError)
    ensures
        index_fault_error(r),
        f is Count && !shares ==> r == (KeygenError::CommitmentCount { expected: n, got: f->Count_0 }),
        f is Count && shares ==> r == (KeygenError::ShareCount { expected: n, got: f->Count_0 }),
{
    match f {
        IndexFault::OutOfRange(v) => KeygenError::PartyOutOfRange(v),
        IndexFault::Duplicate(v) => KeygenError::DuplicateParty(v),
        IndexFault::Count(c) => if shares {
            KeygenError::ShareCount { expected: n, got: c }
        } else {
            KeygenError::CommitmentCount { expected: n, got: c }
        },
    }
}

/// The decoded bytes of a relayed commitment.
pub open spec fn commitment_bytes(c: CommitmentData) -> Seq<u8> {
    hex_decoded(c.data@)->Some_0
}

/// Every relayed commitment is hex.
pub open spec fn commitments_decode(cs: Seq<CommitmentData>) -> bool {
    forall|k: int| 0 <= k < cs.len() ==> hex_decoded((#[trigger] cs[k]).data@) is Some
}

/// The aggregator accepts every relayed commitment.
pub open spec fn commitments_accepted(threshold: u32, cs: Seq<CommitmentData>) -> bool {
    forall|k: int| 0 <= k < cs.len() ==> commitment_accepted(threshold, commitment_bytes(#[trigger] cs[k]))
}

/// The commitments as the aggregator holds them: by slot `party_index - 1`, their bytes.
/// For distinct senders the relay order does not matter.
pub open spec fn commitment_inputs(cs: Seq<CommitmentData>) -> Map<u32, Seq<u8>>
    decreases cs.len(),
{
    if cs.len() == 0 {
        Map::empty()
    } else {
        commitment_inputs(cs.drop_last()).insert(
            (cs.last().index - 1) as u32,
            commitment_bytes(cs.last()),
        )
    }
}

/// Senders that are each in `[1, n]` and pairwise distinct.
pub open spec fn senders_distinct(cs: Seq<CommitmentData>, n: u32) -> bool {
    &&& forall|k: int| 0 <= k < cs.len() ==> 1 <= (#[trigger] cs[k]).index <= n
    &&& forall|i: int, j: int| 0 <= i < j < cs.len() ==> cs[i].index != cs[j].index
}

proof fn lemma_senders_distinct(cs: Seq<CommitmentData>, n: u32)
    requires
        party_indices_valid(sender_indices(cs), n),
    ensures
        senders_distinct(cs, n),
{
    assert forall|k: int| 0 <= k < cs.len() implies 1 <= (#[trigger] cs[k]).index <= n by {
        assert(sender_indices(cs)[k] == cs[k].index);
    }
    assert forall|i: int, j: int| 0 <= i < j < cs.len() implies cs[i].index
        != cs[j].index by {
        assert(sender_indices(cs)[i] == cs[i].index);
        assert(sender_indices(cs)[j] == cs[j].index);
    }
}

/// With distinct senders, the aggregator's view holds each commitment under its sender's slot.
proof fn lemma_commitment_inputs(cs: Seq<CommitmentData>, n: u32)
    requires
        senders_distinct(cs, n),
    ensures
        commitment_inputs(cs).dom().finite(),
        commitment_inputs(cs).dom().len() == cs.len(),
        forall|j: int|
            0 <= j < cs.len() ==> commitment_inputs(cs).contains_key(
                ((#[trigger] cs[j]).index - 1) as u32,
            ) && commitment_inputs(cs)[(cs[j].index - 1) as u32] == commitment_bytes(cs[j]),
        forall|x: u32| #[trigger]
            commitment_inputs(cs).contains_key(x) ==> exists|j: int|
                0 <= j < cs.len() && cs[j].index - 1 == x,
    decreases cs.len(),
{
    if cs.len() > 0 {
        let front = cs.drop_last();
        assert forall|k: int| 0 <= k < front.len() implies 1 <= (#[trigger] front[k]).index
            <= n by {
            assert(front[k] == cs[k]);
        }
        assert forall|i: int, j: int| 0 <= i < j < front.len() implies front[i].index
            != front[j].index by {
            assert(front[i] == cs[i]);
            assert(front[j] == cs[j]);
        }
        lemma_commitment_inputs(front, n);
        let last = (cs.last().index - 1) as u32;
        assert(cs.last() == cs[cs.len() - 1]);
        if commitment_inputs(front).contains_key(last) {
            let j = choose|j: int| 0 <= j < front.len() && front[j].index - 1 == last;
            assert(front[j] == cs[j]);
            assert(false);
        }
        assert forall|j: int| 0 <= j < cs.len() implies commitment_inputs(cs).contains_key(
            ((#[trigger] cs[j]).index - 1) as u32,
        ) && commitment_inputs(cs)[(cs[j].index - 1) as u32] == commitment_bytes(cs[j]) by {
            if j < cs.len() - 1 {
                assert(front[j] == cs[j]);
            }
        }
        assert forall|x: u32| #[trigger] commitment_inputs(cs).contains_key(x) implies exists|j: int|
            0 <= j < cs.len() && cs[j].index - 1 == x by {
            if x != last {
                let j = choose|j: int| 0 <= j < front.len() && front[j].index - 1 == x;
                assert(front[j] == cs[j]);
            } else {
                assert(cs[cs.len() - 1].index - 1 == x);
            }
        }
    }
}

/// The position of the commitment from party `index`, or the length where there is none.
fn find_sender(cs: &Vec<CommitmentData>, index: u32) -> (r: usize)
    ensures
        r <= cs@.len(),
        r < cs@.len() ==> cs@[r as int].index == index,
        r == cs@.len() ==> forall|q: int| 0 <= q < cs@.len() ==> cs@[q].index != index,
{
    let mut k: usize = 0;
    while k < cs.len()
        invariant
            k <= cs@.len(),
            forall|q: int| 0 <= q < k ==> cs@[q].index != index,
        decreases cs.len() - k,
    {
        if cs[k].index == index {
            return k;
        }
        k = k + 1;
    }
    k
}

/// Feeds the commitments to the collaborator's aggregator in party-index order; the aggregate
/// depends only on which party sent what, not on the relay order.
fn aggregate(commitments: &Vec<CommitmentData>, threshold: u32, n_parties: u32) -> (r: Result<
    Vec<u8>,
    KeygenError,
>)
    requires
        threshold >= 1,
        party_indices_valid(sender_indices(commitments@), n_parties),
    ensures
        r is Ok <==> commitments_decode(commitments@) && commitments_accepted(threshold, commitments@),
        r matches Ok(a) ==> a@ == agg_of(threshold, commitment_inputs(commitments@)),
        r matches Err(KeygenError::UndecodableCommitment(i)) ==> exists|k: int|
            0 <= k < commitments@.len() && commitments@[k].index == i && hex_decoded(
                commitments@[k].data@,
            ) is None,
        r matches Err(KeygenError::InvalidCommitment(i)) ==> exists|k: int|
            0 <= k < commitments@.len() && commitments@[k].index == i && !commitment_accepted(
                threshold,
                commitment_bytes(commitments@[k]),
            ),
        r matches Err(e) ==> e is UndecodableCommitment || e is InvalidCommitment,
{
    let ghost cs = commitments@;
    let ghost full = commitment_inputs(cs);
    proof {
        lemma_senders_distinct(cs, n_parties);
        lemma_commitment_inputs(cs, n_parties);
        assert forall|x: u32| x < n_parties implies full.contains_key(x) by {
            let d = full.dom();
            if !d.contains(x) {
                let below = Set::new(|y: u32| y < n_parties);
                lemma_below_len(n_parties);
                assert forall|y: u32| d.contains(y) implies below.remove(x).contains(y) by {
                    let j = choose|j: int| 0 <= j < cs.len() && cs[j].index - 1 == y;
                    assert(1 <= cs[j].index <= n_parties);
                }
                vstd::set_lib::lemma_len_subset(d, below.remove(x));
                assert(false);
            }
        }
    }
    let mut c = coordinator_new(threshold, n_parties);
    proof {
        assert(coordinator_inputs(c) =~= full.restrict(Set::new(|y: u32| y < 0)));
    }
    let mut s: u32 = 0;
    while s < n_parties
        invariant
            s <= n_parties,
            threshold >= 1,
            cs == commitments@,
            full == commitment_inputs(cs),
            senders_distinct(cs, n_parties),
            forall|x: u32| x < n_parties ==> full.contains_key(x),
            forall|x: u32| #[trigger]
                full.contains_key(x) ==> exists|j: int| 0 <= j < cs.len() && cs[j].index - 1 == x,
            forall|j: int|
                0 <= j < cs.len() ==> full.contains_key(((#[trigger] cs[j]).index - 1) as u32)
                    && full[(cs[j].index - 1) as u32] == commitment_bytes(cs[j]),
            coordinator_config(c) == (threshold, n_parties),
            coordinator_inputs(c) == full.restrict(Set::new(|y: u32| y < s)),
            forall|j: int|
                0 <= j < cs.len() && (#[trigger] cs[j]).index <= s ==> hex_decoded(
                    cs[j].data@,
                ) is Some && commitment_accepted(threshold, commitment_bytes(cs[j])),
        decreases n_parties - s,
    {
        let k = find_sender(commitments, s + 1);
        if k == commitments.len() {
            proof {
                assert(full.contains_key(s));
                let j = choose|j: int| 0 <= j < cs.len() && cs[j].index - 1 == s;
                assert(cs[j].index == s + 1);
            }
            return Err(KeygenError::Crypto);
        }
        let m = &commitments[k];
        let bytes = match hex_decode(m.data.as_str()) {
            Some(b) => b,
            None => return Err(KeygenError::UndecodableCommitment(m.index)),
        };
        assert(full[s] == commitment_bytes(cs[k as int]));
        let ghost before = coordinator_inputs(c);
        match coordinator_add_input(&mut c, s, &bytes) {
            Ok(()) => {},
            Err(_) => return Err(KeygenError::InvalidCommitment(m.index)),
        }
        proof {
            assert(coordinator_inputs(c) =~= full.restrict(Set::new(|y: u32| y < s + 1)));
            assert forall|j: int|
                0 <= j < cs.len() && (#[trigger] cs[j]).index <= s + 1 implies hex_decoded(
                cs[j].data@,
            ) is Some && commitment_accepted(threshold, commitment_bytes(cs[j])) by {
                if cs[j].index == s + 1 && j != k {
                    if j < k {
                        assert(cs[j].index != cs[k as int].index);
                    } else {
                        assert(cs[k as int].index != cs[j].index);
                    }
                }
            }
        }
        s = s + 1;
    }
    proof {
        assert(coordinator_inputs(c) =~= full) by {
            assert forall|x: u32| #[trigger] full.contains_key(x) implies x < n_parties by {
                let j = choose|j: int| 0 <= j < cs.len() && cs[j].index - 1 == x;
                assert(1 <= cs[j].index <= n_parties);
            }
        }
        assert forall|j: int| 0 <= j < cs.len() implies hex_decoded(
            (#[trigger] cs[j]).data@,
        ) is Some by {
            assert(cs[j].index <= n_parties);
        }
        assert forall|j: int| 0 <= j < cs.len() implies commitment_accepted(
            threshold,
            commitment_bytes(#[trigger] cs[j]),
        ) by {
            assert(cs[j].index <= n_parties);
        }
    }
    match coordinator_finish(c) {
        Some(agg) => Ok(agg),
        None => Err(KeygenError::Crypto),
    }
}

/// The set of integers below `n` is finite with `n` elements.
proof fn lemma_below_len(n: u32)
    ensures
        Set::new(|x: u32| x < n).finite(),
        Set::new(|x: u32| x < n).len() == n,
    decreases n,
{
    if n == 0 {
        assert(Set::new(|x: u32| x < n) =~= Set::<u32>::empty());
    } else {
        lemma_below_len((n - 1) as u32);
        assert(Set::new(|x: u32| x < n) =~= Set::new(|x: u32| x < (n - 1) as u32).insert(
            (n - 1) as u32,
        ));
    }
}

/// An error that names a wrong, repeated or missing party.
pub open spec fn index_fault_error(e: KeygenError) -> bool {
    e is PartyOutOfRange || e is DuplicateParty || e is CommitmentCount || e is ShareCount
}

/// The store holds a contribution-phase state with a valid configuration.
pub open spec fn has_valid_state(m: Map<StoreKey, StoreValue>) -> bool {
    &&& m.contains_key(keygen_key(Phase::KeygenState))
    &&& m[keygen_key(Phase::KeygenState)] is Keygen
    &&& state_valid(state_of(m))
}

pub open spec fn state_of(m: Map<StoreKey, StoreValue>) -> KeygenState {
    m[keygen_key(Phase::KeygenState)]->Keygen_0
}

/// The senders of the given shares, in order.
pub fn incoming_senders(shares: &Vec<IncomingShare>) -> (r: Vec<u32>)
    ensures
        r@ == incoming_indices(shares@),
{
    let mut r: Vec<u32> = Vec::new();
    let mut k: usize = 0;
    while k < shares.len()
        invariant
            k <= shares@.len(),
            r@ == incoming_indices(shares@.take(k as int)),
        decreases shares.len() - k,
    {
        r.push(shares[k].from_index);
        k = k + 1;
        proof {
            assert(incoming_indices(shares@.take(k as int)) =~= incoming_indices(
                shares@.take(k - 1),
            ).push(shares@[k - 1].from_index));
        }
    }
    proof {
        assert(shares@.take(shares@.len() as int) =~= shares@);
    }
    r
}

/// The round-1 state, the outbound shares and one commitment per party are at hand.
pub open spec fn round2_ready(m: Map<StoreKey, StoreValue>, cs: Seq<CommitmentData>) -> bool {
    &&& has_valid_state(m)
    &&& m.contains_key(keygen_key(Phase::OutboundShares))
    &&& m[keygen_key(Phase::OutboundShares)] is Shares
    &&& party_indices_valid(sender_indices(cs), state_of(m).n_parties)
}

/// Aggregation phase: checks and aggregates one commitment per party, keeps the relay blob of
/// commitments verbatim and the validated commitments by sender, and returns this party's
/// outbound shares for the relay.
pub fn round2(store: &mut SessionStore, commitments: &Vec<Round1Output>, relay_blob: &str) -> (r: Result<
    Round2Output,
    KeygenError,
>)
    ensures
        !old(store)@.contains_key(keygen_key(Phase::KeygenState)) ==> r == Err::<
            Round2Output,
            KeygenError,
        >(KeygenError::Missing(Phase::KeygenState)),
        has_valid_state(old(store)@) && !old(store)@.contains_key(keygen_key(Phase::OutboundShares))
            ==> r == Err::<Round2Output, KeygenError>(KeygenError::Missing(Phase::OutboundShares)),
        r is Err ==> final(store)@ == old(store)@,
        has_valid_state(old(store)@) && old(store)@.contains_key(keygen_key(Phase::OutboundShares))
            && old(store)@[keygen_key(Phase::OutboundShares)] is Shares && !party_indices_valid(
            sender_indices(commitment_data_of(commitments@)),
            state_of(old(store)@).n_parties,
        ) ==> r is Err && index_fault_error(r->Err_0),
        round2_ready(old(store)@, commitment_data_of(commitments@)) ==> (r is Ok <==> commitments_decode(
            commitment_data_of(commitments@),
        ) && commitments_accepted(state_of(old(store)@).threshold, commitment_data_of(commitments@))),
        round2_ready(old(store)@, commitment_data_of(commitments@)) ==> (r matches Err(
            KeygenError::UndecodableCommitment(i),
        ) ==> exists|k: int|
            0 <= k < commitments@.len() && commitments@[k].party_index == i && hex_decoded(
                commitments@[k].keygen_input@,
            ) is None),
        round2_ready(old(store)@, commitment_data_of(commitments@)) ==> (r matches Err(
            KeygenError::InvalidCommitment(i),
        ) ==> exists|k: int|
            0 <= k < commitments@.len() && commitments@[k].party_index == i && !commitment_accepted(
                state_of(old(store)@).threshold,
                commitment_bytes(commitment_data_of(commitments@)[k]),
            )),
        r matches Ok(out) ==> {
            let kc = keygen_key(Phase::Commitments);
            let kl = keygen_key(Phase::CommitmentList);
            &&& round2_ready(old(store)@, commitment_data_of(commitments@))
            &&& out.party_index == state_of(old(store)@).my_index
            &&& old(store)@[keygen_key(Phase::OutboundShares)] matches StoreValue::Shares(v) && v@
                == out.shares@
            &&& out.event_type@ == "keygen_round2"@
            &&& final(store)@ == old(store)@.insert(kc, final(store)@[kc]).insert(kl, final(store)@[kl])
            &&& final(store)@[kc] matches StoreValue::Text(t) && t@ == relay_blob@
            &&& final(store)@[kl] matches StoreValue::Commitments(l) && l@ == commitment_data_of(
                commitments@,
            )
        },
{
    let st = load_state(store)?;
    let shares = match store.get(KEYGEN_SESSION, Phase::OutboundShares) {
        Ok(StoreValue::Shares(v)) => copy_shares(v),
        Ok(_) => return Err(KeygenError::CorruptState(Phase::OutboundShares)),
        Err(_) => return Err(KeygenError::Missing(Phase::OutboundShares)),
    };
    let list = commitment_list(commitments);
    let senders = commitment_senders(&list);
    if let Err(f) = check_party_indices(&senders, st.n_parties) {
        return Err(index_error(f, st.n_parties, false));
    }
    proof {
        assert forall|k: int| 0 <= k < commitments@.len() implies (#[trigger] list@[k]).index
            == commitments@[k].party_index && list@[k].data == commitments@[k].keygen_input by {}
    }
    aggregate(&list, st.threshold, st.n_parties)?;
    let my_index = st.my_index;
    store.put(KEYGEN_SESSION, Phase::Commitments, StoreValue::Text(relay_blob.to_string()));
    proof {
        vstd::string::to_string_from_display_ensures_for_str(
            relay_blob,
            final(store)@[keygen_key(Phase::Commitments)]->Text_0,
        );
    }
    store.put(KEYGEN_SESSION, Phase::CommitmentList, StoreValue::Commitments(list));
    Ok(Round2Output { party_index: my_index, shares, event_type: String::from_str("keygen_round2") })
}

/// A successful aggregation phase leaves the state finalization needs: the same configuration
/// and a validated list of one commitment per party. So finalization with no share addressed to
/// this party ends in a share-count error.
pub proof fn lemma_round2_prepares_finalize(
    s0: Map<StoreKey, StoreValue>,
    s1: Map<StoreKey, StoreValue>,
    list: Seq<CommitmentData>,
)
    requires
        round2_ready(s0, list),
        s1 == s0.insert(keygen_key(Phase::Commitments), s1[keygen_key(Phase::Commitments)]).insert(
            keygen_key(Phase::CommitmentList),
            s1[keygen_key(Phase::CommitmentList)],
        ),
        s1[keygen_key(Phase::CommitmentList)] matches StoreValue::Commitments(l) && l@ == list,
    ensures
        has_commitments(s1),
        state_of(s1) == state_of(s0),
        party_indices_valid(sender_indices(stored_commitments(s1)), state_of(s1).n_parties),
        state_of(s1).n_parties >= 1,
{
}

/// The commitments that the aggregation phase validated and kept.
pub open spec fn stored_commitments(m: Map<StoreKey, StoreValue>) -> Seq<CommitmentData> {
    m[keygen_key(Phase::CommitmentList)]->Commitments_0@
}

/// The store holds the contribution state and the commitments kept by the aggregation phase.
pub open spec fn has_commitments(m: Map<StoreKey, StoreValue>) -> bool {
    &&& has_valid_state(m)
    &&& m.contains_key(keygen_key(Phase::CommitmentList))
    &&& m[keygen_key(Phase::CommitmentList)] is Commitments
}

/// The decoded values of received shares.
pub open spec fn share_inputs(mine: Seq<IncomingShare>) -> Seq<Seq<u8>> {
    mine.map_values(|s: IncomingShare| hex_decoded(s.share@)->Some_0)
}

/// Every received share is hex.
pub open spec fn shares_decode(mine: Seq<IncomingShare>) -> bool {
    forall|k: int| 0 <= k < mine.len() ==> hex_decoded((#[trigger] mine[k]).share@) is Some
}

/// What key generation yields for party `me`: its encoded paired secret share and the encoded
/// group key, or `None` where the collaborator rejects the commitments or the shares.
pub open spec fn keygen_outcome(
    threshold: u32,
    me: u32,
    cs: Seq<CommitmentData>,
    mine: Seq<IncomingShare>,
) -> Option<(Seq<u8>, Seq<u8>)> {
    if !(commitments_decode(cs) && commitments_accepted(threshold, cs)) {
        None
    } else {
        let agg = agg_of(threshold, commitment_inputs(cs));
        match (collected_share(me, share_inputs(mine)), agg_key(agg)) {
            (Some(sum), Some(key)) => match received_share(agg, sum) {
                Some(paired) => if key_decodable(key) && group_key_point(key) is Some {
                    Some((paired, key))
                } else {
                    None
                },
                None => None,
            },
            _ => None,
        }
    }
}

/// Everything finalization checks itself holds: the state, the stored commitments, one
/// commitment and one hex share addressed to this party from every party.
pub open spec fn finalize_ready(m: Map<StoreKey, StoreValue>, msgs: Seq<Round2Output>) -> bool {
    let st = state_of(m);
    &&& has_commitments(m)
    &&& party_indices_valid(sender_indices(stored_commitments(m)), st.n_parties)
    &&& party_indices_valid(incoming_indices(shares_for(msgs, st.my_index)), st.n_parties)
    &&& shares_decode(shares_for(msgs, st.my_index))
}

/// The outcome of key generation for the party whose state the store holds.
pub open spec fn finalize_outcome(m: Map<StoreKey, StoreValue>, msgs: Seq<Round2Output>) -> Option<
    (Seq<u8>, Seq<u8>),
> {
    let st = state_of(m);
    keygen_outcome(st.threshold, st.my_index, stored_commitments(m), shares_for(msgs, st.my_index))
}

/// Parties that finalize over the same commitments, each party's under its own index, derive
/// the same group key, whatever order the relay gave them in and whatever shares each received.
pub proof fn lemma_same_commitments_same_key(
    threshold: u32,
    me1: u32,
    me2: u32,
    cs1: Seq<CommitmentData>,
    cs2: Seq<CommitmentData>,
    mine1: Seq<IncomingShare>,
    mine2: Seq<IncomingShare>,
)
    requires
        commitment_inputs(cs1) == commitment_inputs(cs2),
        keygen_outcome(threshold, me1, cs1, mine1) is Some,
        keygen_outcome(threshold, me2, cs2, mine2) is Some,
    ensures
        keygen_outcome(threshold, me1, cs1, mine1)->Some_0.1 == keygen_outcome(
            threshold,
            me2,
            cs2,
            mine2,
        )->Some_0.1,
{
}

/// The encoded values of the given shares, in order.
fn decode_shares(shares: &Vec<IncomingShare>) -> (r: Result<Vec<Vec<u8>>, KeygenError>)
    ensures
        r is Ok <==> shares_decode(shares@),
        r matches Ok(v) ==> bytes_list(v@) == share_inputs(shares@),
        r matches Err(e) ==> e is UndecodableShare,
{
    let mut inputs: Vec<Vec<u8>> = Vec::new();
    let mut k: usize = 0;
    while k < shares.len()
        invariant
            k <= shares@.len(),
            bytes_list(inputs@) == share_inputs(shares@).take(k as int),
            forall|q: int| 0 <= q < k ==> hex_decoded((#[trigger] shares@[q]).share@) is Some,
        decreases shares.len() - k,
    {
        match hex_decode(shares[k].share.as_str()) {
            Some(b) => {
                let ghost before = bytes_list(inputs@);
                inputs.push(b);
                proof {
                    assert(share_inputs(shares@)[k as int] == b@);
                    assert(bytes_list(inputs@) =~= before.push(b@));
                    assert(share_inputs(shares@).take(k + 1) =~= share_inputs(shares@).take(
                        k as int,
                    ).push(b@));
                }
            },
            None => return Err(KeygenError::UndecodableShare(shares[k].from_index)),
        }
        k = k + 1;
    }
    proof {
        assert(share_inputs(shares@).take(shares@.len() as int) =~= share_inputs(shares@));
    }
    Ok(inputs)
}

/// Finalization phase: checks again the commitments kept by the aggregation phase and the
/// shares addressed to this party, one from every party, and derives this party's secret share
/// and the group key, which it keeps.
pub fn finalize(store: &mut SessionStore, share_msgs: &Vec<Round2Output>) -> (r: Result<
    FinalKey,
    KeygenError,
>)
    ensures
        !old(store)@.contains_key(keygen_key(Phase::KeygenState)) ==> r == Err::<
            FinalKey,
            KeygenError,
        >(KeygenError::Missing(Phase::KeygenState)),
        has_valid_state(old(store)@) && !old(store)@.contains_key(keygen_key(Phase::CommitmentList))
            ==> r == Err::<FinalKey, KeygenError>(KeygenError::Missing(Phase::CommitmentList)),
        r is Err ==> final(store)@ == old(store)@,
        has_commitments(old(store)@) && !party_indices_valid(
            sender_indices(stored_commitments(old(store)@)),
            state_of(old(store)@).n_parties,
        ) ==> r is Err && index_fault_error(r->Err_0),
        has_commitments(old(store)@) && party_indices_valid(
            sender_indices(stored_commitments(old(store)@)),
            state_of(old(store)@).n_parties,
        ) && shares_for(share_msgs@, state_of(old(store)@).my_index).len() != state_of(
            old(store)@,
        ).n_parties ==> r == Err::<FinalKey, KeygenError>(
            (KeygenError::ShareCount {
                expected: state_of(old(store)@).n_parties,
                got: shares_for(share_msgs@, state_of(old(store)@).my_index).len() as usize,
            }),
        ),
        finalize_ready(old(store)@, share_msgs@) ==> (r is Ok <==> finalize_outcome(
            old(store)@,
            share_msgs@,
        ) is Some),
        r matches Ok(out) ==> {
            let o = finalize_outcome(old(store)@, share_msgs@)->Some_0;
            let kf = keygen_key(Phase::FinalShare);
            let kk = keygen_key(Phase::SharedKey);
            &&& finalize_ready(old(store)@, share_msgs@)
            &&& finalize_outcome(old(store)@, share_msgs@) is Some
            &&& final(store)@ == old(store)@.insert(kf, final(store)@[kf]).insert(kk, final(store)@[kk])
            &&& final(store)@[kf] matches StoreValue::Share { party_index, secret } && party_index
                == state_of(old(store)@).my_index && secret@ == o.0
            &&& final(store)@[kk] matches StoreValue::Blob(key) && key@ == o.1
            &&& out.secret_share@ == hex_of(o.0)
            &&& out.public_key@ == hex_of(group_key_point(o.1)->Some_0)
        },
{
    let st = load_state(store)?;
    let n = st.n_parties;
    let my_index = st.my_index;
    let threshold = st.threshold;
    let commitments = match store.get(KEYGEN_SESSION, Phase::CommitmentList) {
        Ok(StoreValue::Commitments(l)) => l,
        Ok(_) => return Err(KeygenError::CorruptState(Phase::CommitmentList)),
        Err(_) => return Err(KeygenError::Missing(Phase::CommitmentList)),
    };
    let senders = commitment_senders(commitments);
    if let Err(f) = check_party_indices(&senders, n) {
        return Err(index_error(f, n, false));
    }
    let mine = shares_addressed_to(share_msgs, my_index);
    if mine.len() != n as usize {
        return Err(KeygenError::ShareCount { expected: n, got: mine.len() });
    }
    let from = incoming_senders(&mine);
    if let Err(f) = check_party_indices(&from, n) {
        return Err(index_error(f, n, true));
    }
    let inputs = decode_shares(&mine)?;
    let agg = aggregate(commitments, threshold, n)?;
    let secret = match collect_secret_inputs(my_index, &inputs) {
        Some(s) => s,
        None => return Err(KeygenError::InvalidShare),
    };
    let key = match agg_shared_key(&agg) {
        Some(k) => k,
        None => return Err(KeygenError::Crypto),
    };
    let paired = match receive_secret_share(&agg, &secret) {
        Some(p) => p,
        None => return Err(KeygenError::InvalidShare),
    };
    if !key_length_nonzero(&key) {
        return Err(KeygenError::Crypto);
    }
    let public_key = match shared_key_public_key(&key) {
        Some(p) => p,
        None => return Err(KeygenError::Crypto),
    };
    let out = FinalKey { secret_share: hex_encode(&paired), public_key: hex_encode(&public_key) };
    store.put(
        KEYGEN_SESSION,
        Phase::FinalShare,
        StoreValue::Share { party_index: my_index, secret: paired },
    );
    store.put(KEYGEN_SESSION, Phase::SharedKey, StoreValue::Blob(key));
    Ok(out)
}

} // verus!
