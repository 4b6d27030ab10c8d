//! The session state store: named artifacts keyed by session and phase.
use vstd::prelude::*;

verus! {

/// The artifact a phase leaves for a later one.
#[derive(Debug, Clone, Copy, PartialEq, Eq, Structural)]
pub enum Phase {
    /// Configuration and contribution of the contribution phase.
    KeygenState,
    /// Outbound secret shares, one per recipient.
    OutboundShares,
    /// The relay blob of all commitments, kept verbatim.
    Commitments,
    /// The commitments that the aggregation phase validated, by sender.
    CommitmentList,
    /// The finalized secret share, with its party index.
    FinalShare,
    /// The group's shared key.
    SharedKey,
    /// A session's private nonce.
    SecretNonce,
    /// A session's aggregated public nonce.
    FinalNonce,
    /// A session's set of public nonces.
    SessionNonces,
}

/// Configuration and private contribution saved by the contribution phase.
#[derive(Debug, Clone, PartialEq, Eq)]
pub struct KeygenState {
    pub my_index: u32,
    pub threshold: u32,
    pub n_parties: u32,
    /// Encoded private contribution (polynomial and proof-of-possession material).
    pub contributor: Vec<u8>,
    /// Party identifiers `1..=n_parties`, in order.
    pub share_indices: Vec<u32>,
}

/// An outbound keygen share: for which party, and its encoded secret value in hex.
#[derive(Debug, Clone, PartialEq, Eq)]
pub struct ShareData {
    pub to_index: u32,
    pub share: String,
}

/// A relayed commitment re-keyed by sender: the hex of its encoding.
#[derive(Debug, Clone, PartialEq, Eq)]
pub struct CommitmentData {
    pub index: u32,
    pub data: String,
}

/// A public nonce of one signer, in hex.
#[derive(Debug, Clone, PartialEq, Eq)]
pub struct NonceData {
    pub index: u32,
    pub nonce: String,
}

/// What the store holds under a key.
#[derive(Debug, Clone, PartialEq, Eq)]
pub enum StoreValue {
    Keygen(KeygenState),
    Shares(Vec<ShareData>),
    Text(String),
    /// A finalized secret share with the party index it belongs to.
    Share { party_index: u32, secret: Vec<u8> },
    Blob(Vec<u8>),
    Nonces(Vec<NonceData>),
    Commitments(Vec<CommitmentData>),
    /// A private nonce that has signed once and must not sign again.
    Spent,
}

/// One stored artifact.
#[derive(Debug, Clone)]
pub struct StoreEntry {
    pub session: String,
    pub phase: Phase,
    pub value: StoreValue,
}

/// Why a read from the store failed.
#[derive(Debug, Clone, PartialEq, Eq)]
pub enum StoreError {
    /// Nothing was stored under this session and phase: the step that writes it has not run.
    Missing(Phase),
}

pub type StoreKey = (Seq<char>, Phase);

pub open spec fn entry_key(e: StoreEntry) -> StoreKey {
    (e.session@, e.phase)
}

/// The map that a log of writes describes: a later write of a key wins.
pub open spec fn entries_map(es: Seq<StoreEntry>) -> Map<StoreKey, StoreValue>
    decreases es.len(),
{
    if es.len() == 0 {
        Map::empty()
    } else {
        entries_map(es.drop_last()).insert(entry_key(es.last()), es.last().value)
    }
}

/// An in-memory store of session artifacts; a backing on disk loads and saves its entries.
pub struct SessionStore {
    entries: Vec<StoreEntry>,
}

impl View for SessionStore {
    type V = Map<StoreKey, StoreValue>;

    closed spec fn view(&self) -> Map<StoreKey, StoreValue> {
        entries_map(self.entries@)
    }
}

impl SessionStore {
    pub fn new() -> (r: SessionStore)
        ensures
            r@ == Map::<StoreKey, StoreValue>::empty(),
    {
        SessionStore { entries: Vec::new() }
    }

    /// Writes `value` under `session` and `phase`, replacing what was there.
    pub fn put(&mut self, session: &str, phase: Phase, value: StoreValue)
        ensures
            final(self)@ == old(self)@.insert((session@, phase), value),
    {
        let e = StoreEntry { session: session.to_string(), phase, value };
        proof {
            vstd::string::to_string_from_display_ensures_for_str(session, e.session);
        }
        self.entries.push(e);
        proof {
            assert(self.entries@.drop_last() =~= old(self).entries@);
        }
    }

    /// Reads what is stored under `session` and `phase`.
    pub fn get(&self, session: &str, phase: Phase) -> (r: Result<&StoreValue, StoreError>)
        ensures
            match r {
                Ok(v) => self@.contains_key((session@, phase)) && *v == self@[(session@, phase)],
                Err(e) => !self@.contains_key((session@, phase)) && e == StoreError::Missing(phase),
            },
    {
        let wanted = session.to_string();
        proof {
            vstd::string::to_string_from_display_ensures_for_str(session, wanted);
            assert(self.entries@.take(self.entries@.len() as int) =~= self.entries@);
        }
        let mut i = self.entries.len();
        while i > 0
            invariant
                i <= self.entries@.len(),
                wanted@ == session@,
                entries_map(self.entries@).contains_key((session@, phase)) == entries_map(
                    self.entries@.take(i as int),
                ).contains_key((session@, phase)),
                entries_map(self.entries@).contains_key((session@, phase)) ==> entries_map(
                    self.entries@,
                )[(session@, phase)] == entries_map(self.entries@.take(i as int))[(session@, phase)],
            decreases i,
        {
            let e = &self.entries[i - 1];
            proof {
                let prefix = self.entries@.take(i as int);
                assert(prefix.drop_last() =~= self.entries@.take(i - 1));
                assert(prefix.last() == *e);
                assert(entries_map(prefix) == entries_map(self.entries@.take(i - 1)).insert(
                    entry_key(*e),
                    e.value,
                ));
            }
            if e.phase == phase && e.session == wanted {
                return Ok(&e.value);
            }
            i = i - 1;
        }
        proof {
            assert(self.entries@.take(0) =~= Seq::<StoreEntry>::empty());
        }
        Err(StoreError::Missing(phase))
    }

    /// The entries, oldest first; where a key repeats, the later entry holds.
    pub fn entries(&self) -> (r: &Vec<StoreEntry>)
        ensures
            entries_map(r@) == self@,
    {
        &self.entries
    }

    /// A store that holds the given entries, the later of two with one key holding.
    pub fn from_entries(entries: Vec<StoreEntry>) -> (r: SessionStore)
        ensures
            r@ == entries_map(entries@),
    {
        SessionStore { entries }
    }
}

} // verus!
