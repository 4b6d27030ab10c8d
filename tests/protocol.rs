use schnorr_fun::fun::marker::EvenY;
use schnorr_fun::fun::Point;
use schnorr_fun::{Message, Signature};
use yushan::keygen::{finalize, round1, round2, KeygenError, Round1Output, Round2Output};
use yushan::signing::{
    combine_signatures, create_signature_share, generate_nonce, SigningError, MESSAGE_TAG,
};
use yushan::store::{Phase, SessionStore, StoreValue};

fn blob_of(outs: &[Round1Output]) -> String {
    outs.iter()
        .map(|o| {
            format!(
                "{{\"party_index\":{},\"keygen_input\":\"{}\",\"type\":\"{}\"}}",
                o.party_index, o.keygen_input, o.event_type
            )
        })
        .collect::<Vec<_>>()
        .join(" ")
}

/// Runs key generation for parties 1..=3 with threshold 2 up to the share exchange.
fn run_to_shares() -> (Vec<SessionStore>, Vec<Round1Output>, Vec<Round2Output>) {
    let mut stores: Vec<SessionStore> = (0..3).map(|_| SessionStore::new()).collect();
    let commitments: Vec<Round1Output> =
        (1..=3u32).map(|i| round1(&mut stores[i as usize - 1], 2, 3, i).unwrap()).collect();
    let blob = blob_of(&commitments);
    let share_msgs: Vec<Round2Output> =
        stores.iter_mut().map(|s| round2(s, &commitments, &blob).unwrap()).collect();
    (stores, commitments, share_msgs)
}

fn run_keygen() -> (Vec<SessionStore>, Vec<String>) {
    let (mut stores, _, share_msgs) = run_to_shares();
    let keys = stores
        .iter_mut()
        .map(|s| finalize(s, &share_msgs).unwrap().public_key)
        .collect();
    (stores, keys)
}

#[test]
fn round1_rejects_bad_configuration_before_touching_the_store() {
    let mut s = SessionStore::new();
    assert_eq!(round1(&mut s, 3, 2, 1).unwrap_err(), KeygenError::ThresholdOutOfRange);
    assert_eq!(round1(&mut s, 0, 2, 1).unwrap_err(), KeygenError::ThresholdOutOfRange);
    assert_eq!(round1(&mut s, 2, 3, 0).unwrap_err(), KeygenError::IndexOutOfRange);
    assert_eq!(round1(&mut s, 2, 3, 4).unwrap_err(), KeygenError::IndexOutOfRange);
    assert!(s.entries().is_empty());
}

#[test]
fn round1_keeps_state_and_one_share_per_party() {
    let mut s = SessionStore::new();
    let out = round1(&mut s, 2, 3, 2).unwrap();
    assert_eq!(out.party_index, 2);
    assert_eq!(out.event_type, "keygen_round1");
    assert!(!out.keygen_input.is_empty());
    assert!(out.keygen_input.len() % 2 == 0);
    assert!(out.keygen_input.chars().all(|c| c.is_ascii_hexdigit() && !c.is_ascii_uppercase()));
    match s.get("keygen", Phase::KeygenState).unwrap() {
        StoreValue::Keygen(st) => {
            assert_eq!((st.my_index, st.threshold, st.n_parties), (2, 2, 3));
            assert_eq!(st.share_indices, vec![1, 2, 3]);
        }
        other => panic!("unexpected {:?}", other),
    }
    match s.get("keygen", Phase::OutboundShares).unwrap() {
        StoreValue::Shares(v) => {
            assert_eq!(v.iter().map(|d| d.to_index).collect::<Vec<_>>(), vec![1, 2, 3]);
        }
        other => panic!("unexpected {:?}", other),
    }
}

#[test]
fn round2_without_round1_names_the_missing_step() {
    let mut s = SessionStore::new();
    assert_eq!(
        round2(&mut s, &Vec::new(), "").unwrap_err(),
        KeygenError::Missing(Phase::KeygenState)
    );
}

#[test]
fn round2_rejects_duplicate_out_of_range_and_missing_parties() {
    let mut s = SessionStore::new();
    let c1 = round1(&mut s, 2, 3, 1).unwrap();
    let mut dup = c1.clone();
    dup.party_index = 1;
    let mut far = c1.clone();
    far.party_index = 4;
    assert_eq!(
        round2(&mut s, &vec![c1.clone(), dup], "").unwrap_err(),
        KeygenError::DuplicateParty(1)
    );
    assert_eq!(
        round2(&mut s, &vec![c1.clone(), far], "").unwrap_err(),
        KeygenError::PartyOutOfRange(4)
    );
    assert_eq!(
        round2(&mut s, &vec![c1.clone()], "").unwrap_err(),
        KeygenError::CommitmentCount { expected: 3, got: 1 }
    );
    assert!(s.get("keygen", Phase::Commitments).is_err());
}

#[test]
fn round2_rejects_undecodable_commitment() {
    let mut stores: Vec<SessionStore> = (0..3).map(|_| SessionStore::new()).collect();
    let mut cs: Vec<Round1Output> =
        (1..=3u32).map(|i| round1(&mut stores[i as usize - 1], 2, 3, i).unwrap()).collect();
    cs[1].keygen_input = "zz".to_string();
    assert_eq!(
        round2(&mut stores[0], &cs, "").unwrap_err(),
        KeygenError::UndecodableCommitment(2)
    );
}

#[test]
fn round2_rejects_commitment_with_bad_proof() {
    let mut stores: Vec<SessionStore> = (0..3).map(|_| SessionStore::new()).collect();
    let mut cs: Vec<Round1Output> =
        (1..=3u32).map(|i| round1(&mut stores[i as usize - 1], 2, 3, i).unwrap()).collect();
    let mut bytes = hex::decode(&cs[2].keygen_input).unwrap();
    let last = bytes.len() - 1;
    bytes[last] ^= 1;
    cs[2].keygen_input = hex::encode(bytes);
    let r = round2(&mut stores[0], &cs, "").unwrap_err();
    assert_eq!(r, KeygenError::InvalidCommitment(3));
}

#[test]
fn all_parties_derive_the_same_group_key() {
    let (_, keys) = run_keygen();
    assert_eq!(keys.len(), 3);
    assert!(!keys[0].is_empty());
    assert_eq!(keys[0], keys[1]);
    assert_eq!(keys[1], keys[2]);
}

#[test]
fn round2_keeps_the_relay_blob_verbatim() {
    let (stores, commitments, share_msgs) = run_to_shares();
    let blob = blob_of(&commitments);
    assert_eq!(stores[0].get("keygen", Phase::Commitments), Ok(&StoreValue::Text(blob)));
    assert_eq!(share_msgs[0].event_type, "keygen_round2");
    assert_eq!(share_msgs[1].party_index, 2);
    assert_eq!(share_msgs[1].shares.len(), 3);
}

#[test]
fn finalize_with_shares_for_another_index_is_a_count_mismatch() {
    let (mut stores, _, mut share_msgs) = run_to_shares();
    for m in share_msgs.iter_mut() {
        for s in m.shares.iter_mut() {
            s.to_index += 10;
        }
    }
    assert_eq!(
        finalize(&mut stores[0], &share_msgs).unwrap_err(),
        KeygenError::ShareCount { expected: 3, got: 0 }
    );
    assert!(stores[0].get("keygen", Phase::FinalShare).is_err());
}

#[test]
fn finalize_with_a_swapped_share_fails_validation() {
    let (mut stores, _, mut share_msgs) = run_to_shares();
    let other = share_msgs[1].shares[1].share.clone();
    share_msgs[1].shares[0].share = other;
    assert_eq!(
        finalize(&mut stores[0], &share_msgs).unwrap_err(),
        KeygenError::InvalidShare
    );
}

#[test]
fn nonce_before_finalize_names_the_missing_step() {
    let mut s = SessionStore::new();
    assert_eq!(
        generate_nonce(&mut s, "s").unwrap_err(),
        SigningError::Missing(Phase::FinalShare)
    );
}

fn sign_with_two(stores: &mut [SessionStore], session: &str, message: &str) -> Vec<yushan::signing::SignatureShareOutput> {
    let nonces: Vec<_> = stores[..2].iter_mut().map(|s| generate_nonce(s, session).unwrap()).collect();
    assert_eq!(nonces[1].party_index, 2);
    assert_eq!(nonces[0].event_type, "signing_nonce");
    stores[..2]
        .iter_mut()
        .map(|s| create_signature_share(s, session, message, &nonces).unwrap())
        .collect()
}

#[test]
fn two_of_three_signature_verifies_under_group_key() {
    let (mut stores, keys) = run_keygen();
    let shares = sign_with_two(&mut stores, "session-1", "hello frost");
    assert_eq!(shares[0].event_type, "signing_share");
    assert_eq!(shares[1].message, "hello frost");
    let combined = combine_signatures(&stores[0], &shares).unwrap();
    assert_eq!(combined.public_key, keys[0]);
    assert_eq!(combined.message, "hello frost");
    let sig: Signature = bincode::deserialize(&hex::decode(&combined.signature).unwrap()).unwrap();
    let pk: Point<EvenY> = bincode::deserialize(&hex::decode(&combined.public_key).unwrap()).unwrap();
    let schnorr = schnorr_fun::new_with_deterministic_nonces::<sha2::Sha256>();
    assert!(schnorr.verify(&pk, Message::new(MESSAGE_TAG, b"hello frost"), &sig));
    assert!(!schnorr.verify(&pk, Message::new(MESSAGE_TAG, b"another"), &sig));
}

#[test]
fn tampered_signature_share_is_rejected() {
    let (mut stores, _) = run_keygen();
    let mut shares = sign_with_two(&mut stores, "session-2", "msg");
    let mut bytes = hex::decode(&shares[1].signature_share).unwrap();
    let last = bytes.len() - 1;
    bytes[last] ^= 1;
    shares[1].signature_share = hex::encode(bytes);
    assert_eq!(combine_signatures(&stores[0], &shares).unwrap_err(), SigningError::InvalidShares);
}

#[test]
fn combine_needs_shares_and_session_state() {
    let (stores, _) = run_keygen();
    assert_eq!(combine_signatures(&stores[0], &Vec::new()).unwrap_err(), SigningError::NoShares);
    let fake = yushan::signing::SignatureShareOutput {
        party_index: 1,
        session: "unknown".to_string(),
        message: "m".to_string(),
        signature_share: "00".to_string(),
        event_type: "signing_share".to_string(),
    };
    assert_eq!(
        combine_signatures(&stores[0], &vec![fake]).unwrap_err(),
        SigningError::Missing(Phase::FinalNonce)
    );
}

#[test]
fn signer_must_be_among_the_nonces() {
    let (mut stores, _) = run_keygen();
    let n1 = generate_nonce(&mut stores[0], "s3").unwrap();
    let n2 = generate_nonce(&mut stores[1], "s3").unwrap();
    generate_nonce(&mut stores[2], "s3").unwrap();
    assert_eq!(
        create_signature_share(&mut stores[2], "s3", "m", &vec![n1.clone(), n2]).unwrap_err(),
        SigningError::NotASigner(3)
    );
    assert_eq!(
        create_signature_share(&mut stores[0], "s3", "m", &vec![n1.clone(), n1.clone()]).unwrap_err(),
        SigningError::DuplicateParty(1)
    );
    assert_eq!(
        create_signature_share(&mut stores[0], "s3", "m", &vec![n1]).unwrap_err(),
        SigningError::NotEnoughNonces { needed: 2, got: 1 }
    );
}

#[test]
fn signing_without_nonce_names_the_missing_step() {
    let (mut stores, _) = run_keygen();
    assert_eq!(
        create_signature_share(&mut stores[0], "none", "m", &Vec::new()).unwrap_err(),
        SigningError::Missing(Phase::SecretNonce)
    );
}

#[test]
fn second_nonce_generation_overwrites_the_first() {
    let (mut stores, _) = run_keygen();
    let first_pub = generate_nonce(&mut stores[0], "again").unwrap();
    let first = stores[0].get("again", Phase::SecretNonce).unwrap().clone();
    let second_pub = generate_nonce(&mut stores[0], "again").unwrap();
    let second = stores[0].get("again", Phase::SecretNonce).unwrap().clone();
    assert_ne!(first, second);
    assert_ne!(first_pub.nonce, second_pub.nonce);
    let held: Vec<_> = stores[0]
        .entries()
        .iter()
        .filter(|e| e.session == "again" && e.phase == Phase::SecretNonce)
        .map(|e| e.value.clone())
        .collect();
    assert_eq!(held.last(), Some(&second));
}

#[test]
fn wrong_kind_of_stored_state_is_reported() {
    let mut s = SessionStore::new();
    s.put("keygen", Phase::KeygenState, StoreValue::Text("x".to_string()));
    assert_eq!(
        round2(&mut s, &Vec::new(), "").unwrap_err(),
        KeygenError::CorruptState(Phase::KeygenState)
    );
    s.put("keygen", Phase::FinalShare, StoreValue::Blob(vec![1]));
    assert_eq!(
        generate_nonce(&mut s, "x").unwrap_err(),
        SigningError::CorruptState(Phase::FinalShare)
    );
}

#[test]
fn undecodable_keygen_share_names_its_sender() {
    let (mut stores, _, mut share_msgs) = run_to_shares();
    share_msgs[2].shares[0].share = "not hex".to_string();
    assert_eq!(
        finalize(&mut stores[0], &share_msgs).unwrap_err(),
        KeygenError::UndecodableShare(3)
    );
}

#[test]
fn duplicate_share_sender_is_rejected() {
    let (mut stores, _, mut share_msgs) = run_to_shares();
    share_msgs[2].party_index = 2;
    assert_eq!(
        finalize(&mut stores[0], &share_msgs).unwrap_err(),
        KeygenError::DuplicateParty(2)
    );
}

#[test]
fn signing_input_errors_are_named() {
    let (mut stores, _) = run_keygen();
    let n1 = generate_nonce(&mut stores[0], "s4").unwrap();
    let mut n2 = generate_nonce(&mut stores[1], "s4").unwrap();
    let mut zero = n2.clone();
    zero.party_index = 0;
    assert_eq!(
        create_signature_share(&mut stores[0], "s4", "m", &vec![n1.clone(), zero]).unwrap_err(),
        SigningError::ZeroParty
    );
    n2.nonce = "xyz".to_string();
    assert_eq!(
        create_signature_share(&mut stores[0], "s4", "m", &vec![n1, n2]).unwrap_err(),
        SigningError::UndecodableNonce(2)
    );
}

#[test]
fn share_of_another_key_is_a_mismatch() {
    let (mut stores, _) = run_keygen();
    let (others, _) = run_keygen();
    let foreign = others[0].get("keygen", Phase::SharedKey).unwrap().clone();
    let n1 = generate_nonce(&mut stores[0], "s5").unwrap();
    let n2 = generate_nonce(&mut stores[1], "s5").unwrap();
    stores[0].put("keygen", Phase::SharedKey, foreign);
    assert_eq!(
        create_signature_share(&mut stores[0], "s5", "m", &vec![n1, n2]).unwrap_err(),
        SigningError::KeyMismatch
    );
}

#[test]
fn undecodable_signature_share_names_its_sender() {
    let (mut stores, _) = run_keygen();
    let mut shares = sign_with_two(&mut stores, "s6", "m");
    shares[0].signature_share = "q".to_string();
    assert_eq!(
        combine_signatures(&stores[0], &shares).unwrap_err(),
        SigningError::UndecodableShare(1)
    );
}

#[test]
fn signature_shares_from_parties_two_and_three_also_combine() {
    let (mut stores, keys) = run_keygen();
    let nonces: Vec<_> = stores[1..].iter_mut().map(|s| generate_nonce(s, "s7").unwrap()).collect();
    let shares: Vec<_> = stores[1..]
        .iter_mut()
        .map(|s| create_signature_share(s, "s7", "other signers", &nonces).unwrap())
        .collect();
    let combined = combine_signatures(&stores[2], &shares).unwrap();
    assert_eq!(combined.public_key, keys[2]);
}

#[test]
fn empty_shared_key_encoding_is_refused_without_panic() {
    let (mut stores, _) = run_keygen();
    let n1 = generate_nonce(&mut stores[0], "s8").unwrap();
    let n2 = generate_nonce(&mut stores[1], "s8").unwrap();
    stores[0].put("keygen", Phase::SharedKey, StoreValue::Blob(vec![0; 8]));
    assert_eq!(
        create_signature_share(&mut stores[0], "s8", "m", &vec![n1, n2]).unwrap_err(),
        SigningError::CorruptState(Phase::SharedKey)
    );
}

#[test]
fn commitments_in_another_relay_order_give_the_same_key() {
    let mut stores: Vec<SessionStore> = (0..3).map(|_| SessionStore::new()).collect();
    let commitments: Vec<Round1Output> =
        (1..=3u32).map(|i| round1(&mut stores[i as usize - 1], 2, 3, i).unwrap()).collect();
    let mut reversed = commitments.clone();
    reversed.reverse();
    let blob = blob_of(&commitments);
    let share_msgs: Vec<Round2Output> = stores
        .iter_mut()
        .enumerate()
        .map(|(i, s)| round2(s, if i == 1 { &reversed } else { &commitments }, &blob).unwrap())
        .collect();
    let keys: Vec<String> =
        stores.iter_mut().map(|s| finalize(s, &share_msgs).unwrap().public_key).collect();
    assert_eq!(keys[0], keys[1]);
    assert_eq!(keys[1], keys[2]);
}

#[test]
fn finalize_before_round2_names_the_missing_step() {
    let mut s = SessionStore::new();
    round1(&mut s, 2, 3, 1).unwrap();
    assert_eq!(
        finalize(&mut s, &Vec::new()).unwrap_err(),
        KeygenError::Missing(Phase::CommitmentList)
    );
}

#[test]
fn a_private_nonce_signs_only_once() {
    let (mut stores, _) = run_keygen();
    let nonces: Vec<_> = stores[..2].iter_mut().map(|s| generate_nonce(s, "s9").unwrap()).collect();
    create_signature_share(&mut stores[0], "s9", "first", &nonces).unwrap();
    assert_eq!(stores[0].get("s9", Phase::SecretNonce), Ok(&StoreValue::Spent));
    assert_eq!(
        create_signature_share(&mut stores[0], "s9", "second", &nonces).unwrap_err(),
        SigningError::NonceReused
    );
    let fresh = generate_nonce(&mut stores[0], "s9").unwrap();
    let nonces = vec![fresh, nonces[1].clone()];
    assert!(create_signature_share(&mut stores[0], "s9", "second", &nonces).is_ok());
}
