//! Writing a proof party's state for the disk and starting from it again.

use vstd::prelude::*;
use crate::application_crypto::SigningKey;
use crate::bytes::{copied, same, same32, zero32};
use crate::digest_map::DigestMap;
use crate::fields::{either, first, unless};
use crate::proof_config::ProofPartyConfig;
use crate::proof_dkg::{DirectedEnvelope, PendingDkgRound1, PendingDkgRound2, PqFacts, QuorumMember, QuorumPolicy};
use crate::proof_durable::{
    canonical_evidence, decode_evidence, decode_pairs, decode_set, encode_evidence, encode_pairs, encode_set,
    evidence_refusal, evidence_round_trip, evidence_said, evidence_written, hex32_of, ids_refusal, ids_round_trip,
    ids_said, ids_written, is_map, option_of, option_refusal, option_said, option_text, option_written, pair_refusal,
    pairs_map, pairs_refusal, pairs_round_trip, pairs_written, same_digest, same_digests, same_evidence,
    DurableEvidence, TextPair,
};
use crate::proof_mandate::refused;
use crate::proof_params::MAX_WIRE_BYTES;
use crate::oracle::checks_signatures;
use crate::proof_peers::{
    by_party, entries_of, is_hex_of, manifest, manifest_refusal, manifest_text, FrostPeerEntry, OwnKeys, PeerFacts,
    PendingPeers, ProposedPeer,
};
use crate::proof_state::{apart, within, FrostKey, ProofParty, MAX_COMPLETED_EVIDENCE};
use crate::digest::sha256;
use crate::text::{
    base64_bytes, base64_decode, base64_encode, hex_bytes, hex_encode, hex_round_trip, hex_text, same_text,
};

verus! {

/// The version of the stored state.
pub const STATE_VERSION: u8 = 6;

/// The private seeds of a node.
#[derive(Debug)]
pub struct Seeds {
    pub identity: Vec<u8>,
    pub application: Vec<u8>,
    pub exchange: Vec<u8>,
    pub pq: Vec<u8>,
}

/// An identity attestation that was made.
#[derive(Debug)]
pub struct CachedAttestation {
    pub id: [u8; 32],
    pub signature: Vec<u8>,
}

/// The confirmed committee.
#[derive(Debug)]
pub struct DurableFrostPeerManifest {
    pub session: String,
    pub entries: Vec<FrostPeerEntry>,
}

/// The first round of key generation.
#[derive(Debug)]
pub struct DurableFrostDkgRound1 {
    pub secret_package: String,
    pub broadcast_package: String,
}

/// A directed package.
#[derive(Debug)]
pub struct DurableEnvelope {
    pub sender: u16,
    pub recipient: u16,
    pub envelope: Option<String>,
}

/// The second round of key generation.
#[derive(Debug)]
pub struct DurableFrostDkgRound2 {
    pub session: String,
    pub entries: Vec<FrostPeerEntry>,
    pub round1_package: String,
    pub secret_package: String,
    pub broadcasts_digest: String,
    pub encrypted: Vec<DurableEnvelope>,
}

/// The stored state.
#[derive(Debug)]
pub struct DurableProofState {
    pub version: u8,
    pub generation: u64,
    /// Binds every security-relevant setting to the encrypted key state: a share
    /// is not used after circuit widths or the proof mode were changed.
    pub proof_configuration_digest: String,
    pub node: u16,
    pub n_mm: usize,
    pub n_parties: usize,
    pub threshold: usize,
    pub trusted_defmi_receipt_public: Option<String>,
    pub identity_private: String,
    pub application_private: String,
    pub exchange_private: String,
    pub pq_private: String,
    pub pq_key: Vec<u8>,
    pub pq_committee: Option<QuorumPolicy>,
    pub pq_identity_cache: Vec<CachedAttestation>,
    pub frost_session: Option<String>,
    pub frost_key_package: Option<String>,
    pub frost_public_package: Option<String>,
    pub frost_dkg_finalize_digest: Option<String>,
    pub frost_peer_manifest: Option<DurableFrostPeerManifest>,
    pub frost_dkg_round1: Option<DurableFrostDkgRound1>,
    pub frost_dkg_round2: Option<DurableFrostDkgRound2>,
    /// Reserved before a commitment leaves the node. A crash burns the job.
    pub frost_reserved: Vec<String>,
    pub frost_consumed: Vec<String>,
    pub frost_authorized: Vec<TextPair>,
    pub publication_consumed: Vec<String>,
    /// Reserved before proof evaluations leave the node.
    pub proof_reserved: Vec<String>,
    pub proof_completed: Vec<String>,
    pub completed_evidence: Vec<DurableEvidence>,
    pub application_controls: Vec<TextPair>,
}

/// What was found of a stored state's packages and keys.
#[derive(Debug)]
pub struct RestoreFacts {
    /// Whether the secret and the broadcast of a stored first round are packages.
    pub round1_secret: bool,
    pub round1_broadcast: bool,
    /// Whether the secret and the broadcast of a stored second round are packages.
    pub round2_secret: bool,
    pub round2_broadcast: bool,
    /// Whether each stored envelope is one.
    pub envelopes: Vec<bool>,
    /// Whether the stored key packages are packages.
    pub key_package: bool,
    pub public_package: bool,
    /// What was found of each stored peer's keys.
    pub peers: Vec<PeerFacts>,
    pub keys: OwnKeys,
    pub identity_public: [u8; 32],
    pub application_identity: SigningKey,
    pub pq: PqFacts,
}

/// Why a state is not one of this node and configuration.
pub open spec fn owner_refusal(state: DurableProofState, config: ProofPartyConfig) -> Option<Seq<char>> {
    let receipt_key_kept = match config.trusted_defmi_receipt_public {
        None => state.trusted_defmi_receipt_public is None,
        Some(key) => state.trusted_defmi_receipt_public is Some && hex_bytes(
            (state.trusted_defmi_receipt_public->0)@,
        ) == key@,
    };
    either(option_refusal(state.trusted_defmi_receipt_public, "stored DeFMI receipt key is malformed"@),
    either(unless(is_hex_of(state.proof_configuration_digest@, 32),
        "stored proof-party security configuration is malformed"@),
    unless(state.node == config.node && state.n_mm == config.n_mm && state.n_parties == config.n_parties
        && state.threshold == config.threshold && receipt_key_kept
        && hex_bytes(state.proof_configuration_digest@) == sha256(config.security_message()),
        "proof-party state belongs to another node or security configuration"@)))
}

fn check_owner(state: &DurableProofState, config: &ProofPartyConfig) -> (r: Result<(), String>)
    ensures
        match r {
            Ok(_) => owner_refusal(*state, *config) is None,
            Err(e) => owner_refusal(*state, *config) == Some(e@),
        },
{
    let receipt_key = match option_of(&state.trusted_defmi_receipt_public, "stored DeFMI receipt key is malformed") {
        Err(e) => {
            return Err(e);
        },
        Ok(value) => value,
    };
    let stored = match hex32_of(state.proof_configuration_digest.as_str(),
        "stored proof-party security configuration is malformed") {
        Err(e) => {
            return Err(e);
        },
        Ok(value) => value,
    };
    let kept = match (&config.trusted_defmi_receipt_public, &receipt_key) {
        (None, None) => true,
        (Some(a), Some(b)) => same32(a, b),
        _ => false,
    };
    let current = config.security_digest();
    if state.node != config.node || state.n_mm != config.n_mm || state.n_parties != config.n_parties || state.threshold
        != config.threshold || !kept || !same32(&stored, &current) {
        return Err("proof-party state belongs to another node or security configuration".to_owned());
    }
    Ok(())
}

/// Why a base64 text with a package is refused.
pub open spec fn package_refusal(text: Seq<char>, package: bool, complaint: Seq<char>) -> Option<Seq<char>> {
    unless(base64_bytes(text) is Some && package, complaint)
}

/// Why a stored broadcast is refused.
pub open spec fn stored_broadcast_refusal(text: Seq<char>, package: bool) -> Option<Seq<char>> {
    let raw = base64_bytes(text);
    either(
        unless(raw is Some, "stored FROST round-one broadcast is malformed"@),
        either(
            unless(0 < (raw->0).len() <= MAX_WIRE_BYTES, "stored FROST round-one broadcast exceeds its bound"@),
            unless(package, "stored FROST round-one broadcast is malformed"@),
        ),
    )
}

fn read_broadcast(text: &str, package: bool) -> (r: Result<Vec<u8>, String>)
    ensures
        match r {
            Ok(raw) => stored_broadcast_refusal(text@, package) is None && base64_bytes(text@) == Some(raw@),
            Err(e) => stored_broadcast_refusal(text@, package) == Some(e@),
        },
{
    let raw = match base64_decode(text) {
        None => {
            return Err("stored FROST round-one broadcast is malformed".to_owned());
        },
        Some(value) => value,
    };
    if raw.len() == 0 || raw.len() > MAX_WIRE_BYTES {
        return Err("stored FROST round-one broadcast exceeds its bound".to_owned());
    }
    if !package {
        return Err("stored FROST round-one broadcast is malformed".to_owned());
    }
    Ok(raw)
}

/// Why a stored first round is refused.
pub open spec fn round1_refusal(stored: Option<DurableFrostDkgRound1>, facts: RestoreFacts) -> Option<Seq<char>> {
    match stored {
        None => None,
        Some(round) => either(
            package_refusal(
                round.secret_package@,
                facts.round1_secret,
                "stored FROST round-one secret is malformed"@,
            ),
            stored_broadcast_refusal(round.broadcast_package@, facts.round1_broadcast),
        ),
    }
}

/// Whether a first round is the stored one.
pub open spec fn round1_said(stored: Option<DurableFrostDkgRound1>, round: Option<PendingDkgRound1>) -> bool {
    match stored {
        None => round is None,
        Some(s) => {
            &&& round is Some
            &&& base64_bytes(s.secret_package@) == Some((round->0).secret@)
            &&& base64_bytes(s.broadcast_package@) == Some((round->0).broadcast_package@)
        },
    }
}

fn read_round1(stored: &Option<DurableFrostDkgRound1>, facts: &RestoreFacts) -> (r: Result<
    Option<PendingDkgRound1>,
    String,
>)
    ensures
        match r {
            Ok(round) => round1_refusal(*stored, *facts) is None && round1_said(*stored, round),
            Err(e) => round1_refusal(*stored, *facts) == Some(e@),
        },
{
    match stored {
        None => Ok(None),
        Some(s) => {
            let secret = match base64_decode(s.secret_package.as_str()) {
                None => {
                    return Err("stored FROST round-one secret is malformed".to_owned());
                },
                Some(value) => value,
            };
            if !facts.round1_secret {
                return Err("stored FROST round-one secret is malformed".to_owned());
            }
            let broadcast_package = match read_broadcast(s.broadcast_package.as_str(), facts.round1_broadcast) {
                Err(e) => {
                    return Err(e);
                },
                Ok(value) => value,
            };
            Ok(Some(PendingDkgRound1 { secret, broadcast_package }))
        },
    }
}

/// Why the first `count` stored envelopes are refused.
pub open spec fn envelopes_refusal(stored: Seq<DurableEnvelope>, known: Seq<bool>, count: nat) -> Option<Seq<char>>
    decreases count,
{
    if count == 0 || count > stored.len() {
        None
    } else {
        let text = stored[count - 1].envelope;
        either(
            envelopes_refusal(stored, known, (count - 1) as nat),
            either(
                unless(text is Some, "stored FROST winner envelope is absent"@),
                either(
                    unless(base64_bytes((text->0)@) is Some, "stored FROST winner envelope is malformed"@),
                    unless(known[count - 1], "stored FROST round two requires winner-envelope v3"@),
                ),
            ),
        )
    }
}

proof fn envelopes_refused(stored: Seq<DurableEnvelope>, known: Seq<bool>, at: nat, count: nat)
    requires
        at <= count <= stored.len(),
        envelopes_refusal(stored, known, at) is Some,
    ensures
        envelopes_refusal(stored, known, count) == envelopes_refusal(stored, known, at),
    decreases count,
{
    if at < count {
        envelopes_refused(stored, known, at, (count - 1) as nat);
    }
}

/// Whether directed packages are the stored ones.
pub open spec fn envelopes_said(stored: Seq<DurableEnvelope>, read: Seq<DirectedEnvelope>) -> bool {
    &&& read.len() == stored.len()
    &&& forall|i: int| #![trigger read[i]] 0 <= i < read.len() ==> envelope_said(stored[i], read[i])
}

/// Whether a directed package is the stored one.
pub open spec fn envelope_said(stored: DurableEnvelope, read: DirectedEnvelope) -> bool {
    &&& read.sender == stored.sender
    &&& read.recipient == stored.recipient
    &&& stored.envelope is Some
    &&& base64_bytes((stored.envelope->0)@) == Some(read.envelope@)
}

#[verifier::loop_isolation(false)]
fn read_envelopes(stored: &Vec<DurableEnvelope>, known: &Vec<bool>) -> (r: Result<Vec<DirectedEnvelope>, String>)
    requires
        stored@.len() <= known@.len(),
    ensures
        match r {
            Ok(read) => envelopes_refusal(stored@, known@, stored@.len()) is None && envelopes_said(stored@, read@),
            Err(e) => envelopes_refusal(stored@, known@, stored@.len()) == Some(e@),
        },
{
    let mut read: Vec<DirectedEnvelope> = Vec::new();
    let mut i: usize = 0;
    while i < stored.len()
        invariant
            i <= stored@.len(),
            read@.len() == i,
            envelopes_refusal(stored@, known@, i as nat) is None,
            forall|j: int| #![trigger read@[j]] 0 <= j < i ==> envelope_said(stored@[j], read@[j]),
        decreases stored@.len() - i,
    {
        let ghost told_at = envelopes_refusal(stored@, known@, (i + 1) as nat);
        proof {
            if told_at is Some {
                envelopes_refused(stored@, known@, (i + 1) as nat, stored@.len());
            }
        }
        let text = match &stored[i].envelope {
            None => {
                return Err("stored FROST winner envelope is absent".to_owned());
            },
            Some(value) => value,
        };
        let envelope = match base64_decode(text.as_str()) {
            None => {
                return Err("stored FROST winner envelope is malformed".to_owned());
            },
            Some(value) => value,
        };
        if !known[i] {
            return Err("stored FROST round two requires winner-envelope v3".to_owned());
        }
        read.push(DirectedEnvelope { sender: stored[i].sender, recipient: stored[i].recipient, envelope });
        i = i + 1;
    }
    Ok(read)
}

/// Why a stored second round is refused.
pub open spec fn round2_refusal(
    stored: Option<DurableFrostDkgRound2>,
    facts: RestoreFacts,
    parties: nat,
) -> Option<Seq<char>> {
    match stored {
        None => None,
        Some(round) => {
            either(unless(is_hex_of(round.session@, 32), "stored FROST pending session is malformed"@),
            either(package_refusal(round.secret_package@, facts.round2_secret,
                "stored FROST round-two secret is malformed"@),
            either(stored_broadcast_refusal(round.round1_package@, facts.round2_broadcast),
            either(unless(is_hex_of(round.broadcasts_digest@, 32), "stored FROST broadcasts digest is malformed"@),
            either(unless(round.encrypted@.len() + 1 == parties, "stored FROST encrypted package set is incomplete"@),
            envelopes_refusal(round.encrypted@, facts.envelopes@, round.encrypted@.len()))))))
        },
    }
}

/// Whether a second round is the stored one.
pub open spec fn round2_said(stored: Option<DurableFrostDkgRound2>, round: Option<PendingDkgRound2>) -> bool {
    match stored {
        None => round is None,
        Some(s) => {
            &&& round is Some
            &&& base64_bytes(s.secret_package@) == Some((round->0).secret@)
            &&& base64_bytes(s.round1_package@) == Some((round->0).round1_package@)
            &&& (round->0).broadcasts_digest@ == hex_bytes(s.broadcasts_digest@)
            &&& envelopes_said(s.encrypted@, (round->0).encrypted@)
        },
    }
}

fn read_round2(stored: &Option<DurableFrostDkgRound2>, facts: &RestoreFacts, parties: usize) -> (r: Result<
    Option<PendingDkgRound2>,
    String,
>)
    requires
        stored matches Some(s) ==> s.encrypted@.len() <= facts.envelopes@.len() || s.encrypted@.len() + 1 != parties,
    ensures
        match r {
            Ok(round) => round2_refusal(*stored, *facts, parties as nat) is None && round2_said(*stored, round),
            Err(e) => round2_refusal(*stored, *facts, parties as nat) == Some(e@),
        },
{
    match stored {
        None => Ok(None),
        Some(s) => {
            if let Err(e) = hex32_of(s.session.as_str(), "stored FROST pending session is malformed") {
                return Err(e);
            }
            let secret = match base64_decode(s.secret_package.as_str()) {
                None => {
                    return Err("stored FROST round-two secret is malformed".to_owned());
                },
                Some(value) => value,
            };
            if !facts.round2_secret {
                return Err("stored FROST round-two secret is malformed".to_owned());
            }
            let round1_package = match read_broadcast(s.round1_package.as_str(), facts.round2_broadcast) {
                Err(e) => {
                    return Err(e);
                },
                Ok(value) => value,
            };
            let broadcasts_digest = match hex32_of(s.broadcasts_digest.as_str(),
                "stored FROST broadcasts digest is malformed") {
                Err(e) => {
                    return Err(e);
                },
                Ok(value) => value,
            };
            if parties == 0 || s.encrypted.len() != parties - 1 {
                return Err("stored FROST encrypted package set is incomplete".to_owned());
            }
            let encrypted = match read_envelopes(&s.encrypted, &facts.envelopes) {
                Err(e) => {
                    return Err(e);
                },
                Ok(value) => value,
            };
            Ok(Some(PendingDkgRound2 { secret, round1_package, broadcasts_digest, encrypted }))
        },
    }
}

/// Whether two lists of peers say the same.
pub open spec fn same_entries(a: Seq<FrostPeerEntry>, b: Seq<FrostPeerEntry>) -> bool {
    &&& a.len() == b.len()
    &&& forall|i: int| #![trigger a[i]] 0 <= i < a.len() ==> a[i].alike(b[i])
}

fn entries_equal(a: &Vec<FrostPeerEntry>, b: &Vec<FrostPeerEntry>) -> (r: bool)
    ensures
        r == same_entries(a@, b@),
{
    if a.len() != b.len() {
        return false;
    }
    let mut i: usize = 0;
    while i < a.len()
        invariant
            i <= a@.len(),
            a@.len() == b@.len(),
            forall|j: int| #![trigger a@[j]] 0 <= j < i ==> a@[j].alike(b@[j]),
        decreases a@.len() - i,
    {
        let x = &a[i];
        let y = &b[i];
        if x.party != y.party || !same_text(x.identity_public.as_str(), y.identity_public.as_str()) || !same(
            x.exchange_suite.as_slice(),
            y.exchange_suite.as_slice(),
        ) || !same_text(x.exchange_public.as_str(), y.exchange_public.as_str()) || !same_text(
            x.self_signature.as_str(),
            y.self_signature.as_str(),
        ) || !same(x.pq_key.as_slice(), y.pq_key.as_slice()) || !same_text(
            x.pq_self_signature.as_str(),
            y.pq_self_signature.as_str(),
        ) {
            assert(!a@[i as int].alike(b@[i as int]));
            return false;
        }
        i = i + 1;
    }
    true
}

/// Why a stored manifest is refused before its peers are checked.
pub open spec fn stored_manifest_refusal(stored: Option<DurableFrostPeerManifest>, parties: nat) -> Option<Seq<char>> {
    match stored {
        None => None,
        Some(m) => either(
            unless(is_hex_of(m.session@, 32), "stored FROST pending session is malformed"@),
            unless(m.entries@.len() == parties, "stored FROST peer manifest is incomplete"@),
        ),
    }
}

/// Why stored rounds and a stored manifest do not belong together.
pub open spec fn rounds_refusal(state: DurableProofState) -> Option<Seq<char>> {
    if state.frost_dkg_round1 is Some && state.frost_dkg_round2 is Some {
        Some("stored FROST state contains two DKG rounds at once"@)
    } else if state.frost_dkg_round1 is None && state.frost_dkg_round2 is None {
        None
    } else {
        match state.frost_peer_manifest {
            None => Some("stored FROST DKG state has no peer manifest"@),
            Some(m) => match state.frost_dkg_round2 {
                None => None,
                Some(round) => unless(
                    hex_bytes(round.session@) == hex_bytes(m.session@) && same_entries(round.entries@, m.entries@),
                    "stored FROST DKG state disagrees with its peer manifest"@,
                ),
            },
        }
    }
}

fn check_rounds(state: &DurableProofState) -> (r: Result<(), String>)
    requires
        state.frost_dkg_round2 matches Some(round) ==> is_hex_of(round.session@, 32),
        state.frost_peer_manifest matches Some(m) ==> is_hex_of(m.session@, 32),
    ensures
        match r {
            Ok(_) => rounds_refusal(*state) is None,
            Err(e) => rounds_refusal(*state) == Some(e@),
        },
{
    if state.frost_dkg_round1.is_some() && state.frost_dkg_round2.is_some() {
        return Err("stored FROST state contains two DKG rounds at once".to_owned());
    }
    if state.frost_dkg_round1.is_none() && state.frost_dkg_round2.is_none() {
        return Ok(());
    }
    let m = match &state.frost_peer_manifest {
        None => {
            return Err("stored FROST DKG state has no peer manifest".to_owned());
        },
        Some(value) => value,
    };
    if let Some(round) = &state.frost_dkg_round2 {
        let of_round = hex32_of(round.session.as_str(), "");
        let of_manifest = hex32_of(m.session.as_str(), "");
        let one_session = match (&of_round, &of_manifest) {
            (Ok(a), Ok(b)) => same32(a, b),
            _ => false,
        };
        if !one_session || !entries_equal(&round.entries, &m.entries) {
            return Err("stored FROST DKG state disagrees with its peer manifest".to_owned());
        }
    }
    Ok(())
}

/// Why the stored group key is refused.
pub open spec fn stored_key_refusal(state: DurableProofState, facts: RestoreFacts) -> Option<Seq<char>> {
    let key = state.frost_key_package;
    let public = state.frost_public_package;
    either(if key is Some { package_refusal((key->0)@, facts.key_package,
        "stored FROST key package is malformed"@) } else { None },
    either(if public is Some { package_refusal((public->0)@, facts.public_package,
        "stored FROST public package is malformed"@) } else { None },
    unless((key is Some) == (public is Some) && (key is Some) == (state.frost_session is Some)
        && (state.frost_dkg_finalize_digest is Some ==> key is Some), "stored FROST state is incomplete"@)))
}

/// Whether a group key is the stored one.
pub open spec fn key_said(state: DurableProofState, key: Option<FrostKey>) -> bool {
    match state.frost_key_package {
        None => key is None,
        Some(text) => {
            &&& key is Some
            &&& base64_bytes(text@) == Some((key->0).key_package@)
            &&& base64_bytes((state.frost_public_package->0)@) == Some((key->0).public_package@)
            &&& (key->0).session@ == hex_bytes((state.frost_session->0)@)
            &&& option_said(state.frost_dkg_finalize_digest, (key->0).finalize_digest)
        },
    }
}

fn read_key(
    state: &DurableProofState,
    facts: &RestoreFacts,
    session: Option<[u8; 32]>,
    finalize_digest: Option<[u8; 32]>,
) -> (r: Result<Option<FrostKey>, String>)
    requires
        option_said(state.frost_session, session),
        option_said(state.frost_dkg_finalize_digest, finalize_digest),
    ensures
        match r {
            Ok(key) => stored_key_refusal(*state, *facts) is None && key_said(*state, key),
            Err(e) => stored_key_refusal(*state, *facts) == Some(e@),
        },
{
    let key_package = match &state.frost_key_package {
        None => None,
        Some(text) => match base64_decode(text.as_str()) {
            None => {
                return Err("stored FROST key package is malformed".to_owned());
            },
            Some(raw) => {
                if !facts.key_package {
                    return Err("stored FROST key package is malformed".to_owned());
                }
                Some(raw)
            },
        },
    };
    let public_package = match &state.frost_public_package {
        None => None,
        Some(text) => match base64_decode(text.as_str()) {
            None => {
                return Err("stored FROST public package is malformed".to_owned());
            },
            Some(raw) => {
                if !facts.public_package {
                    return Err("stored FROST public package is malformed".to_owned());
                }
                Some(raw)
            },
        },
    };
    match (key_package, public_package, session) {
        (None, None, None) => if finalize_digest.is_some() {
            Err("stored FROST state is incomplete".to_owned())
        } else {
            Ok(None)
        },
        (Some(key_package), Some(public_package), Some(session)) => Ok(
            Some(FrostKey { session, key_package, public_package, finalize_digest }),
        ),
        _ => Err("stored FROST state is incomplete".to_owned()),
    }
}

/// Why a base64 text is not a seed of a length.
pub open spec fn seed_refusal(
    text: Seq<char>,
    length: nat,
    malformed: Seq<char>,
    wrong: Seq<char>,
) -> Option<Seq<char>> {
    either(
        unless(base64_bytes(text) is Some, malformed),
        unless((base64_bytes(text)->0).len() == length, wrong),
    )
}

fn read_seed(text: &str, length: usize, malformed: &str, wrong: &str) -> (r: Result<Vec<u8>, String>)
    ensures
        match r {
            Ok(seed) => seed_refusal(text@, length as nat, malformed@, wrong@) is None && base64_bytes(text@) == Some(
                seed@,
            ),
            Err(e) => seed_refusal(text@, length as nat, malformed@, wrong@) == Some(e@),
        },
{
    match base64_decode(text) {
        None => Err(malformed.to_owned()),
        Some(seed) => if seed.len() == length {
            Ok(seed)
        } else {
            Err(wrong.to_owned())
        },
    }
}

/// Whether two sets have no key in common.
fn disjoint<V, U>(a: &DigestMap<V>, b: &DigestMap<U>) -> (r: bool)
    requires
        a.sorted(),
        b.sorted(),
    ensures
        r == apart(*a, *b),
{
    let mut i: usize = 0;
    while i < a.entries.len()
        invariant
            i <= a.entries@.len(),
            a.sorted(),
            b.sorted(),
            forall|j: int| 0 <= j < i ==> !b.has((#[trigger] a.entries@[j]).key@),
        decreases a.entries@.len() - i,
    {
        if b.contains(&a.entries[i].key) {
            proof {
                a.only_place(a.entries@[i as int].key@, i as int);
                assert(a.has(a.entries@[i as int].key@) && b.has(a.entries@[i as int].key@));
            }
            return false;
        }
        i = i + 1;
    }
    assert forall|k: Seq<u8>| !(#[trigger] a.has(k) && #[trigger] b.has(k)) by {
        if a.has(k) {
            assert(a.entries@[a.place(k)].key@ == k);
        }
    }
    true
}

/// Whether every key of one map is in the other.
fn contained<V, U>(a: &DigestMap<V>, b: &DigestMap<U>) -> (r: bool)
    requires
        a.sorted(),
        b.sorted(),
    ensures
        r == within(*a, *b),
{
    let mut i: usize = 0;
    while i < a.entries.len()
        invariant
            i <= a.entries@.len(),
            a.sorted(),
            b.sorted(),
            forall|j: int| 0 <= j < i ==> b.has((#[trigger] a.entries@[j]).key@),
        decreases a.entries@.len() - i,
    {
        if !b.contains(&a.entries[i].key) {
            proof {
                a.only_place(a.entries@[i as int].key@, i as int);
                assert(a.has(a.entries@[i as int].key@));
            }
            return false;
        }
        i = i + 1;
    }
    assert forall|k: Seq<u8>| #[trigger] a.has(k) implies b.has(k) by {
        assert(a.entries@[a.place(k)].key@ == k);
    }
    true
}

/// The cache of attestations that a state keeps.
#[verifier::loop_isolation(false)]
fn read_cache(stored: &Vec<CachedAttestation>) -> (cache: DigestMap<Vec<u8>>)
    ensures
        cache.sorted(),
        cache_said(stored@, stored@.len(), cache),
{
    let mut cache: DigestMap<Vec<u8>> = DigestMap::new();
    let mut i: usize = 0;
    while i < stored.len()
        invariant
            i <= stored@.len(),
            cache.sorted(),
            cache_said(stored@, i as nat, cache),
        decreases stored@.len() - i,
    {
        let ghost before = cache;
        cache.insert(stored[i].id, copied(stored[i].signature.as_slice()));
        proof {
            let id = stored@[i as int].id@;
            assert forall|k: Seq<u8>| #[trigger] cache.has(k) == (cached_at(stored@, k, (i + 1) as nat) >= 0) by {
                if k != id {
                    assert(cache.has(k) == before.has(k));
                }
            }
            assert forall|k: Seq<u8>| #[trigger] cache.has(k) implies cache.at(k)@ == stored@[cached_at(
                stored@,
                k,
                (i + 1) as nat,
            )].signature@ by {
                if k != id {
                    assert(before.has(k));
                }
            }
        }
        i = i + 1;
    }
    cache
}

/// Where the last attestation of an identifier stands among the first `count`, or minus one.
pub open spec fn cached_at(stored: Seq<CachedAttestation>, id: Seq<u8>, count: nat) -> int
    decreases count,
{
    if count == 0 || count > stored.len() {
        -1
    } else if stored[count - 1].id@ == id {
        count - 1
    } else {
        cached_at(stored, id, (count - 1) as nat)
    }
}

/// Whether a cache holds the first `count` attestations.
pub open spec fn cache_said(stored: Seq<CachedAttestation>, count: nat, cache: DigestMap<Vec<u8>>) -> bool {
    &&& forall|k: Seq<u8>| #[trigger] cache.has(k) == (cached_at(stored, k, count) >= 0)
    &&& forall|k: Seq<u8>| #[trigger] cache.has(k) ==> cache.at(k)@ == stored[cached_at(stored, k, count)].signature@
}

/// Whether attestations are those of a cache, in its order.
pub open spec fn cache_written(stored: Seq<CachedAttestation>, cache: DigestMap<Vec<u8>>) -> bool {
    &&& stored.len() == cache.entries@.len()
    &&& forall|i: int|
        #![trigger stored[i]]
        0 <= i < stored.len() ==> stored[i].id == cache.entries@[i].key && stored[i].signature@
            == cache.entries@[i].value@
}

fn write_cache(cache: &DigestMap<Vec<u8>>) -> (stored: Vec<CachedAttestation>)
    ensures
        cache_written(stored@, *cache),
{
    let mut stored: Vec<CachedAttestation> = Vec::new();
    let mut i: usize = 0;
    while i < cache.entries.len()
        invariant
            i <= cache.entries@.len(),
            stored@.len() == i,
            forall|j: int|
                #![trigger stored@[j]]
                0 <= j < i ==> stored@[j].id == cache.entries@[j].key && stored@[j].signature@
                    == cache.entries@[j].value@,
        decreases cache.entries@.len() - i,
    {
        stored.push(
            CachedAttestation { id: cache.entries[i].key, signature: copied(cache.entries[i].value.as_slice()) },
        );
        i = i + 1;
    }
    stored
}

/// Whether two committees are the same.
pub open spec fn same_policy(a: QuorumPolicy, b: QuorumPolicy) -> bool {
    &&& a.epoch == b.epoch
    &&& a.context@ == b.context@
    &&& a.classical_binding == b.classical_binding
    &&& a.threshold == b.threshold
    &&& a.members@.len() == b.members@.len()
    &&& forall|i: int|
        #![trigger a.members@[i]]
        0 <= i < a.members@.len() ==> a.members@[i].node == b.members@[i].node && a.members@[i].key@
            == b.members@[i].key@
}

/// Whether two committees that may be absent are the same.
pub open spec fn same_committee(a: Option<QuorumPolicy>, b: Option<QuorumPolicy>) -> bool {
    match b {
        None => a is None,
        Some(policy) => a is Some && same_policy(a->0, policy),
    }
}

fn copy_committee(policy: &Option<QuorumPolicy>) -> (copy: Option<QuorumPolicy>)
    ensures
        same_committee(copy, *policy),
{
    match policy {
        None => None,
        Some(p) => {
            let mut members: Vec<QuorumMember> = Vec::new();
            let mut i: usize = 0;
            while i < p.members.len()
                invariant
                    i <= p.members@.len(),
                    members@.len() == i,
                    forall|j: int|
                        #![trigger members@[j]]
                        0 <= j < i ==> members@[j].node == p.members@[j].node && members@[j].key@ == p.members@[j].key@,
                decreases p.members@.len() - i,
            {
                members.push(QuorumMember { node: p.members[i].node, key: copied(p.members[i].key.as_slice()) });
                i = i + 1;
            }
            Some(
                QuorumPolicy {
                    epoch: p.epoch,
                    context: copied(p.context.as_slice()),
                    classical_binding: p.classical_binding,
                    threshold: p.threshold,
                    members,
                },
            )
        },
    }
}

fn copy_entries(entries: &Vec<FrostPeerEntry>) -> (copy: Vec<FrostPeerEntry>)
    ensures
        same_entries(copy@, entries@),
{
    let mut copy: Vec<FrostPeerEntry> = Vec::new();
    let mut i: usize = 0;
    while i < entries.len()
        invariant
            i <= entries@.len(),
            copy@.len() == i,
            forall|j: int| #![trigger copy@[j]] 0 <= j < i ==> copy@[j].alike(entries@[j]),
        decreases entries@.len() - i,
    {
        copy.push(entries[i].copy());
        i = i + 1;
    }
    copy
}

/// Whether proposed peers are the stored entries with what was found of them.
pub open spec fn proposed_of(peers: Seq<ProposedPeer>, entries: Seq<FrostPeerEntry>, facts: Seq<PeerFacts>) -> bool {
    &&& peers.len() == entries.len()
    &&& forall|i: int|
        #![trigger peers[i]]
        0 <= i < peers.len() ==> peers[i].entry.alike(entries[i]) && same_facts(peers[i].facts, facts[i])
}

/// Whether the same was found of a peer's keys.
pub open spec fn same_facts(a: PeerFacts, b: PeerFacts) -> bool {
    &&& refused(a.exchange) == refused(b.exchange)
    &&& refused(a.pq_valid) == refused(b.pq_valid)
    &&& a.pq_settlement == b.pq_settlement
}

fn copy_outcome(outcome: &Result<(), String>) -> (copy: Result<(), String>)
    ensures
        refused(copy) == refused(*outcome),
{
    match outcome {
        Ok(_) => Ok(()),
        Err(e) => Err(e.as_str().to_owned()),
    }
}

fn propose(entries: &Vec<FrostPeerEntry>, facts: &Vec<PeerFacts>) -> (peers: Vec<ProposedPeer>)
    requires
        entries@.len() <= facts@.len(),
    ensures
        proposed_of(peers@, entries@, facts@),
{
    let mut peers: Vec<ProposedPeer> = Vec::new();
    let mut i: usize = 0;
    while i < entries.len()
        invariant
            i <= entries@.len(),
            entries@.len() <= facts@.len(),
            peers@.len() == i,
            forall|j: int|
                #![trigger peers@[j]]
                0 <= j < i ==> peers@[j].entry.alike(entries@[j]) && same_facts(peers@[j].facts, facts@[j]),
        decreases entries@.len() - i,
    {
        peers.push(
            ProposedPeer {
                entry: entries[i].copy(),
                facts: PeerFacts {
                    exchange: copy_outcome(&facts[i].exchange),
                    pq_valid: copy_outcome(&facts[i].pq_valid),
                    pq_settlement: facts[i].pq_settlement,
                },
            },
        );
        i = i + 1;
    }
    peers
}

/// Why a stored state is refused before its peers are checked again.
pub open spec fn state_refusal(state: DurableProofState, config: ProofPartyConfig, facts: RestoreFacts) -> Option<
    Seq<char>,
> {
    let parties = config.n_parties as nat;
    either(owner_refusal(state, config),
    either(option_refusal(state.frost_session, "stored FROST session is malformed"@),
    either(option_refusal(state.frost_dkg_finalize_digest, "stored FROST finalization digest is malformed"@),
    either(stored_manifest_refusal(state.frost_peer_manifest, parties),
    either(round1_refusal(state.frost_dkg_round1, facts),
    either(round2_refusal(state.frost_dkg_round2, facts, parties),
    either(rounds_refusal(state),
    either(pairs_refusal(state.frost_authorized@, "stored FROST authorization job is malformed"@,
        "stored FROST authorization digest is malformed"@, None),
    either(evidence_refusal(state.completed_evidence@),
    either(pairs_refusal(state.application_controls@, "stored control id must be a 32-byte hexadecimal value"@,
        "stored control action must be a 32-byte hexadecimal value"@, Some("stored control binding is empty"@)),
    either(stored_key_refusal(state, facts),
    either(seed_refusal(state.exchange_private@, 96, "stored hybrid exchange seed is malformed"@,
        "stored hybrid exchange seed must be 96 bytes"@),
    either(seed_refusal(state.pq_private@, 32, "stored PQ signing seed is malformed"@,
        "stored PQ signing seed is malformed"@),
    either(seed_refusal(state.application_private@, 64, "stored application seeds are malformed"@,
        "stored application identity requires independent 64-byte seeds"@),
    either(ids_refusal(state.proof_reserved@, "stored proof reservations"@),
    either(ids_refusal(state.proof_completed@, "stored completed proofs"@),
    either(seed_refusal(state.identity_private@, 32, "stored FROST identity is malformed"@,
        "stored FROST identity is malformed"@),
    either(ids_refusal(state.frost_reserved@, "stored FROST reservations"@),
    either(ids_refusal(state.frost_consumed@, "stored FROST completions"@),
    either(ids_refusal(state.publication_consumed@, "stored publication completions"@),
    unless(state.frost_peer_manifest is None || state.frost_key_package is None,
        "stored FROST state is both pending and finalized"@)))))))))))))))))))))
}

/// Whether what was found is of all that a state keeps.
pub open spec fn facts_cover(state: DurableProofState, config: ProofPartyConfig, facts: RestoreFacts) -> bool {
    &&& state.frost_dkg_round2 matches Some(s) ==> s.encrypted@.len() <= facts.envelopes@.len()
        || s.encrypted@.len() + 1
        != config.n_parties
    &&& state.frost_peer_manifest matches Some(m) ==> m.entries@.len() <= facts.peers@.len() || m.entries@.len()
        != config.n_parties
}

/// Whether peers are those of the stored manifest.
pub open spec fn peers_said(
    state: DurableProofState,
    facts: RestoreFacts,
    peers: Option<PendingPeers>,
) -> bool {
    match state.frost_peer_manifest {
        None => peers is None,
        Some(m) => {
            let session = hex_bytes(m.session@);
            peers matches Some(pending) && pending.session@ == session && exists|proposed: Seq<ProposedPeer>| #[trigger]
                proposed_of(proposed, m.entries@, facts.peers@) && {
                    &&& pending.digest@ == sha256(manifest_text(session, by_party(proposed)))
                    &&& entries_of(pending.entries@, by_party(proposed))
                }
        },
    }
}

/// Whether a party holds what a state keeps: every identifier that was ever
/// used, and nothing of the jobs and nonces that were under way.
pub open spec fn holds<N, B, S>(
    party: ProofParty<N, B, S>,
    state: DurableProofState,
    config: ProofPartyConfig,
    facts: RestoreFacts,
) -> bool {
    &&& party.config == config
    &&& party.application_identity == facts.application_identity
    &&& party.identity_public == facts.identity_public
    &&& party.jobs.count() == 0
    &&& ids_said(state.proof_reserved@, party.reserved)
    &&& ids_said(state.proof_completed@, party.completed)
    &&& evidence_said(state.completed_evidence@, state.completed_evidence@.len(), party.completed_evidence)
    &&& is_map(party.application_controls, pairs_map(state.application_controls@, state.application_controls@.len()))
    &&& key_said(state, party.frost_key)
    &&& same_committee(party.pq_committee, state.pq_committee)
    &&& cache_said(state.pq_identity_cache@, state.pq_identity_cache@.len(), party.pq_identity_cache)
    &&& party.pending_peers is None
    &&& peers_said(state, facts, party.peers)
    &&& round1_said(state.frost_dkg_round1, party.dkg_round1)
    &&& round2_said(state.frost_dkg_round2, party.dkg_round2)
    &&& party.frost_nonces.count() == 0
    &&& ids_said(state.frost_reserved@, party.frost_reserved)
    &&& ids_said(state.frost_consumed@, party.frost_consumed)
    &&& is_map(party.frost_authorized, pairs_map(state.frost_authorized@, state.frost_authorized@.len()))
    &&& ids_said(state.publication_consumed@, party.publication_consumed)
    &&& party.state_generation == state.generation
    &&& party.state_healthy
}

/// Whether seeds are the stored ones.
pub open spec fn seeds_said(state: DurableProofState, seeds: Seeds) -> bool {
    &&& base64_bytes(state.identity_private@) == Some(seeds.identity@)
    &&& base64_bytes(state.application_private@) == Some(seeds.application@)
    &&& base64_bytes(state.exchange_private@) == Some(seeds.exchange@)
    &&& base64_bytes(state.pq_private@) == Some(seeds.pq@)
}

/// Whether the stored manifest, where there is one, passes the checks of a proposed
/// committee again, or is refused with an error.
pub open spec fn peers_checked<F: Fn(&Vec<u8>, &Vec<u8>, &Vec<u8>) -> bool>(
    state: DurableProofState,
    config: ProofPartyConfig,
    facts: RestoreFacts,
    signed: F,
    refusal: Option<Seq<char>>,
) -> bool {
    if state.frost_peer_manifest is None {
        refusal is None
    } else {
        exists|peers: Seq<ProposedPeer>| #[trigger]
            proposed_of(peers, (state.frost_peer_manifest->0).entries@, facts.peers@) && manifest_refusal(
                config,
                facts.identity_public@,
                facts.keys,
                hex_bytes((state.frost_peer_manifest->0).session@),
                peers,
                signed,
            ) == refusal
    }
}

impl<N, B, S> ProofParty<N, B, S> {
    /// Whether the sets of a lifecycle contradict each other, or pass their bounds.
    pub open spec fn contradictory(self) -> bool {
        ||| !apart(self.reserved, self.completed)
        ||| !apart(self.frost_reserved, self.frost_consumed)
        ||| self.completed_evidence.count() > MAX_COMPLETED_EVIDENCE
        ||| self.application_controls.count() > MAX_COMPLETED_EVIDENCE
        ||| !within(self.completed_evidence, self.completed)
        ||| !apart(self.frost_authorized, self.frost_reserved)
        ||| !apart(self.frost_authorized, self.frost_consumed)
    }

    /// What comes of starting a party from a stored state, of which this was found.
    pub open spec fn restored<F: Fn(&Vec<u8>, &Vec<u8>, &Vec<u8>) -> bool>(
        config: ProofPartyConfig,
        state: DurableProofState,
        facts: RestoreFacts,
        signed: F,
        r: Result<(ProofParty<N, B, S>, Seeds), String>,
    ) -> bool {
        match r {
            Ok((party, seeds)) => {
                &&& state_refusal(state, config, facts) is None
                &&& peers_checked(state, config, facts, signed, None)
                &&& holds(party, state, config, facts)
                &&& seeds_said(state, seeds)
                &&& !party.contradictory()
                &&& party.pq_state_refusal(facts.pq) is None
                &&& party.consistent()
            },
            Err(e) => match state_refusal(state, config, facts) {
                Some(f) => e@ == f,
                None => {
                    ||| peers_checked(state, config, facts, signed, Some(e@))
                    ||| peers_checked(state, config, facts, signed, None) && exists|party: ProofParty<N, B, S>|
                        #[trigger] holds(party, state, config, facts) && party.ordered() && if party.contradictory() {
                            e@ == "proof-party state contains contradictory lifecycle sets"@
                        } else {
                            party.pq_state_refusal(facts.pq) == Some(e@)
                        }
                },
            },
        }
    }

    /// Starts a party from a stored state. Jobs that were under way are gone, and
    /// their identifiers stay reserved; nonces that were held are gone, and their
    /// signing jobs stay reserved. `examine` finds out about the packages and keys in the
    /// state, and `signed` checks a post-quantum signature by a key over a text.
    pub fn restore<
        X: Fn(&ProofPartyConfig, &DurableProofState) -> RestoreFacts,
        F: Fn(&Vec<u8>, &Vec<u8>, &Vec<u8>) -> bool,
    >(config: ProofPartyConfig, state: &DurableProofState, examine: &X, signed: &F) -> (r: Result<
        (ProofParty<N, B, S>, Seeds),
        String,
    >)
        requires
            forall|c: &ProofPartyConfig, s: &DurableProofState| call_requires(*examine, (c, s)),
            forall|c: &ProofPartyConfig, s: &DurableProofState, facts: RestoreFacts| #[trigger]
                call_ensures(*examine, (c, s), facts) ==> facts_cover(*s, *c, facts),
            checks_signatures(*signed),
        ensures
            exists|facts: RestoreFacts| #[trigger]
                call_ensures(*examine, (&config, state), facts) && Self::restored(config, *state, facts, *signed, r),
    {
        let facts = examine(&config, state);
        assert(call_ensures(*examine, (&config, state), facts));
        Self::restore_from(config, state, &facts, signed)
    }

    fn restore_from<F: Fn(&Vec<u8>, &Vec<u8>, &Vec<u8>) -> bool>(
        config: ProofPartyConfig,
        state: &DurableProofState,
        facts: &RestoreFacts,
        signed: &F,
    ) -> (r: Result<(ProofParty<N, B, S>, Seeds), String>)
        requires
            facts_cover(*state, config, *facts),
            checks_signatures(*signed),
        ensures
            Self::restored(config, *state, *facts, *signed, r),
    {
        if let Err(e) = check_owner(state, &config) {
            return Err(e);
        }
        let session = match option_of(&state.frost_session, "stored FROST session is malformed") {
            Err(e) => {
                return Err(e);
            },
            Ok(value) => value,
        };
        let finalize_digest = match option_of(&state.frost_dkg_finalize_digest,
            "stored FROST finalization digest is malformed") {
            Err(e) => {
                return Err(e);
            },
            Ok(value) => value,
        };
        let manifest_session = match &state.frost_peer_manifest {
            None => None,
            Some(m) => {
                let read = match hex32_of(m.session.as_str(), "stored FROST pending session is malformed") {
                    Err(e) => {
                        return Err(e);
                    },
                    Ok(read) => read,
                };
                if m.entries.len() != config.n_parties {
                    return Err("stored FROST peer manifest is incomplete".to_owned());
                }
                Some(read)
            },
        };
        let dkg_round1 = match read_round1(&state.frost_dkg_round1, facts) {
            Err(e) => {
                return Err(e);
            },
            Ok(value) => value,
        };
        let dkg_round2 = match read_round2(&state.frost_dkg_round2, facts, config.n_parties) {
            Err(e) => {
                return Err(e);
            },
            Ok(value) => value,
        };
        if let Err(e) = check_rounds(state) {
            return Err(e);
        }
        let frost_authorized = match decode_pairs(&state.frost_authorized,
            "stored FROST authorization job is malformed", "stored FROST authorization digest is malformed", None) {
            Err(e) => {
                return Err(e);
            },
            Ok(value) => value,
        };
        let completed_evidence = match decode_evidence(&state.completed_evidence) {
            Err(e) => {
                return Err(e);
            },
            Ok(value) => value,
        };
        let application_controls = match decode_pairs(&state.application_controls,
            "stored control id must be a 32-byte hexadecimal value",
            "stored control action must be a 32-byte hexadecimal value", Some("stored control binding is empty")) {
            Err(e) => {
                return Err(e);
            },
            Ok(value) => value,
        };
        let frost_key = match read_key(state, facts, session, finalize_digest) {
            Err(e) => {
                return Err(e);
            },
            Ok(value) => value,
        };
        let exchange = match read_seed(state.exchange_private.as_str(), 96,
            "stored hybrid exchange seed is malformed", "stored hybrid exchange seed must be 96 bytes") {
            Err(e) => {
                return Err(e);
            },
            Ok(value) => value,
        };
        let pq = match read_seed(state.pq_private.as_str(), 32, "stored PQ signing seed is malformed",
            "stored PQ signing seed is malformed") {
            Err(e) => {
                return Err(e);
            },
            Ok(value) => value,
        };
        let application = match read_seed(state.application_private.as_str(), 64,
            "stored application seeds are malformed",
            "stored application identity requires independent 64-byte seeds") {
            Err(e) => {
                return Err(e);
            },
            Ok(value) => value,
        };
        let reserved = match decode_set(&state.proof_reserved, "stored proof reservations") {
            Err(e) => {
                return Err(e);
            },
            Ok(value) => value,
        };
        let completed = match decode_set(&state.proof_completed, "stored completed proofs") {
            Err(e) => {
                return Err(e);
            },
            Ok(value) => value,
        };
        let identity = match read_seed(state.identity_private.as_str(), 32, "stored FROST identity is malformed",
            "stored FROST identity is malformed") {
            Err(e) => {
                return Err(e);
            },
            Ok(value) => value,
        };
        let frost_reserved = match decode_set(&state.frost_reserved, "stored FROST reservations") {
            Err(e) => {
                return Err(e);
            },
            Ok(value) => value,
        };
        let frost_consumed = match decode_set(&state.frost_consumed, "stored FROST completions") {
            Err(e) => {
                return Err(e);
            },
            Ok(value) => value,
        };
        let publication_consumed = match decode_set(&state.publication_consumed, "stored publication completions") {
            Err(e) => {
                return Err(e);
            },
            Ok(value) => value,
        };
        if manifest_session.is_some() && frost_key.is_some() {
            return Err("stored FROST state is both pending and finalized".to_owned());
        }
        let peers: Option<PendingPeers> = match (&state.frost_peer_manifest, manifest_session) {
            (Some(m), Some(read)) => {
                let proposed = propose(&m.entries, &facts.peers);
                match manifest(&config, &facts.identity_public, &facts.keys, read, &proposed, signed) {
                    Err(e) => {
                        assert(proposed_of(proposed@, m.entries@, facts.peers@));
                        return Err(e);
                    },
                    Ok(pending) => {
                        assert(proposed_of(proposed@, m.entries@, facts.peers@));
                        Some(pending)
                    },
                }
            },
            _ => None,
        };
        assert(peers_checked(*state, config, *facts, *signed, None));
        assert(peers_said(*state, *facts, peers));
        let party: ProofParty<N, B, S> = ProofParty {
            config,
            application_identity: facts.application_identity,
            identity_public: facts.identity_public,
            jobs: DigestMap::new(),
            reserved,
            completed,
            completed_evidence,
            application_controls,
            frost_key,
            pq_committee: copy_committee(&state.pq_committee),
            pq_identity_cache: read_cache(&state.pq_identity_cache),
            pending_peers: None,
            peers,
            dkg_round1,
            dkg_round2,
            frost_nonces: DigestMap::new(),
            frost_reserved,
            frost_consumed,
            frost_authorized,
            publication_consumed,
            state_generation: state.generation,
            state_healthy: true,
        };
        assert(holds(party, *state, config, *facts));
        if !disjoint(&party.reserved, &party.completed) || !disjoint(&party.frost_reserved, &party.frost_consumed)
            || party.completed_evidence.len() > MAX_COMPLETED_EVIDENCE || party.application_controls.len()
            > MAX_COMPLETED_EVIDENCE || !contained(&party.completed_evidence, &party.completed) || !disjoint(
            &party.frost_authorized,
            &party.frost_reserved,
        ) || !disjoint(&party.frost_authorized, &party.frost_consumed) {
            return Err("proof-party state contains contradictory lifecycle sets".to_owned());
        }
        if let Err(e) = party.validate_pq_state(&facts.pq) {
            return Err(e);
        }
        proof {
            controls_bound(state.application_controls@, party.application_controls);
        }
        Ok((party, Seeds { identity, application, exchange, pq }))
    }

    /// Whether a state is what this party keeps under a generation.
    pub open spec fn kept_as(self, generation: u64, seeds: Seeds, pq_key: Seq<u8>, state: DurableProofState) -> bool {
        &&& state.version == STATE_VERSION
        &&& state.generation == generation
        &&& is_hex_of(state.proof_configuration_digest@, 32)
        &&& hex_bytes(state.proof_configuration_digest@) == sha256(self.config.security_message())
        &&& state.node == self.config.node
        &&& state.n_mm == self.config.n_mm
        &&& state.n_parties == self.config.n_parties
        &&& state.threshold == self.config.threshold
        &&& option_written(state.trusted_defmi_receipt_public, self.config.trusted_defmi_receipt_public)
        &&& seeds_said(state, seeds)
        &&& state.pq_key@ == pq_key
        &&& same_committee(state.pq_committee, self.pq_committee)
        &&& cache_written(state.pq_identity_cache@, self.pq_identity_cache)
        &&& match self.frost_key {
            None => {
                &&& state.frost_session is None
                &&& state.frost_key_package is None
                &&& state.frost_public_package is None
                &&& state.frost_dkg_finalize_digest is None
            },
            Some(key) => {
                &&& option_written(state.frost_session, Some(key.session))
                &&& state.frost_key_package is Some
                &&& base64_bytes((state.frost_key_package->0)@) == Some(key.key_package@)
                &&& state.frost_public_package is Some
                &&& base64_bytes((state.frost_public_package->0)@) == Some(key.public_package@)
                &&& option_written(state.frost_dkg_finalize_digest, key.finalize_digest)
            },
        }
        &&& match self.peers {
            None => state.frost_peer_manifest is None,
            Some(peers) => {
                &&& state.frost_peer_manifest is Some
                &&& (state.frost_peer_manifest->0).session@ == hex_text(peers.session@)
                &&& same_entries((state.frost_peer_manifest->0).entries@, peers.entries@)
            },
        }
        &&& round1_said(state.frost_dkg_round1, self.dkg_round1)
        &&& round2_said(state.frost_dkg_round2, self.dkg_round2)
        &&& state.frost_dkg_round2 matches Some(round) ==> {
            &&& round.session@ == hex_text((self.peers->0).session@)
            &&& same_entries(round.entries@, (self.peers->0).entries@)
            &&& round.broadcasts_digest@ == hex_text((self.dkg_round2->0).broadcasts_digest@)
        }
        &&& ids_written(state.frost_reserved@, self.frost_reserved)
        &&& ids_written(state.frost_consumed@, self.frost_consumed)
        &&& pairs_written(state.frost_authorized@, self.frost_authorized)
        &&& ids_written(state.publication_consumed@, self.publication_consumed)
        &&& ids_written(state.proof_reserved@, self.reserved)
        &&& ids_written(state.proof_completed@, self.completed)
        &&& evidence_written(state.completed_evidence@, self.completed_evidence)
        &&& pairs_written(state.application_controls@, self.application_controls)
    }

    /// What this party keeps under a generation.
    pub fn durable_state(&self, generation: u64, seeds: &Seeds, pq_key: &Vec<u8>) -> (r: Result<
        DurableProofState,
        String,
    >)
        ensures
            match r {
                Ok(state) => {
                    &&& self.dkg_round2 is Some ==> self.peers is Some
                    &&& self.kept_as(generation, *seeds, pq_key@, state)
                },
                Err(e) => {
                    &&& self.dkg_round2 is Some && self.peers is None
                    &&& e@ == "FROST round-two state has no authenticated peer manifest"@
                },
            },
    {
        let (frost_session, frost_key_package, frost_public_package,
            frost_dkg_finalize_digest) = match &self.frost_key {
            None => (None, None, None, None),
            Some(key) => (
                option_text(&Some(key.session)),
                Some(base64_encode(key.key_package.as_slice())),
                Some(base64_encode(key.public_package.as_slice())),
                option_text(&key.finalize_digest),
            ),
        };
        let frost_peer_manifest = match &self.peers {
            None => None,
            Some(peers) => Some(
                DurableFrostPeerManifest {
                    session: hex_encode(peers.session.as_slice()),
                    entries: copy_entries(&peers.entries),
                },
            ),
        };
        let frost_dkg_round1 = match &self.dkg_round1 {
            None => None,
            Some(round) => Some(
                DurableFrostDkgRound1 {
                    secret_package: base64_encode(round.secret.as_slice()),
                    broadcast_package: base64_encode(round.broadcast_package.as_slice()),
                },
            ),
        };
        let frost_dkg_round2 = match &self.dkg_round2 {
            None => None,
            Some(round) => match &self.peers {
                None => {
                    return Err("FROST round-two state has no authenticated peer manifest".to_owned());
                },
                Some(peers) => {
                    let mut encrypted: Vec<DurableEnvelope> = Vec::new();
                    let mut i: usize = 0;
                    while i < round.encrypted.len()
                        invariant
                            i <= round.encrypted@.len(),
                            encrypted@.len() == i,
                            forall|j: int|
                                #![trigger encrypted@[j]]
                                0 <= j < i ==> envelope_said(encrypted@[j], round.encrypted@[j]),
                        decreases round.encrypted@.len() - i,
                    {
                        encrypted.push(
                            DurableEnvelope {
                                sender: round.encrypted[i].sender,
                                recipient: round.encrypted[i].recipient,
                                envelope: Some(base64_encode(round.encrypted[i].envelope.as_slice())),
                            },
                        );
                        i = i + 1;
                    }
                    proof {
                        assert forall|j: int|
                            #![trigger round.encrypted@[j]]
                            0 <= j < round.encrypted@.len() implies envelope_said(encrypted@[j],
                                round.encrypted@[j]) by {
                            assert(envelope_said(encrypted@[j], round.encrypted@[j]));
                        }
                        assert(envelopes_said(encrypted@, round.encrypted@));
                    }
                    let digest_text = hex_encode(round.broadcasts_digest.as_slice());
                    proof {
                        hex_round_trip(round.broadcasts_digest@);
                    }
                    Some(
                        DurableFrostDkgRound2 {
                            session: hex_encode(peers.session.as_slice()),
                            entries: copy_entries(&peers.entries),
                            round1_package: base64_encode(round.round1_package.as_slice()),
                            secret_package: base64_encode(round.secret.as_slice()),
                            broadcasts_digest: digest_text,
                            encrypted,
                        },
                    )
                },
            },
        };
        let configuration = self.config.security_digest();
        proof {
            hex_round_trip(configuration@);
        }
        Ok(
            DurableProofState {
                version: STATE_VERSION,
                generation,
                proof_configuration_digest: hex_encode(configuration.as_slice()),
                node: self.config.node,
                n_mm: self.config.n_mm,
                n_parties: self.config.n_parties,
                threshold: self.config.threshold,
                trusted_defmi_receipt_public: option_text(&self.config.trusted_defmi_receipt_public),
                identity_private: base64_encode(seeds.identity.as_slice()),
                application_private: base64_encode(seeds.application.as_slice()),
                exchange_private: base64_encode(seeds.exchange.as_slice()),
                pq_private: base64_encode(seeds.pq.as_slice()),
                pq_key: copied(pq_key.as_slice()),
                pq_committee: copy_committee(&self.pq_committee),
                pq_identity_cache: write_cache(&self.pq_identity_cache),
                frost_session,
                frost_key_package,
                frost_public_package,
                frost_dkg_finalize_digest,
                frost_peer_manifest,
                frost_dkg_round1,
                frost_dkg_round2,
                frost_reserved: encode_set(&self.frost_reserved),
                frost_consumed: encode_set(&self.frost_consumed),
                frost_authorized: encode_pairs(&self.frost_authorized),
                publication_consumed: encode_set(&self.publication_consumed),
                proof_reserved: encode_set(&self.reserved),
                proof_completed: encode_set(&self.completed),
                completed_evidence: encode_evidence(&self.completed_evidence),
                application_controls: encode_pairs(&self.application_controls),
            },
        )
    }
}

/// Control operations that can be read are not empty.
proof fn controls_bound(pairs: Seq<TextPair>, map: DigestMap<[u8; 32]>)
    requires
        is_map(map, pairs_map(pairs, pairs.len())),
        pairs_refusal(
            pairs,
            "stored control id must be a 32-byte hexadecimal value"@,
            "stored control action must be a 32-byte hexadecimal value"@,
            Some("stored control binding is empty"@),
        ) is None,
    ensures
        forall|k: Seq<u8>| #[trigger] map.has(k) ==> k != zero32() && map.at(k)@ != zero32(),
{
    assert forall|k: Seq<u8>| #[trigger] map.has(k) implies k != zero32() && map.at(k)@ != zero32() by {
        controls_bound_to(pairs, pairs.len(), k);
        assert(pairs_map(pairs, pairs.len()).dom().contains(k));
    }
}

proof fn controls_bound_to(pairs: Seq<TextPair>, count: nat, key: Seq<u8>)
    requires
        count <= pairs.len(),
        pairs_refusal(
            pairs,
            "stored control id must be a 32-byte hexadecimal value"@,
            "stored control action must be a 32-byte hexadecimal value"@,
            Some("stored control binding is empty"@),
        ) is None,
    ensures
        pairs_map(pairs, count).dom().contains(key) ==> key != zero32() && pairs_map(pairs, count)[key] != zero32(),
    decreases count,
{
    if count > 0 {
        let check = |p: TextPair|
            pair_refusal(
                p,
                "stored control id must be a 32-byte hexadecimal value"@,
                "stored control action must be a 32-byte hexadecimal value"@,
                Some("stored control binding is empty"@),
            );
        controls_bound_to(pairs, (count - 1) as nat, key);
        none_refused(pairs, check, count - 1);
        assert(check(pairs[count - 1]) is None);
    }
}

/// A list without a refusal has no refused element.
proof fn none_refused<T>(values: Seq<T>, check: spec_fn(T) -> Option<Seq<char>>, at: int)
    requires
        first(values, check) is None,
        0 <= at < values.len(),
    ensures
        check(values[at]) is None,
    decreases values.len(),
{
    if at < values.len() - 1 {
        none_refused(values.drop_last(), check, at);
    }
}

/// Whether two sets hold the same keys.
pub open spec fn same_keys<V, U>(a: DigestMap<V>, b: DigestMap<U>) -> bool {
    forall|k: Seq<u8>| #[trigger] a.has(k) == b.has(k)
}

/// Whether two group keys that may be absent are the same.
pub open spec fn same_key(a: Option<FrostKey>, b: Option<FrostKey>) -> bool {
    match b {
        None => a is None,
        Some(key) => {
            &&& a is Some
            &&& (a->0).session == key.session
            &&& (a->0).key_package@ == key.key_package@
            &&& (a->0).public_package@ == key.public_package@
            &&& (a->0).finalize_digest == key.finalize_digest
        },
    }
}

/// Whether two first rounds that may be absent are the same.
pub open spec fn same_round1(a: Option<PendingDkgRound1>, b: Option<PendingDkgRound1>) -> bool {
    match b {
        None => a is None,
        Some(round) => {
            &&& a is Some
            &&& (a->0).secret@ == round.secret@
            &&& (a->0).broadcast_package@ == round.broadcast_package@
        },
    }
}

/// Whether two directed packages are the same.
pub open spec fn same_directed(a: DirectedEnvelope, b: DirectedEnvelope) -> bool {
    &&& a.sender == b.sender
    &&& a.recipient == b.recipient
    &&& a.envelope@ == b.envelope@
}

/// Whether two second rounds that may be absent are the same.
pub open spec fn same_round2(a: Option<PendingDkgRound2>, b: Option<PendingDkgRound2>) -> bool {
    match b {
        None => a is None,
        Some(round) => {
            &&& a is Some
            &&& (a->0).secret@ == round.secret@
            &&& (a->0).round1_package@ == round.round1_package@
            &&& (a->0).broadcasts_digest == round.broadcasts_digest
            &&& (a->0).encrypted@.len() == round.encrypted@.len()
            &&& forall|i: int|
                0 <= i < round.encrypted@.len() ==> same_directed(#[trigger] (a->0).encrypted@[i], round.encrypted@[i])
        },
    }
}

proof fn digests_equal(a: [u8; 32], b: [u8; 32])
    requires
        a@ == b@,
    ensures
        a == b,
{
    assert(a =~= b);
}

proof fn options_equal(text: Option<String>, a: Option<[u8; 32]>, b: Option<[u8; 32]>)
    requires
        option_said(text, a),
        option_written(text, b),
    ensures
        a == b,
{
    if let Some(digest) = b {
        hex_round_trip(digest@);
        digests_equal(a->0, digest);
    }
}

proof fn keys_kept<N, B, S>(
    before: ProofParty<N, B, S>,
    generation: u64,
    seeds: Seeds,
    pq_key: Seq<u8>,
    state: DurableProofState,
    facts: RestoreFacts,
    after: ProofParty<N, B, S>,
)
    requires
        before.kept_as(generation, seeds, pq_key, state),
        holds(after, state, before.config, facts),
    ensures
        same_key(after.frost_key, before.frost_key),
        same_committee(after.pq_committee, before.pq_committee),
        same_round1(after.dkg_round1, before.dkg_round1),
        same_round2(after.dkg_round2, before.dkg_round2),
        (after.peers is Some) == (before.peers is Some),
        before.peers is Some ==> (after.peers->0).session == (before.peers->0).session,
{
    if let Some(key) = before.frost_key {
        options_equal(state.frost_session, Some((after.frost_key->0).session), Some(key.session));
        options_equal(state.frost_dkg_finalize_digest, (after.frost_key->0).finalize_digest, key.finalize_digest);
    }
    if let Some(peers) = before.peers {
        hex_round_trip(peers.session@);
        digests_equal((after.peers->0).session, peers.session);
    }
    if let Some(round) = before.dkg_round2 {
        let stored = state.frost_dkg_round2->0;
        let read = after.dkg_round2->0;
        hex_round_trip(round.broadcasts_digest@);
        digests_equal(read.broadcasts_digest, round.broadcasts_digest);
        assert forall|i: int| 0 <= i < round.encrypted@.len() implies same_directed(
            #[trigger] read.encrypted@[i],
            round.encrypted@[i],
        ) by {
            assert(envelope_said(stored.encrypted@[i], round.encrypted@[i]));
            assert(envelope_said(stored.encrypted@[i], read.encrypted@[i]));
        }
    }
}

/// Whether the seeds have the lengths of their keys.
pub open spec fn seeds_fit(seeds: Seeds) -> bool {
    &&& seeds.identity@.len() == 32
    &&& seeds.application@.len() == 64
    &&& seeds.exchange@.len() == 96
    &&& seeds.pq@.len() == 32
}

/// Whether the packages of a party that makes a key are of the whole committee
/// and within their bound.
pub open spec fn rounds_fit<N, B, S>(party: ProofParty<N, B, S>) -> bool {
    &&& party.peers matches Some(peers) ==> peers.entries@.len() == party.config.n_parties
    &&& party.dkg_round1 matches Some(round) ==> 0 < round.broadcast_package@.len() <= MAX_WIRE_BYTES
    &&& party.dkg_round2 matches Some(round) ==> {
        &&& 0 < round.round1_package@.len() <= MAX_WIRE_BYTES
        &&& round.encrypted@.len() + 1 == party.config.n_parties
    }
}

/// Whether every stored package was found to be one.
pub open spec fn packages_found(facts: RestoreFacts, parties: nat) -> bool {
    &&& facts.round1_secret
    &&& facts.round1_broadcast
    &&& facts.round2_secret
    &&& facts.round2_broadcast
    &&& facts.key_package
    &&& facts.public_package
    &&& facts.envelopes@.len() + 1 >= parties
    &&& forall|i: int| 0 <= i < facts.envelopes@.len() ==> #[trigger] facts.envelopes@[i]
}

proof fn envelopes_accepted(stored: Seq<DurableEnvelope>, read: Seq<DirectedEnvelope>, known: Seq<bool>, count: nat)
    requires
        envelopes_said(stored, read),
        count <= stored.len() <= known.len(),
        forall|i: int| 0 <= i < known.len() ==> #[trigger] known[i],
    ensures
        envelopes_refusal(stored, known, count) is None,
    decreases count,
{
    if count > 0 {
        envelopes_accepted(stored, read, known, (count - 1) as nat);
        assert(envelope_said(stored[count - 1], read[count - 1]));
        assert(known[count - 1]);
    }
}

/// What a party keeps is a state that it can be started from, as long as the
/// packages in it are found to be packages: no part of it is refused.
pub proof fn restart_is_accepted<N, B, S>(
    party: ProofParty<N, B, S>,
    generation: u64,
    seeds: Seeds,
    pq_key: Seq<u8>,
    state: DurableProofState,
    facts: RestoreFacts,
)
    requires
        party.consistent(),
        forall|k: Seq<u8>| #[trigger]
            party.completed_evidence.has(k) ==> canonical_evidence(party.completed_evidence.at(k)),
        seeds_fit(seeds),
        rounds_fit(party),
        packages_found(facts, party.config.n_parties as nat),
        party.kept_as(generation, seeds, pq_key, state),
    ensures
        state_refusal(state, party.config, facts) is None,
{
    let none = DigestMap::<()> { entries: party.reserved.entries };
    ids_round_trip(state.proof_reserved@, party.reserved, none, "stored proof reservations"@);
    ids_round_trip(state.proof_completed@, party.completed, none, "stored completed proofs"@);
    ids_round_trip(state.frost_reserved@, party.frost_reserved, none, "stored FROST reservations"@);
    ids_round_trip(state.frost_consumed@, party.frost_consumed, none, "stored FROST completions"@);
    ids_round_trip(state.publication_consumed@, party.publication_consumed, none, "stored publication completions"@);
    evidence_round_trip(state.completed_evidence@, party.completed_evidence, party.completed_evidence);
    pairs_round_trip(
        state.frost_authorized@,
        party.frost_authorized,
        party.frost_authorized,
        "stored FROST authorization job is malformed"@,
        "stored FROST authorization digest is malformed"@,
        None,
    );
    pairs_round_trip(
        state.application_controls@,
        party.application_controls,
        party.application_controls,
        "stored control id must be a 32-byte hexadecimal value"@,
        "stored control action must be a 32-byte hexadecimal value"@,
        Some("stored control binding is empty"@),
    );
    if let Some(key) = party.config.trusted_defmi_receipt_public {
        hex_round_trip(key@);
    }
    if let Some(key) = party.frost_key {
        hex_round_trip(key.session@);
        if let Some(digest) = key.finalize_digest {
            hex_round_trip(digest@);
        }
    }
    if let Some(peers) = party.peers {
        hex_round_trip(peers.session@);
    }
    if let Some(round) = party.dkg_round2 {
        let stored = state.frost_dkg_round2->0;
        hex_round_trip(round.broadcasts_digest@);
        envelopes_accepted(stored.encrypted@, round.encrypted@, facts.envelopes@, stored.encrypted@.len());
        assert forall|i: int| 0 <= i < stored.entries@.len() implies #[trigger] stored.entries@[i].alike(
            (state.frost_peer_manifest->0).entries@[i],
        ) by {
            assert((state.frost_peer_manifest->0).entries@[i].alike((party.peers->0).entries@[i]));
        }
        assert(same_entries(stored.entries@, (state.frost_peer_manifest->0).entries@));
    }
    assert(owner_refusal(state, party.config) is None);
    assert(stored_manifest_refusal(state.frost_peer_manifest, party.config.n_parties as nat) is None);
    assert(round1_refusal(state.frost_dkg_round1, facts) is None);
    assert(round2_refusal(state.frost_dkg_round2, facts, party.config.n_parties as nat) is None);
    assert(rounds_refusal(state) is None);
    assert(stored_key_refusal(state, facts) is None);
}

/// A party that is started from what another kept has used the same identifiers:
/// what was reserved, completed, authorized, consumed, published or bound to an
/// action before is so afterwards, with the same evidence, and nothing else is.
pub proof fn restart_keeps_lifecycle<N, B, S>(
    before: ProofParty<N, B, S>,
    generation: u64,
    seeds: Seeds,
    pq_key: Seq<u8>,
    state: DurableProofState,
    facts: RestoreFacts,
    after: ProofParty<N, B, S>,
)
    requires
        before.consistent(),
        forall|k: Seq<u8>| #[trigger]
            before.completed_evidence.has(k) ==> canonical_evidence(before.completed_evidence.at(k)),
        before.kept_as(generation, seeds, pq_key, state),
        holds(after, state, before.config, facts),
    ensures
        same_keys(after.reserved, before.reserved),
        same_keys(after.completed, before.completed),
        same_keys(after.completed_evidence, before.completed_evidence),
        forall|k: Seq<u8>| #[trigger]
            before.completed_evidence.has(k) ==> same_evidence(
                after.completed_evidence.at(k),
                before.completed_evidence.at(k),
            ),
        same_digests(after.application_controls, before.application_controls),
        same_keys(after.frost_reserved, before.frost_reserved),
        same_keys(after.frost_consumed, before.frost_consumed),
        same_digests(after.frost_authorized, before.frost_authorized),
        same_keys(after.publication_consumed, before.publication_consumed),
        after.state_generation == generation,
        after.jobs.count() == 0,
        after.frost_nonces.count() == 0,
        same_key(after.frost_key, before.frost_key),
        same_committee(after.pq_committee, before.pq_committee),
        same_round1(after.dkg_round1, before.dkg_round1),
        same_round2(after.dkg_round2, before.dkg_round2),
        (after.peers is Some) == (before.peers is Some),
        before.peers is Some ==> (after.peers->0).session == (before.peers->0).session,
{
    keys_kept(before, generation, seeds, pq_key, state, facts, after);
    ids_round_trip(state.proof_reserved@, before.reserved, after.reserved, "stored proof reservations"@);
    ids_round_trip(state.proof_completed@, before.completed, after.completed, "stored completed proofs"@);
    ids_round_trip(state.frost_reserved@, before.frost_reserved, after.frost_reserved, "stored FROST reservations"@);
    ids_round_trip(state.frost_consumed@, before.frost_consumed, after.frost_consumed, "stored FROST completions"@);
    ids_round_trip(
        state.publication_consumed@,
        before.publication_consumed,
        after.publication_consumed,
        "stored publication completions"@,
    );
    evidence_round_trip(state.completed_evidence@, before.completed_evidence, after.completed_evidence);
    pairs_round_trip(
        state.frost_authorized@,
        before.frost_authorized,
        after.frost_authorized,
        "stored FROST authorization job is malformed"@,
        "stored FROST authorization digest is malformed"@,
        None,
    );
    pairs_round_trip(
        state.application_controls@,
        before.application_controls,
        after.application_controls,
        "stored control id must be a 32-byte hexadecimal value"@,
        "stored control action must be a 32-byte hexadecimal value"@,
        None,
    );
    assert forall|k: Seq<u8>| #[trigger] before.completed_evidence.has(k) implies same_evidence(
        after.completed_evidence.at(k),
        before.completed_evidence.at(k),
    ) by {
        assert(after.completed_evidence.has(k) == before.completed_evidence.has(k));
    }
}

/// Maps with the same keys have as many of them.
proof fn counts_agree<V, U>(a: DigestMap<V>, b: DigestMap<U>)
    requires
        a.sorted(),
        b.sorted(),
        same_keys(a, b),
    ensures
        a.count() == b.count(),
{
    let x = Seq::new(a.count(), |i: int| a.entries@[i].key@);
    let y = Seq::new(b.count(), |i: int| b.entries@[i].key@);
    assert forall|i: int, j: int| 0 <= i < x.len() && 0 <= j < x.len() && i != j implies x[i] != x[j] by {
        a.only_place(x[i], i);
        a.only_place(x[j], j);
    }
    assert forall|i: int, j: int| 0 <= i < y.len() && 0 <= j < y.len() && i != j implies y[i] != y[j] by {
        b.only_place(y[i], i);
        b.only_place(y[j], j);
    }
    x.unique_seq_to_set();
    y.unique_seq_to_set();
    assert forall|k: Seq<u8>| x.to_set().contains(k) == y.to_set().contains(k) by {
        if x.contains(k) {
            let i = choose|i: int| 0 <= i < x.len() && x[i] == k;
            a.only_place(k, i);
            assert(a.has(k));
            assert(y[b.place(k)] == k);
        }
        if y.contains(k) {
            let i = choose|i: int| 0 <= i < y.len() && y[i] == k;
            b.only_place(k, i);
            assert(a.has(k));
            assert(x[a.place(k)] == k);
        }
    }
    assert(x.to_set() =~= y.to_set());
}

/// A party that is started from what another kept has no contradictory lifecycle.
pub proof fn restart_is_not_contradictory<N, B, S>(
    before: ProofParty<N, B, S>,
    generation: u64,
    seeds: Seeds,
    pq_key: Seq<u8>,
    state: DurableProofState,
    facts: RestoreFacts,
    after: ProofParty<N, B, S>,
)
    requires
        before.consistent(),
        forall|k: Seq<u8>| #[trigger]
            before.completed_evidence.has(k) ==> canonical_evidence(before.completed_evidence.at(k)),
        before.kept_as(generation, seeds, pq_key, state),
        holds(after, state, before.config, facts),
        after.ordered(),
    ensures
        !after.contradictory(),
{
    restart_keeps_lifecycle(before, generation, seeds, pq_key, state, facts, after);
    counts_agree(after.completed_evidence, before.completed_evidence);
    assert(same_keys(after.application_controls, before.application_controls)) by {
        assert forall|k: Seq<u8>| #[trigger] after.application_controls.has(k)
            == before.application_controls.has(k) by {
            assert(same_digest(after.application_controls, before.application_controls, k));
        }
    }
    counts_agree(after.application_controls, before.application_controls);
    assert forall|k: Seq<u8>| after.frost_authorized.has(k) implies before.frost_authorized.has(k) by {
        assert(same_digest(after.frost_authorized, before.frost_authorized, k));
    }
}

} // verus!
