//! The state of a proof party that starts for the first time.

use vstd::prelude::*;
use crate::bytes::copied;
use crate::digest::sha256;
use crate::digest_map::DigestMap;
use crate::proof_config::ProofPartyConfig;
use crate::proof_durable::{option_text, option_written};
use crate::proof_mandate::refused;
use crate::proof_peers::is_hex_of;
use crate::proof_restore::{
    facts_cover, holds, peers_checked, seeds_fit, state_refusal, DurableProofState, RestoreFacts, Seeds,
    STATE_VERSION,
};
use crate::proof_state::ProofParty;
use crate::text::{base64_bytes, base64_encode, hex_encode, hex_round_trip, hex_text};

verus! {

/// Whether a state is the first one of a configuration: generation zero, its seeds and
/// key, no group key, and nothing reserved, consumed or completed.
pub open spec fn is_first_state(
    config: ProofPartyConfig,
    seeds: Seeds,
    pq_key: Seq<u8>,
    state: DurableProofState,
) -> bool {
    &&& state.version == STATE_VERSION
    &&& state.generation == 0
    &&& is_hex_of(state.proof_configuration_digest@, 32)
    &&& state.proof_configuration_digest@ == hex_text(sha256(config.security_message()))
    &&& state.node == config.node
    &&& state.n_mm == config.n_mm
    &&& state.n_parties == config.n_parties
    &&& state.threshold == config.threshold
    &&& option_written(state.trusted_defmi_receipt_public, config.trusted_defmi_receipt_public)
    &&& base64_bytes(state.identity_private@) == Some(seeds.identity@)
    &&& base64_bytes(state.application_private@) == Some(seeds.application@)
    &&& base64_bytes(state.exchange_private@) == Some(seeds.exchange@)
    &&& base64_bytes(state.pq_private@) == Some(seeds.pq@)
    &&& state.pq_key@ == pq_key
    &&& state.pq_committee is None
    &&& state.pq_identity_cache@.len() == 0
    &&& state.frost_session is None
    &&& state.frost_key_package is None
    &&& state.frost_public_package is None
    &&& state.frost_dkg_finalize_digest is None
    &&& state.frost_peer_manifest is None
    &&& state.frost_dkg_round1 is None
    &&& state.frost_dkg_round2 is None
    &&& state.frost_reserved@.len() == 0
    &&& state.frost_consumed@.len() == 0
    &&& state.frost_authorized@.len() == 0
    &&& state.publication_consumed@.len() == 0
    &&& state.proof_reserved@.len() == 0
    &&& state.proof_completed@.len() == 0
    &&& state.completed_evidence@.len() == 0
    &&& state.application_controls@.len() == 0
}

/// The state of a party that starts for the first time, with seeds that were drawn
/// for it and the record of its post-quantum key.
pub fn first_state(config: &ProofPartyConfig, seeds: &Seeds, pq_key: &Vec<u8>) -> (state: DurableProofState)
    ensures
        is_first_state(*config, *seeds, pq_key@, state),
{
    let configuration = config.security_digest();
    proof {
        hex_round_trip(configuration@);
    }
    DurableProofState {
        version: STATE_VERSION,
        generation: 0,
        proof_configuration_digest: hex_encode(configuration.as_slice()),
        node: config.node,
        n_mm: config.n_mm,
        n_parties: config.n_parties,
        threshold: config.threshold,
        trusted_defmi_receipt_public: option_text(&config.trusted_defmi_receipt_public),
        identity_private: base64_encode(seeds.identity.as_slice()),
        application_private: base64_encode(seeds.application.as_slice()),
        exchange_private: base64_encode(seeds.exchange.as_slice()),
        pq_private: base64_encode(seeds.pq.as_slice()),
        pq_key: copied(pq_key.as_slice()),
        pq_committee: None,
        pq_identity_cache: Vec::new(),
        frost_session: None,
        frost_key_package: None,
        frost_public_package: None,
        frost_dkg_finalize_digest: None,
        frost_peer_manifest: None,
        frost_dkg_round1: None,
        frost_dkg_round2: None,
        frost_reserved: Vec::new(),
        frost_consumed: Vec::new(),
        frost_authorized: Vec::new(),
        publication_consumed: Vec::new(),
        proof_reserved: Vec::new(),
        proof_completed: Vec::new(),
        completed_evidence: Vec::new(),
        application_controls: Vec::new(),
    }
}

proof fn nothing_counted<V>(map: DigestMap<V>)
    requires
        forall|k: Seq<u8>| !#[trigger] map.has(k),
    ensures
        map.count() == 0,
{
    if map.entries@.len() > 0 {
        assert(map.has(map.entries@[0].key@));
    }
}

proof fn fresh_party<N, B, S>(
    config: ProofPartyConfig,
    seeds: Seeds,
    pq_key: Seq<u8>,
    state: DurableProofState,
    facts: RestoreFacts,
    party: ProofParty<N, B, S>,
)
    requires
        is_first_state(config, seeds, pq_key, state),
        holds(party, state, config, facts),
        refused(facts.pq.key) is None,
        facts.pq.own,
    ensures
        !party.contradictory(),
        party.pq_state_refusal(facts.pq) is None,
{
    nothing_counted(party.completed_evidence);
    nothing_counted(party.application_controls);
    nothing_counted(party.pq_identity_cache);
}

/// The first state is one that a party is started from, where its own post-quantum
/// key is accepted: no part of it is refused, and the party has used nothing yet.
pub proof fn first_state_is_accepted<N, B, S, F: Fn(&Vec<u8>, &Vec<u8>, &Vec<u8>) -> bool>(
    config: ProofPartyConfig,
    seeds: Seeds,
    pq_key: Seq<u8>,
    state: DurableProofState,
    facts: RestoreFacts,
    signed: F,
    r: Result<(ProofParty<N, B, S>, Seeds), String>,
)
    requires
        is_first_state(config, seeds, pq_key, state),
        seeds_fit(seeds),
        refused(facts.pq.key) is None,
        facts.pq.own,
        ProofParty::<N, B, S>::restored(config, state, facts, signed, r),
    ensures
        facts_cover(state, config, facts),
        r matches Ok((party, _)) && {
            &&& party.state_generation == 0
            &&& party.state_healthy
            &&& forall|k: Seq<u8>| !#[trigger] party.reserved.has(k)
            &&& forall|k: Seq<u8>| !#[trigger] party.completed.has(k)
            &&& forall|k: Seq<u8>| !#[trigger] party.frost_reserved.has(k)
            &&& forall|k: Seq<u8>| !#[trigger] party.frost_consumed.has(k)
        },
{
    hex_round_trip(sha256(config.security_message()));
    if let Some(key) = config.trusted_defmi_receipt_public {
        hex_round_trip(key@);
    }
    assert(state_refusal(state, config, facts) is None);
    if let Err(e) = r {
        assert(!peers_checked(state, config, facts, signed, Some(e@)));
        let party = choose|party: ProofParty<N, B, S>|
            #[trigger] holds(party, state, config, facts) && party.ordered() && if party.contradictory() {
                e@ == "proof-party state contains contradictory lifecycle sets"@
            } else {
                party.pq_state_refusal(facts.pq) == Some(e@)
            };
        fresh_party(config, seeds, pq_key, state, facts, party);
    }
}

} // verus!
