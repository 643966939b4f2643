//! What a node keeps on disk and starts from again: whose state it takes, what has to
//! stand in it, and where each value stands.

use vstd::prelude::*;
use crate::bytes::text_bytes;
use crate::digest::sha256;
use crate::group::is_point;
use crate::proof_config::ProofPartyConfig;
use crate::proof_durable::{evidence_refusal, ids_refusal, pairs_refusal, DurableEvidence};
use crate::proof_restore::{
    envelopes_refusal, holds, owner_refusal, round1_refusal, round2_refusal, rounds_refusal, same_entries,
    state_refusal, stored_key_refusal, stored_manifest_refusal, DurableEnvelope, DurableProofState, RestoreFacts,
    Seeds,
};
use crate::proof_state::{signing_job_of, CompletedProof, ProofParty};
use crate::text::{base64_bytes, hex_bytes, hex_text, is_hex};

verus! {

/// Whether a text is thirty-two bytes in hexadecimal.
pub open spec fn digest_text(text: Seq<char>) -> bool {
    is_hex(text) && hex_bytes(text).len() == 32
}

/// A signing job is named by the message that it signs.
pub proof fn signing_job_is_of_its_message(message: Seq<u8>)
    ensures
        signing_job_of(message) == sha256(text_bytes("QOMM:FROST:SIGNING-JOB:v1"@) + message),
{
}

/// A state is taken up only by the node that wrote it: its number, the size of its
/// committee, its makers, its threshold, its receipt key and its whole configuration have
/// to be the same.
pub proof fn state_is_its_owners(state: DurableProofState, config: ProofPartyConfig)
    ensures
        owner_refusal(state, config) is None <==> {
            &&& state.trusted_defmi_receipt_public is Some <==> config.trusted_defmi_receipt_public is Some
            &&& config.trusted_defmi_receipt_public is Some ==> digest_text(
                (state.trusted_defmi_receipt_public->0)@,
            ) && hex_bytes((state.trusted_defmi_receipt_public->0)@) == (config.trusted_defmi_receipt_public->0)@
            &&& digest_text(state.proof_configuration_digest@)
            &&& hex_bytes(state.proof_configuration_digest@) == sha256(config.security_message())
            &&& state.node == config.node
            &&& state.n_mm == config.n_mm
            &&& state.n_parties == config.n_parties
            &&& state.threshold == config.threshold
        },
{
}

/// A manifest is stored whole, and the rounds of key generation one at a time, beside the
/// manifest that they belong to.
pub proof fn rounds_are_stored_with_their_manifest(state: DurableProofState, parties: nat)
    ensures
        stored_manifest_refusal(state.frost_peer_manifest, parties) is None <==> (state.frost_peer_manifest is Some
            ==> digest_text((state.frost_peer_manifest->0).session@) && (
        state.frost_peer_manifest->0).entries@.len() == parties),
        rounds_refusal(state) is None <==> {
            &&& state.frost_dkg_round1 is None || state.frost_dkg_round2 is None
            &&& state.frost_dkg_round1 is Some || state.frost_dkg_round2 is Some ==> state.frost_peer_manifest is Some
            &&& state.frost_dkg_round2 is Some ==> {
                let round = state.frost_dkg_round2->0;
                let manifest = state.frost_peer_manifest->0;
                &&& hex_bytes(round.session@) == hex_bytes(manifest.session@)
                &&& same_entries(round.entries@, manifest.entries@)
            }
        },
{
}

/// The first round is stored as two packages, the broadcast of at most a mebibyte.
pub proof fn first_round_is_stored_exactly(state: DurableProofState, facts: RestoreFacts)
    ensures
        round1_refusal(state.frost_dkg_round1, facts) is None <==> (state.frost_dkg_round1 is Some ==> {
            let round = state.frost_dkg_round1->0;
            &&& base64_bytes(round.secret_package@) is Some && facts.round1_secret
            &&& base64_bytes(round.broadcast_package@) is Some && facts.round1_broadcast
            &&& 0 < (base64_bytes(round.broadcast_package@)->0).len() <= 0x10_0000
        }),
{
}

proof fn all_envelopes_stored(stored: Seq<DurableEnvelope>, known: Seq<bool>, count: nat)
    requires
        count <= stored.len(),
    ensures
        envelopes_refusal(stored, known, count) is None <==> forall|i: int|
            #![trigger stored[i]]
            0 <= i < count ==> stored[i].envelope is Some && base64_bytes((stored[i].envelope->0)@) is Some
                && known[i],
    decreases count,
{
    if count > 0 {
        all_envelopes_stored(stored, known, (count - 1) as nat);
        let last = stored[count - 1];
    }
}

/// The second round is stored as its session, its packages, the digest of its broadcasts,
/// and an envelope for each other party.
pub proof fn second_round_is_stored_exactly(state: DurableProofState, facts: RestoreFacts, parties: nat)
    ensures
        round2_refusal(state.frost_dkg_round2, facts, parties) is None <==> (state.frost_dkg_round2 is Some ==> {
            let round = state.frost_dkg_round2->0;
            &&& digest_text(round.session@)
            &&& base64_bytes(round.secret_package@) is Some && facts.round2_secret
            &&& base64_bytes(round.round1_package@) is Some && facts.round2_broadcast
            &&& 0 < (base64_bytes(round.round1_package@)->0).len() <= 0x10_0000
            &&& digest_text(round.broadcasts_digest@)
            &&& round.encrypted@.len() == parties - 1
            &&& forall|i: int|
                #![trigger round.encrypted@[i]]
                0 <= i < round.encrypted@.len() ==> round.encrypted@[i].envelope is Some && base64_bytes(
                    (round.encrypted@[i].envelope->0)@,
                ) is Some && facts.envelopes@[i]
        }),
{
    if let Some(round) = state.frost_dkg_round2 {
        all_envelopes_stored(round.encrypted@, facts.envelopes@, round.encrypted@.len());
    }
}

/// A key is stored with its public package and its session, or not at all, and a digest of
/// its finalization only with a key.
pub proof fn key_is_stored_whole(state: DurableProofState, facts: RestoreFacts)
    ensures
        stored_key_refusal(state, facts) is None <==> {
            &&& state.frost_key_package is Some <==> state.frost_public_package is Some
            &&& state.frost_key_package is Some <==> state.frost_session is Some
            &&& state.frost_dkg_finalize_digest is Some ==> state.frost_key_package is Some
            &&& state.frost_key_package is Some ==> base64_bytes((state.frost_key_package->0)@) is Some
                && facts.key_package
            &&& state.frost_public_package is Some ==> base64_bytes((state.frost_public_package->0)@) is Some
                && facts.public_package
        },
{
}

/// A state is taken up only where it is the owner's, every part of it is well formed, its
/// seeds are of their lengths, and it is not both pending and final.
pub proof fn state_is_taken_up_exactly(state: DurableProofState, config: ProofPartyConfig, facts: RestoreFacts)
    ensures
        state_refusal(state, config, facts) is None <==> {
            &&& owner_refusal(state, config) is None
            &&& state.frost_session is Some ==> digest_text((state.frost_session->0)@)
            &&& state.frost_dkg_finalize_digest is Some ==> digest_text((state.frost_dkg_finalize_digest->0)@)
            &&& stored_manifest_refusal(state.frost_peer_manifest, config.n_parties as nat) is None
            &&& round1_refusal(state.frost_dkg_round1, facts) is None
            &&& round2_refusal(state.frost_dkg_round2, facts, config.n_parties as nat) is None
            &&& rounds_refusal(state) is None
            &&& pairs_refusal(
                state.frost_authorized@,
                "stored FROST authorization job is malformed"@,
                "stored FROST authorization digest is malformed"@,
                None,
            ) is None
            &&& evidence_refusal(state.completed_evidence@) is None
            &&& pairs_refusal(
                state.application_controls@,
                "stored control id must be a 32-byte hexadecimal value"@,
                "stored control action must be a 32-byte hexadecimal value"@,
                Some("stored control binding is empty"@),
            ) is None
            &&& stored_key_refusal(state, facts) is None
            &&& base64_bytes(state.exchange_private@) is Some && (base64_bytes(state.exchange_private@)->0).len() == 96
            &&& base64_bytes(state.pq_private@) is Some && (base64_bytes(state.pq_private@)->0).len() == 32
            &&& base64_bytes(state.application_private@) is Some && (base64_bytes(
                state.application_private@,
            )->0).len() == 64
            &&& base64_bytes(state.identity_private@) is Some && (base64_bytes(state.identity_private@)->0).len() == 32
            &&& ids_refusal(state.proof_reserved@, "stored proof reservations"@) is None
            &&& ids_refusal(state.proof_completed@, "stored completed proofs"@) is None
            &&& ids_refusal(state.frost_reserved@, "stored FROST reservations"@) is None
            &&& ids_refusal(state.frost_consumed@, "stored FROST completions"@) is None
            &&& ids_refusal(state.publication_consumed@, "stored publication completions"@) is None
            &&& state.frost_peer_manifest is None || state.frost_key_package is None
        },
{
}

/// Identifiers are read exactly where every one of them is of thirty-two bytes.
pub proof fn identifiers_are_read_exactly(texts: Seq<String>, name: Seq<char>)
    ensures
        ids_refusal(texts, name) is None <==> forall|i: int|
            0 <= i < texts.len() ==> digest_text((#[trigger] texts[i])@),
    decreases texts.len(),
{
    if texts.len() > 0 {
        let fewer = texts.drop_last();
        identifiers_are_read_exactly(fewer, name);
        let last = texts[texts.len() - 1];
        assert(forall|i: int| 0 <= i < fewer.len() ==> fewer[i] == #[trigger] texts[i]);
        if ids_refusal(texts, name) is None {
            assert forall|i: int| 0 <= i < texts.len() implies digest_text((#[trigger] texts[i])@) by {
                if i < fewer.len() {
                    assert(digest_text(fewer[i]@));
                }
            }
        } else if forall|i: int| 0 <= i < texts.len() ==> digest_text((#[trigger] texts[i])@) {
            assert forall|i: int| 0 <= i < fewer.len() implies digest_text((#[trigger] fewer[i])@) by {
                assert(digest_text(texts[i]@));
            }
        }
    }
}

/// What a completed proof leaves is stored under its job, every digest in hexadecimal
/// under its own name.
pub proof fn evidence_is_stored_by_its_names(stored: DurableEvidence, job: Seq<u8>, value: CompletedProof)
    requires
        stored.writes(job, value),
    ensures
        stored.job@ == hex_text(job),
        stored.completed.payment_digest@ == hex_text(value.payment_digest@),
        stored.completed.quote_digest@ == hex_text(value.quote_digest@),
        value.winning_policy_digest is Some ==> stored.completed.winning_policy_digest is Some && (
        stored.completed.winning_policy_digest->0)@ == hex_text((value.winning_policy_digest->0)@),
        value.typed_message_digest is Some ==> stored.completed.typed_message_digest is Some && (
        stored.completed.typed_message_digest->0)@ == hex_text((value.typed_message_digest->0)@),
        value.maker_handle is Some ==> stored.completed.maker_handle is Some && (stored.completed.maker_handle->0)@
            == hex_text((value.maker_handle->0)@),
        value.taker_handle is Some ==> stored.completed.taker_handle is Some && (stored.completed.taker_handle->0)@
            == hex_text((value.taker_handle->0)@),
        stored.completed.maker_is_payer == value.maker_is_payer,
        value.securities_reserve is Some ==> stored.completed.securities_reserve is Some && (
        stored.completed.securities_reserve->0)@ == hex_text((value.securities_reserve->0)@),
        value.cash_reserve is Some ==> stored.completed.cash_reserve is Some && (stored.completed.cash_reserve->0)@
            == hex_text((value.cash_reserve->0)@),
        value.application_action_digest is Some ==> stored.completed.application_action_digest is Some && (
        stored.completed.application_action_digest->0)@ == hex_text((value.application_action_digest->0)@),
        value.winning_policy_digest is None ==> stored.completed.winning_policy_digest is None,
        value.typed_message_digest is None ==> stored.completed.typed_message_digest is None,
        value.maker_handle is None ==> stored.completed.maker_handle is None,
        value.taker_handle is None ==> stored.completed.taker_handle is None,
        value.securities_reserve is None ==> stored.completed.securities_reserve is None,
        value.cash_reserve is None ==> stored.completed.cash_reserve is None,
        value.application_action_digest is None ==> stored.completed.application_action_digest is None,
{
}

/// Stored evidence is read exactly where its digests are of their lengths and its handles
/// and reserves are canonical points.
pub proof fn evidence_is_read_exactly(stored: DurableEvidence)
    ensures
        stored.refusal() is None <==> {
            let kept = stored.completed;
            &&& digest_text(stored.job@)
            &&& is_hex(kept.payment_digest@) && hex_bytes(kept.payment_digest@).len() == 64
            &&& digest_text(kept.quote_digest@)
            &&& kept.typed_message_digest is Some ==> digest_text((kept.typed_message_digest->0)@)
            &&& kept.winning_policy_digest is Some ==> digest_text((kept.winning_policy_digest->0)@)
            &&& kept.application_action_digest is Some ==> digest_text((kept.application_action_digest->0)@)
            &&& kept.maker_handle is Some ==> digest_text((kept.maker_handle->0)@) && is_point(
                hex_bytes((kept.maker_handle->0)@),
            )
            &&& kept.taker_handle is Some ==> digest_text((kept.taker_handle->0)@) && is_point(
                hex_bytes((kept.taker_handle->0)@),
            )
            &&& kept.securities_reserve is Some ==> digest_text((kept.securities_reserve->0)@) && is_point(
                hex_bytes((kept.securities_reserve->0)@),
            )
            &&& kept.cash_reserve is Some ==> digest_text((kept.cash_reserve->0)@) && is_point(
                hex_bytes((kept.cash_reserve->0)@),
            )
        },
{
}

/// A node that starts again has its generation, is healthy, and has no job under way and
/// no nonce: what was not finished is not taken up.
pub proof fn restarted_node_has_no_open_work<N, B, S>(
    party: ProofParty<N, B, S>,
    state: DurableProofState,
    config: ProofPartyConfig,
    facts: RestoreFacts,
)
    requires
        holds(party, state, config, facts),
    ensures
        party.config == config,
        party.identity_public == facts.identity_public,
        party.application_identity == facts.application_identity,
        party.state_generation == state.generation,
        party.state_healthy,
        party.jobs.entries@.len() == 0,
        party.frost_nonces.entries@.len() == 0,
        party.pending_peers is None,
        forall|i: int|
            0 <= i < state.proof_reserved@.len() ==> party.reserved.has(
                hex_bytes((#[trigger] state.proof_reserved@[i])@),
            ),
        forall|i: int|
            0 <= i < state.proof_completed@.len() ==> party.completed.has(
                hex_bytes((#[trigger] state.proof_completed@[i])@),
            ),
        forall|i: int|
            0 <= i < state.frost_reserved@.len() ==> party.frost_reserved.has(
                hex_bytes((#[trigger] state.frost_reserved@[i])@),
            ),
        forall|i: int|
            0 <= i < state.frost_consumed@.len() ==> party.frost_consumed.has(
                hex_bytes((#[trigger] state.frost_consumed@[i])@),
            ),
        forall|i: int|
            0 <= i < state.publication_consumed@.len() ==> party.publication_consumed.has(
                hex_bytes((#[trigger] state.publication_consumed@[i])@),
            ),
        state.frost_key_package is Some <==> party.frost_key is Some,
        state.frost_key_package is Some ==> base64_bytes((state.frost_key_package->0)@) == Some(
            (party.frost_key->0).key_package@,
        ) && base64_bytes((state.frost_public_package->0)@) == Some((party.frost_key->0).public_package@) && (
        party.frost_key->0).session@ == hex_bytes((state.frost_session->0)@),
{
}

/// A restored state contradicts itself exactly where a job is both reserved and completed,
/// reserved and consumed, or authorized and used, where evidence is kept of a job that was
/// not completed, or where more than four thousand and ninety-six are kept.
pub proof fn contradictions_are_told_exactly<N, B, S>(state: ProofParty<N, B, S>)
    ensures
        !state.contradictory() <==> {
            &&& forall|k: Seq<u8>| !(#[trigger] state.reserved.has(k) && #[trigger] state.completed.has(k))
            &&& forall|k: Seq<u8>| !(#[trigger] state.frost_reserved.has(k) && #[trigger] state.frost_consumed.has(k))
            &&& forall|k: Seq<u8>|
                !(#[trigger] state.frost_authorized.has(k) && #[trigger] state.frost_reserved.has(k))
            &&& forall|k: Seq<u8>|
                !(#[trigger] state.frost_authorized.has(k) && #[trigger] state.frost_consumed.has(k))
            &&& forall|k: Seq<u8>| #[trigger] state.completed_evidence.has(k) ==> state.completed.has(k)
            &&& state.completed_evidence.entries@.len() <= 4096
            &&& state.application_controls.entries@.len() <= 4096
        },
{
}

/// A written state names its owner, its version and its generation, and holds every part
/// of the node under its own name.
pub proof fn node_is_written_by_its_names<N, B, S>(
    party: ProofParty<N, B, S>,
    generation: u64,
    seeds: Seeds,
    pq_key: Seq<u8>,
    state: DurableProofState,
)
    requires
        party.kept_as(generation, seeds, pq_key, state),
    ensures
        state.version == 6,
        state.generation == generation,
        hex_bytes(state.proof_configuration_digest@) == sha256(party.config.security_message()),
        state.node == party.config.node && state.n_mm == party.config.n_mm,
        state.n_parties == party.config.n_parties && state.threshold == party.config.threshold,
        base64_bytes(state.identity_private@) == Some(seeds.identity@),
        base64_bytes(state.application_private@) == Some(seeds.application@),
        base64_bytes(state.exchange_private@) == Some(seeds.exchange@),
        base64_bytes(state.pq_private@) == Some(seeds.pq@),
        state.pq_key@ == pq_key,
        party.frost_key is Some <==> state.frost_key_package is Some,
        party.frost_key is Some ==> {
            &&& (state.frost_session->0)@ == hex_text((party.frost_key->0).session@)
            &&& base64_bytes((state.frost_key_package->0)@) == Some((party.frost_key->0).key_package@)
            &&& base64_bytes((state.frost_public_package->0)@) == Some((party.frost_key->0).public_package@)
        },
        party.peers is Some <==> state.frost_peer_manifest is Some,
        party.peers is Some ==> (state.frost_peer_manifest->0).session@ == hex_text((party.peers->0).session@),
        state.proof_reserved@.len() == party.reserved.entries@.len(),
        forall|i: int|
            0 <= i < state.proof_reserved@.len() ==> (#[trigger] state.proof_reserved@[i])@ == hex_text(
                party.reserved.entries@[i].key@,
            ),
        state.proof_completed@.len() == party.completed.entries@.len(),
        forall|i: int|
            0 <= i < state.proof_completed@.len() ==> (#[trigger] state.proof_completed@[i])@ == hex_text(
                party.completed.entries@[i].key@,
            ),
        state.frost_reserved@.len() == party.frost_reserved.entries@.len(),
        forall|i: int|
            0 <= i < state.frost_reserved@.len() ==> (#[trigger] state.frost_reserved@[i])@ == hex_text(
                party.frost_reserved.entries@[i].key@,
            ),
        state.frost_consumed@.len() == party.frost_consumed.entries@.len(),
        forall|i: int|
            0 <= i < state.frost_consumed@.len() ==> (#[trigger] state.frost_consumed@[i])@ == hex_text(
                party.frost_consumed.entries@[i].key@,
            ),
        state.publication_consumed@.len() == party.publication_consumed.entries@.len(),
        forall|i: int|
            0 <= i < state.publication_consumed@.len() ==> (#[trigger] state.publication_consumed@[i])@ == hex_text(
                party.publication_consumed.entries@[i].key@,
            ),
        state.frost_authorized@.len() == party.frost_authorized.entries@.len(),
        forall|i: int|
            #![trigger state.frost_authorized@[i]]
            0 <= i < state.frost_authorized@.len() ==> state.frost_authorized@[i].key@ == hex_text(
                party.frost_authorized.entries@[i].key@,
            ) && state.frost_authorized@[i].value@ == hex_text(party.frost_authorized.entries@[i].value@),
        state.application_controls@.len() == party.application_controls.entries@.len(),
        forall|i: int|
            #![trigger state.application_controls@[i]]
            0 <= i < state.application_controls@.len() ==> state.application_controls@[i].key@ == hex_text(
                party.application_controls.entries@[i].key@,
            ) && state.application_controls@[i].value@ == hex_text(party.application_controls.entries@[i].value@),
        state.completed_evidence@.len() == party.completed_evidence.entries@.len(),
{
}

} // verus!
