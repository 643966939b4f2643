//! Making a committee's key: whom a node takes as a peer, what it demands of the others
//! at each step, and what it keeps of the key.

use vstd::prelude::*;
use crate::bytes::{be_bytes, text_bytes};
use crate::digest::sha256;
use crate::json::{array_in, text_in, Json, Value};
use crate::oracle::{printed, signature_holds, yes};
use crate::party_laws::names32;
use crate::proof_config::{is_ed25519_key, ProofPartyConfig};
use crate::proof_dkg::{
    envelopes_of, finalize_digest_of, incoming_list_refusal, incoming_refusal, incoming_set_refusal, sealed_refusal,
    sent_before, DirectedEnvelope, IncomingFacts, PqFacts, QuorumPolicy,
};
use crate::proof_frost::party_in;
use crate::proof_keygen::{
    broadcast_views, envelope_directed, others_of, package_directed, DirectedPackage, IncomingEnvelope, SecondTools,
};
use crate::proof_peers::{
    broadcast_list_refusal, broadcast_refusal, broadcasts_refusal, broadcasts_said, by_party, confirmation_refusal,
    confirmations_refusal, confirmed_refusal, ed25519_signed, entries_of, manifest_refusal, named_before,
    peer_refusal, peers_refusal, Broadcast, FrostPeerEntry, OwnKeys, PendingPeers, ProposedPeer,
};
use crate::proof_state::{outcome_of, written, ProofParty};
use crate::text::{base64_bytes, hex_bytes, hex_text, is_hex};

verus! {

/// A peer's text about its own keys.
pub open spec fn own_words(session: Seq<u8>, peer: ProposedPeer, suite: Seq<u8>) -> Seq<u8> {
    text_bytes("QOMM:FROST:PEER-IDENTITY:v2"@) + session + be_bytes(peer.entry.party as nat, 2) + hex_bytes(
        peer.entry.identity_public@,
    ) + suite + hex_bytes(peer.entry.exchange_public@) + peer.entry.pq_key@
}

/// A peer is taken exactly where its number is that of its place, its keys are keys, the
/// exchange suite is this node's, and both of its identities signed all of its keys for
/// the session.
pub proof fn peer_is_taken_exactly<F: Fn(&Vec<u8>, &Vec<u8>, &Vec<u8>) -> bool>(
    session: Seq<u8>,
    suite: Seq<u8>,
    peer: ProposedPeer,
    index: nat,
    signed: F,
)
    ensures
        peer_refusal(session, suite, peer, index, signed) is None <==> {
            let entry = peer.entry;
            let identity = hex_bytes(entry.identity_public@);
            &&& entry.party == index + 1
            &&& is_hex(entry.identity_public@) && identity.len() == 32 && is_ed25519_key(identity)
            &&& entry.exchange_suite@ == suite
            &&& is_hex(entry.exchange_public@) && peer.facts.exchange is Ok
            &&& is_hex(entry.self_signature@) && hex_bytes(entry.self_signature@).len() == 64
            &&& ed25519_signed(identity, own_words(session, peer, suite), hex_bytes(entry.self_signature@))
            &&& peer.facts.pq_valid is Ok && peer.facts.pq_settlement
            &&& base64_bytes(entry.pq_self_signature@) is Some
            &&& signature_holds(
                signed,
                entry.pq_key@,
                own_words(session, peer, suite),
                base64_bytes(entry.pq_self_signature@)->0,
            )
        },
{
}

proof fn all_peers_taken<F: Fn(&Vec<u8>, &Vec<u8>, &Vec<u8>) -> bool>(
    session: Seq<u8>,
    suite: Seq<u8>,
    peers: Seq<ProposedPeer>,
    signed: F,
    count: nat,
)
    requires
        count <= peers.len(),
    ensures
        peers_refusal(session, suite, peers, signed, count) is None <==> forall|i: int|
            0 <= i < count ==> peer_refusal(session, suite, #[trigger] peers[i], i as nat, signed) is None,
    decreases count,
{
    if count > 0 {
        all_peers_taken(session, suite, peers, signed, (count - 1) as nat);
        if peers_refusal(session, suite, peers, signed, count) is None {
            assert(peer_refusal(session, suite, peers[count - 1], (count - 1) as nat, signed) is None);
        }
        if forall|i: int|
            0 <= i < count ==> peer_refusal(session, suite, #[trigger] peers[i], i as nat, signed) is None {
            assert(peer_refusal(session, suite, peers[count - 1], (count - 1) as nat, signed) is None);
        }
    }
}

/// A manifest is taken exactly where it names as many peers as the committee has, at most
/// sixty-four, every one of them is taken in the order of their numbers, and this node's
/// own place holds this node's own keys.
pub proof fn manifest_is_taken_exactly<F: Fn(&Vec<u8>, &Vec<u8>, &Vec<u8>) -> bool>(
    config: ProofPartyConfig,
    identity: Seq<u8>,
    keys: OwnKeys,
    session: Seq<u8>,
    peers: Seq<ProposedPeer>,
    signed: F,
)
    requires
        by_party(peers).len() == peers.len(),
    ensures
        manifest_refusal(config, identity, keys, session, peers, signed) is None <==> {
            let own = by_party(peers)[config.node as int].entry;
            &&& peers.len() == config.n_parties && peers.len() <= 64
            &&& forall|i: int|
                0 <= i < peers.len() ==> peer_refusal(
                    session,
                    keys.suite@,
                    #[trigger] by_party(peers)[i],
                    i as nat,
                    signed,
                ) is None
            &&& (config.node as int) < peers.len()
            &&& own.party == config.node + 1
            &&& own.identity_public@ == hex_text(identity)
            &&& keys.exchange_public is Ok
            &&& own.exchange_public@ == hex_text((keys.exchange_public->Ok_0)@)
            &&& own.pq_key@ == keys.pq_key@
        },
{
    all_peers_taken(session, keys.suite@, by_party(peers), signed, peers.len());
}

/// A confirmation is taken exactly where it is the first of a known peer, and both of
/// that peer's identities signed the session and the manifest's digest.
pub proof fn confirmation_is_taken_exactly<F: Fn(&Vec<u8>, &Vec<u8>, &Vec<u8>) -> bool>(
    peers: PendingPeers,
    entries: Seq<Json>,
    at: int,
    signed: F,
)
    ensures
        confirmation_refusal(peers, entries, at, signed) is None <==> {
            let party = party_in(entries[at].field("party"@));
            let text = text_in(entries[at].field("confirmation"@));
            let pq_text = text_in(entries[at].field("pq_confirmation"@));
            let peer = peers.entries@[party->0 - 1];
            let body = text_bytes("QOMM:FROST:PEER-CONFIRM:v2"@) + peers.session@ + peers.digest@;
            &&& party is Some && 1 <= party->0 <= peers.entries@.len()
            &&& forall|j: int| 0 <= j < at ==> party_in((#[trigger] entries[j]).field("party"@)) != party
            &&& text is Some && is_hex(text->0) && hex_bytes(text->0).len() == 64
            &&& is_hex(peer.identity_public@) && hex_bytes(peer.identity_public@).len() == 32
            &&& is_ed25519_key(hex_bytes(peer.identity_public@))
            &&& ed25519_signed(hex_bytes(peer.identity_public@), body, hex_bytes(text->0))
            &&& pq_text is Some && base64_bytes(pq_text->0) is Some
            &&& signature_holds(signed, peer.pq_key@, body, base64_bytes(pq_text->0)->0)
        },
{
    assert(named_before(entries, at) <==> !(forall|j: int|
        0 <= j < at ==> party_in((#[trigger] entries[j]).field("party"@)) != party_in(entries[at].field("party"@))));
}

proof fn all_confirmed<F: Fn(&Vec<u8>, &Vec<u8>, &Vec<u8>) -> bool>(
    peers: PendingPeers,
    entries: Seq<Json>,
    signed: F,
    count: nat,
)
    requires
        count <= entries.len(),
    ensures
        confirmed_refusal(peers, entries, signed, count) is None <==> forall|i: int|
            #![trigger entries[i]]
            0 <= i < count ==> confirmation_refusal(peers, entries, i, signed) is None,
    decreases count,
{
    if count > 0 {
        all_confirmed(peers, entries, signed, (count - 1) as nat);
        let last = entries[count - 1];
        if forall|i: int|
            #![trigger entries[i]]
            0 <= i < count ==> confirmation_refusal(peers, entries, i, signed) is None {
            assert(confirmation_refusal(peers, entries, count - 1, signed) is None);
        }
    }
}

/// A manifest is confirmed exactly by one confirmation of each peer.
pub proof fn manifest_is_confirmed_exactly<F: Fn(&Vec<u8>, &Vec<u8>, &Vec<u8>) -> bool>(
    peers: PendingPeers,
    params: Json,
    signed: F,
)
    ensures
        confirmations_refusal(peers, params, signed) is None <==> {
            let entries = array_in(params.field("confirmations"@))->0;
            &&& array_in(params.field("confirmations"@)) is Some
            &&& entries.len() == peers.entries@.len()
            &&& forall|i: int|
                #![trigger entries[i]]
                0 <= i < entries.len() ==> confirmation_refusal(peers, entries, i, signed) is None
        },
{
    if let Some(entries) = array_in(params.field("confirmations"@)) {
        all_confirmed(peers, entries, signed, entries.len());
    }
}

/// A broadcast is taken exactly where it is the first of a known peer, and holds a package
/// of at most a mebibyte.
pub proof fn broadcast_is_taken_exactly<D: Fn(&Vec<u8>) -> bool>(
    peers: PendingPeers,
    entries: Seq<Json>,
    at: int,
    decodes: D,
)
    ensures
        broadcast_refusal(peers, entries, at, decodes) is None <==> {
            let party = party_in(entries[at].field("party"@));
            let text = text_in(entries[at].field("package"@));
            let raw = base64_bytes(text->0);
            &&& party is Some && 1 <= party->0 <= peers.entries@.len()
            &&& text is Some && raw is Some
            &&& 0 < (raw->0).len() <= 0x10_0000
            &&& yes(decodes, raw->0)
            &&& forall|j: int| 0 <= j < at ==> party_in((#[trigger] entries[j]).field("party"@)) != party
        },
{
    assert(named_before(entries, at) <==> !(forall|j: int|
        0 <= j < at ==> party_in((#[trigger] entries[j]).field("party"@)) != party_in(entries[at].field("party"@))));
}

proof fn all_broadcast<D: Fn(&Vec<u8>) -> bool>(peers: PendingPeers, entries: Seq<Json>, decodes: D, count: nat)
    requires
        count <= entries.len(),
    ensures
        broadcast_list_refusal(peers, entries, decodes, count) is None <==> forall|i: int|
            #![trigger entries[i]]
            0 <= i < count ==> broadcast_refusal(peers, entries, i, decodes) is None,
    decreases count,
{
    if count > 0 {
        all_broadcast(peers, entries, decodes, (count - 1) as nat);
        let last = entries[count - 1];
        if forall|i: int|
            #![trigger entries[i]]
            0 <= i < count ==> broadcast_refusal(peers, entries, i, decodes) is None {
            assert(broadcast_refusal(peers, entries, count - 1, decodes) is None);
        }
    }
}

/// Broadcasts are taken exactly where there is one of each peer.
pub proof fn broadcasts_are_taken_exactly<D: Fn(&Vec<u8>) -> bool>(peers: PendingPeers, params: Json, decodes: D)
    ensures
        broadcasts_refusal(peers, params, decodes) is None <==> {
            let entries = array_in(params.field("broadcasts"@))->0;
            &&& array_in(params.field("broadcasts"@)) is Some
            &&& entries.len() == peers.entries@.len()
            &&& forall|i: int|
                #![trigger entries[i]]
                0 <= i < entries.len() ==> broadcast_refusal(peers, entries, i, decodes) is None
        },
{
    if let Some(entries) = array_in(params.field("broadcasts"@)) {
        all_broadcast(peers, entries, decodes, entries.len());
    }
}

/// A directed package is taken exactly where it goes from another known peer to this node,
/// is the first of its sender, can be opened under the sender's keys, and holds a package.
pub proof fn directed_package_is_taken_exactly(
    peers: PendingPeers,
    own: nat,
    entries: Seq<Json>,
    at: int,
    facts: IncomingFacts,
)
    ensures
        incoming_refusal(peers, own, entries, at, facts) is None <==> {
            let sender = party_in(entries[at].field("sender"@));
            let text = text_in(entries[at].field("envelope"@));
            &&& sender is Some && sender->0 != own && 1 <= sender->0 <= peers.entries@.len()
            &&& party_in(entries[at].field("recipient"@)) == Some(own)
            &&& text is Some && base64_bytes(text->0) is Some
            &&& facts.decoded is Ok
            &&& facts.opened == Ok::<bool, String>(true)
            &&& facts.package
            &&& forall|j: int| 0 <= j < at ==> party_in((#[trigger] entries[j]).field("sender"@)) != sender
        },
{
    assert(sent_before(entries, at) <==> !(forall|j: int|
        0 <= j < at ==> party_in((#[trigger] entries[j]).field("sender"@)) != party_in(entries[at].field("sender"@))));
}

proof fn all_incoming(peers: PendingPeers, own: nat, entries: Seq<Json>, facts: Seq<IncomingFacts>, count: nat)
    requires
        count <= entries.len(),
    ensures
        incoming_list_refusal(peers, own, entries, facts, count) is None <==> forall|i: int|
            #![trigger entries[i]]
            0 <= i < count ==> incoming_refusal(peers, own, entries, i, facts[i]) is None,
    decreases count,
{
    if count > 0 {
        all_incoming(peers, own, entries, facts, (count - 1) as nat);
        let last = entries[count - 1];
        if forall|i: int|
            #![trigger entries[i]]
            0 <= i < count ==> incoming_refusal(peers, own, entries, i, facts[i]) is None {
            assert(incoming_refusal(peers, own, entries, count - 1, facts[count - 1]) is None);
        }
    }
}

/// Directed packages are taken exactly where there is one of each other peer.
pub proof fn directed_packages_are_taken_exactly(
    peers: PendingPeers,
    own: nat,
    params: Json,
    facts: Seq<IncomingFacts>,
)
    ensures
        incoming_set_refusal(peers, own, params, facts) is None <==> {
            let entries = array_in(params.field("incoming"@))->0;
            &&& array_in(params.field("incoming"@)) is Some
            &&& entries.len() == peers.entries@.len() - 1
            &&& forall|i: int|
                #![trigger entries[i]]
                0 <= i < entries.len() ==> incoming_refusal(peers, own, entries, i, facts[i]) is None
        },
{
    if let Some(entries) = array_in(params.field("incoming"@)) {
        all_incoming(peers, own, entries, facts, entries.len());
    }
}

/// Of the sealed packages, those of the other parties leave the node, each to the party
/// at its place, in order, and none to the node itself.
pub proof fn every_other_party_gets_its_envelope(
    sealed: Seq<Result<Vec<u8>, String>>,
    own: int,
    count: nat,
    envelopes: Seq<DirectedEnvelope>,
)
    requires
        count <= sealed.len(),
        envelopes_of(sealed, own, count, envelopes),
    ensures
        envelopes.len() == if 0 <= own < count {
            count - 1
        } else {
            count as int
        },
        forall|i: int|
            #![trigger envelopes[i]]
            0 <= i < envelopes.len() ==> {
                let place = if i < own || own < 0 {
                    i
                } else {
                    i + 1
                };
                &&& envelopes[i].sender == own + 1
                &&& envelopes[i].recipient == place + 1
                &&& sealed[place] is Ok
                &&& envelopes[i].envelope@ == (sealed[place]->Ok_0)@
            },
    decreases count,
{
    if count > 0 {
        if count - 1 == own {
            every_other_party_gets_its_envelope(sealed, own, (count - 1) as nat, envelopes);
        } else {
            every_other_party_gets_its_envelope(sealed, own, (count - 1) as nat, envelopes.drop_last());
            assert forall|i: int| #![trigger envelopes[i]] 0 <= i < envelopes.len() - 1 implies envelopes[i]
                == envelopes.drop_last()[i] by {}
        }
    }
}

/// A package for another party is refused by the first that could not be sealed; one's own
/// is never asked for.
pub proof fn sealing_fails_with_another_partys_package(
    sealed: Seq<Result<Vec<u8>, String>>,
    own: int,
    count: nat,
)
    requires
        count <= sealed.len(),
    ensures
        sealed_refusal(sealed, own, count) is None <==> forall|i: int|
            0 <= i < count && i != own ==> (#[trigger] sealed[i]) is Ok,
    decreases count,
{
    if count > 0 {
        sealing_fails_with_another_partys_package(sealed, own, (count - 1) as nat);
        let last = sealed[count - 1];
    }
}

/// A node hands to the second round what every other party broadcast, in order, and
/// nothing of its own.
pub proof fn others_leave_out_the_own_broadcast(broadcasts: Seq<Broadcast>, own: int, count: nat)
    requires
        count <= broadcasts.len(),
    ensures
        forall|i: int|
            0 <= i < others_of(broadcasts, own, count).len() ==> (#[trigger] others_of(broadcasts, own, count)[i]).0
                != own,
        forall|j: int|
            #![trigger broadcasts[j]]
            0 <= j < count && broadcasts[j].party != own ==> others_of(broadcasts, own, count).contains(
                (broadcasts[j].party, broadcasts[j].raw@),
            ),
        forall|i: int|
            #![trigger others_of(broadcasts, own, count)[i]]
            0 <= i < others_of(broadcasts, own, count).len() ==> exists|j: int|
                0 <= j < count && others_of(broadcasts, own, count)[i] == (
                    (#[trigger] broadcasts[j]).party,
                    broadcasts[j].raw@,
                ),
    decreases count,
{
    if count > 0 {
        others_leave_out_the_own_broadcast(broadcasts, own, (count - 1) as nat);
        let prior = others_of(broadcasts, own, (count - 1) as nat);
        let all = others_of(broadcasts, own, count);
        let last = broadcasts[count - 1];
        assert forall|j: int|
            #![trigger broadcasts[j]]
            0 <= j < count && broadcasts[j].party != own implies all.contains(
            (broadcasts[j].party, broadcasts[j].raw@),
        ) by {
            if j == count - 1 {
                assert(all[all.len() - 1] == (last.party, last.raw@));
            } else {
                let at = choose|at: int|
                    0 <= at < prior.len() && prior[at] == (broadcasts[j].party, broadcasts[j].raw@);
                assert(all[at] == prior[at]);
            }
        }
        assert forall|i: int| #![trigger all[i]] 0 <= i < all.len() implies exists|j: int|
            0 <= j < count && all[i] == ((#[trigger] broadcasts[j]).party, broadcasts[j].raw@) by {
            if i < prior.len() {
                assert(all[i] == prior[i]);
            } else {
                assert(all[i] == (last.party, last.raw@));
            }
        }
    }
}

/// What is sealed for a party names the two ends and the session in its context, and goes
/// to the keys that the manifest pins to that party.
pub proof fn package_is_sealed_to_its_recipient(
    peers: PendingPeers,
    own: int,
    at: int,
    bytes: Seq<u8>,
    directed: DirectedPackage,
)
    requires
        0 <= own,
        0 <= at < peers.entries@.len(),
        package_directed(peers, own, at, bytes, directed),
    ensures
        directed.sender == own + 1,
        directed.recipient == at + 1,
        directed.package@ == bytes,
        directed.aad@ == text_bytes("QOMM:FROST:DKG-EXCHANGE:v2"@) + peers.session@ + be_bytes((own + 1) as nat, 2)
            + be_bytes((at + 1) as nat, 2),
        directed.manifest_digest@ == peers.digest@,
        directed.peer.party == peers.entries@[at].party,
        directed.peer.identity_public@ == peers.entries@[at].identity_public@,
        directed.peer.exchange_suite@ == peers.entries@[at].exchange_suite@,
        directed.peer.exchange_public@ == peers.entries@[at].exchange_public@,
        directed.peer.pq_key@ == peers.entries@[at].pq_key@,
{
}

/// What a node keeps of a manifest are the proposed entries, in the order of their numbers.
pub proof fn manifest_keeps_its_entries(entries: Seq<FrostPeerEntry>, peers: Seq<ProposedPeer>)
    requires
        entries_of(entries, by_party(peers)),
    ensures
        entries.len() == by_party(peers).len(),
        forall|i: int|
            #![trigger entries[i]]
            0 <= i < entries.len() ==> {
                let entry = by_party(peers)[i].entry;
                &&& entries[i].party == entry.party
                &&& entries[i].identity_public@ == entry.identity_public@
                &&& entries[i].exchange_suite@ == entry.exchange_suite@
                &&& entries[i].exchange_public@ == entry.exchange_public@
                &&& entries[i].self_signature@ == entry.self_signature@
                &&& entries[i].pq_key@ == entry.pq_key@
                &&& entries[i].pq_self_signature@ == entry.pq_self_signature@
            },
{
}

/// A node's stage is the furthest that it has reached.
pub proof fn stage_is_the_furthest_reached<N, B, S>(state: ProofParty<N, B, S>)
    ensures
        state.stage() is Ready <==> state.frost_key is Some,
        state.stage() is Round2 <==> state.frost_key is None && state.dkg_round2 is Some,
        state.stage() is Round1 <==> state.frost_key is None && state.dkg_round2 is None && state.dkg_round1 is Some,
        state.stage() is PeersConfirmed <==> state.frost_key is None && state.dkg_round2 is None && state.dkg_round1
            is None && state.peers is Some,
        state.stage() is PeersProposed <==> state.frost_key is None && state.dkg_round2 is None && state.dkg_round1
            is None && state.peers is None && state.pending_peers is Some,
        state.stage() is Fresh <==> state.frost_key is None && state.dkg_round2 is None && state.dkg_round1 is None
            && state.peers is None && state.pending_peers is None,
{
}

/// A node that has a session answers for its keys in no other.
pub proof fn node_answers_in_its_own_session<N, B, S>(state: ProofParty<N, B, S>, params: Json)
    ensures
        state.identity_refusal(params) is None <==> {
            let session = hex_bytes(text_in(params.field("session"@))->0);
            &&& names32(params.field("session"@))
            &&& state.frost_key is Some ==> (state.frost_key->0).session@ == session
            &&& state.frost_key is None && state.peers is Some ==> (state.peers->0).session@ == session
            &&& state.frost_key is None && state.peers is None && state.pending_peers is Some ==> (
            state.pending_peers->0).session@ == session
        },
{
}

/// Peers are proposed once: a node with a key takes none, one with peers confirms only
/// those again, and a fresh one keeps them exactly where its confirmation succeeded.
pub proof fn peers_are_proposed_once<N, B, S, R, F: Fn(&PendingPeers) -> Result<R, String>>(
    before: ProofParty<N, B, S>,
    pending: PendingPeers,
    confirm: F,
    after: ProofParty<N, B, S>,
    r: Result<R, String>,
)
    requires
        before.peers_taken(pending, confirm, after, r),
    ensures
        before.frost_key is Some ==> r is Err && after == before,
        before.peers is Some || before.pending_peers is Some ==> after == before,
        before.frost_key is None && before.peers is Some && r is Ok ==> (before.peers->0).session@ == pending.session@
            && (before.peers->0).digest@ == pending.digest@,
        before.frost_key is None && before.peers is None && before.pending_peers is Some && r is Ok ==> (
        before.pending_peers->0).session@ == pending.session@ && (before.pending_peers->0).digest@
            == pending.digest@,
        before.frost_key is None && before.peers is None && before.pending_peers is None && r is Ok
            ==> after.pending_peers == Some(pending),
        r is Err ==> after == before,
        after.peers == before.peers,
        after.frost_key == before.frost_key,
        after.jobs == before.jobs,
        after.state_generation == before.state_generation,
{
}

/// A node confirms exactly a manifest that is pending or confirmed here.
pub proof fn manifest_is_confirmed_where_it_is_known<
    N,
    B,
    S,
    F: Fn(&Vec<u8>, &Vec<u8>, &Vec<u8>) -> bool,
>(state: ProofParty<N, B, S>, params: Json, signed: F)
    ensures
        state.confirm_refusal(params, signed) is None <==> {
            ||| state.peers is Some && confirmations_refusal(state.peers->0, params, signed) is None
            ||| state.peers is None && state.pending_peers is Some && confirmations_refusal(
                state.pending_peers->0,
                params,
                signed,
            ) is None
        },
{
}

/// The first round is made among confirmed peers alone, and only where their number and
/// that of the signers can be told.
pub proof fn first_round_needs_confirmed_peers<N, B, S>(state: ProofParty<N, B, S>)
    ensures
        state.dkg_round1_refusal() is None <==> state.peers is Some && (state.peers->0).entries@.len() <= 0xffff
            && state.config.threshold + 1 <= 0xffff,
{
}

/// The second round is made once, of one set of broadcasts: a node that made it answers
/// only the same document again, and another has to have made the first round.
pub proof fn second_round_is_of_one_transcript<N, B, S, D: Fn(&Vec<u8>) -> bool, P: Fn(&Value) -> Vec<u8>>(
    state: ProofParty<N, B, S>,
    params: Json,
    decodes: D,
    print: P,
)
    ensures
        state.dkg_round2_refusal(params, decodes, print) is None <==> {
            let broadcasts = params.field("broadcasts"@);
            &&& broadcasts is Some
            &&& state.dkg_round2 is Some ==> (state.dkg_round2->0).broadcasts_digest@ == sha256(
                text_bytes("QOMM:FROST:DKG-BROADCASTS:v1"@) + printed(print, broadcasts->0),
            )
            &&& state.dkg_round2 is None ==> {
                &&& state.peers is Some
                &&& broadcasts_refusal(state.peers->0, params, decodes) is None
                &&& state.dkg_round1 is Some
            }
        },
{
}

/// A made second round takes the place of the first, and keeps its secret, the digest of
/// its transcript and one envelope for each other party.
pub proof fn second_round_is_kept<N, B, S>(
    before: ProofParty<N, B, S>,
    broadcasts_digest: [u8; 32],
    own_package: Seq<u8>,
    secret: Seq<u8>,
    sealed: Seq<Result<Vec<u8>, String>>,
    after: ProofParty<N, B, S>,
)
    requires
        (before.config.node as int) < sealed.len(),
        before.dkg_round2_made(broadcasts_digest, own_package, secret, sealed, after),
    ensures
        after.dkg_round1 is None,
        after.dkg_round2 is Some,
        (after.dkg_round2->0).secret@ == secret,
        (after.dkg_round2->0).round1_package@ == own_package,
        (after.dkg_round2->0).broadcasts_digest == broadcasts_digest,
        (after.dkg_round2->0).encrypted@.len() == sealed.len() - 1,
        forall|i: int|
            #![trigger (after.dkg_round2->0).encrypted@[i]]
            0 <= i < sealed.len() - 1 ==> {
                let envelope = (after.dkg_round2->0).encrypted@[i];
                let place = if i < before.config.node {
                    i
                } else {
                    i + 1
                };
                &&& envelope.sender == before.config.node + 1
                &&& envelope.recipient == place + 1
                &&& sealed[place] is Ok && envelope.envelope@ == (sealed[place]->Ok_0)@
            },
        after.peers == before.peers,
        after.frost_key == before.frost_key,
        after.jobs == before.jobs,
        after.state_generation == before.state_generation,
{
    every_other_party_gets_its_envelope(
        sealed,
        before.config.node as int,
        sealed.len(),
        (after.dkg_round2->0).encrypted@,
    );
}

/// The key is made final of the broadcasts of the second round and a directed package of
/// each other peer; a node with a key answers only the same document again.
pub proof fn key_is_final_for_one_transcript<N, B, S, D: Fn(&Vec<u8>) -> bool, P: Fn(&Value) -> Vec<u8>>(
    state: ProofParty<N, B, S>,
    params: Json,
    decodes: D,
    print: P,
    incoming: Seq<IncomingFacts>,
)
    ensures
        state.dkg_finalize_refusal(params, decodes, print, incoming) is None <==> {
            &&& state.frost_key is Some ==> (state.frost_key->0).finalize_digest is Some && (
            (state.frost_key->0).finalize_digest->0)@ == sha256(
                text_bytes("QOMM:FROST:DKG-FINALIZE:v1"@) + be_bytes(state.config.node as nat, 2) + printed(
                    print,
                    params,
                ),
            )
            &&& state.frost_key is None ==> {
                &&& state.peers is Some
                &&& broadcasts_refusal(state.peers->0, params, decodes) is None
                &&& state.dkg_round2 is Some
                &&& (state.dkg_round2->0).broadcasts_digest@ == sha256(
                    text_bytes("QOMM:FROST:DKG-BROADCASTS:v1"@) + printed(print, params.field("broadcasts"@)->0),
                )
                &&& incoming_set_refusal(
                    state.peers->0,
                    (state.config.node + 1) as nat,
                    params,
                    incoming,
                ) is None
            }
        },
{
}

/// A final key replaces everything that led to it, and comes with a committee of the
/// peers' post-quantum keys, of one more than the threshold, bound to the session and to
/// the public package.
pub proof fn final_key_comes_with_its_committee<N, B, S>(
    before: ProofParty<N, B, S>,
    digest: [u8; 32],
    key_package: Seq<u8>,
    public_package: Seq<u8>,
    after: ProofParty<N, B, S>,
)
    requires
        before.peers is Some,
        before.finalized(digest, key_package, public_package, after),
    ensures
        after.stage() is Ready,
        (after.frost_key->0).session@ == (before.peers->0).session@,
        (after.frost_key->0).key_package@ == key_package,
        (after.frost_key->0).public_package@ == public_package,
        (after.frost_key->0).finalize_digest == Some(digest),
        after.dkg_round1 is None && after.dkg_round2 is None && after.peers is None && after.pending_peers is None,
        after.pq_committee is Some,
        (after.pq_committee->0).epoch == 1,
        (after.pq_committee->0).context@ == text_bytes("QOMM:MPC-SETTLEMENT-COMMITTEE:v1"@) + (
        before.peers->0).session@,
        (after.pq_committee->0).classical_binding@ == sha256(public_package),
        (after.pq_committee->0).threshold == before.config.threshold + 1,
        (after.pq_committee->0).members@.len() == (before.peers->0).entries@.len(),
        forall|i: int|
            #![trigger (after.pq_committee->0).members@[i]]
            0 <= i < (before.peers->0).entries@.len() ==> (after.pq_committee->0).members@[i].node == (
            before.peers->0).entries@[i].party && (after.pq_committee->0).members@[i].key@ == (
            before.peers->0).entries@[i].pq_key@,
        after.jobs == before.jobs,
        after.state_generation == before.state_generation,
{
}

/// A key is taken into a state that was written under the next generation; where the
/// threshold, the committee's check or the writing fails, no key is given.
pub proof fn key_is_given_only_when_it_is_durable<
    N,
    B,
    S,
    C: Fn(&QuorumPolicy) -> Result<(), String>,
    W: Fn(&ProofParty<N, B, S>, u64) -> Result<(), String>,
>(
    before: ProofParty<N, B, S>,
    digest: [u8; 32],
    key_package: Seq<u8>,
    public_package: Seq<u8>,
    valid: C,
    write: W,
    after: ProofParty<N, B, S>,
    r: Result<Vec<u8>, String>,
)
    requires
        before.key_taken(digest, key_package, public_package, valid, write, after, r),
    ensures
        r matches Ok(public) ==> {
            &&& public@ == public_package
            &&& before.config.threshold + 1 <= 0xffff
            &&& after.state_generation == before.state_generation + 1
            &&& after.frost_key is Some
            &&& (after.frost_key->0).key_package@ == key_package
            &&& (after.frost_key->0).public_package@ == public_package
            &&& (after.frost_key->0).finalize_digest == Some(digest)
            &&& after.pq_committee is Some
            &&& exists|checked: Result<(), String>|
                checked is Ok && #[trigger] call_ensures(valid, (&after.pq_committee->0,), checked)
        },
{
    if r is Ok {
        let (policy, checked) = choose|policy: QuorumPolicy, checked: Result<(), String>|
            before.policy_said(public_package, policy) && #[trigger] call_ensures(valid, (&policy,), checked)
                && match checked {
                Err(e) => r == Err::<Vec<u8>, String>(e) && after == before,
                Ok(_) => {
                    &&& r matches Ok(public) ==> public@ == public_package
                    &&& exists|middle: ProofParty<N, B, S>| #[trigger]
                        before.finalized(digest, key_package, public_package, middle) && middle.pq_committee == Some(
                            policy,
                        ) && written(write, middle, after, outcome_of(r))
                },
            };
        assert(checked is Ok);
        let middle = choose|middle: ProofParty<N, B, S>| #[trigger]
            before.finalized(digest, key_package, public_package, middle) && middle.pq_committee == Some(policy)
                && written(write, middle, after, outcome_of(r));
        assert(after.pq_committee == Some(policy));
    }
}

/// A stored node is whole exactly where its post-quantum key is its own, it attested at
/// most sixty-four identities, and its committee is there with its key and bound to it.
pub proof fn stored_committee_is_bound_to_the_key<N, B, S>(state: ProofParty<N, B, S>, facts: PqFacts)
    ensures
        state.pq_state_refusal(facts) is None <==> {
            let policy = state.pq_committee->0;
            &&& facts.key is Ok && facts.own
            &&& state.pq_identity_cache.count() <= 64
            &&& state.pq_committee is Some <==> state.frost_key is Some
            &&& state.pq_committee is Some ==> {
                &&& facts.committee is Ok
                &&& policy.classical_binding@ == sha256((state.frost_key->0).public_package@)
                &&& policy.context@ == text_bytes("QOMM:MPC-SETTLEMENT-COMMITTEE:v1"@) + (
                state.frost_key->0).session@
                &&& policy.threshold == state.config.threshold + 1
                &&& policy.members@.len() == state.config.n_parties
                &&& exists|i: int|
                    0 <= i < policy.members@.len() && (#[trigger] policy.members@[i]).node == state.config.node + 1
                        && policy.members@[i].key@ == facts.record@
            }
        },
{
}

/// The first round is kept as its secret and the package that is broadcast, and nothing
/// else changes.
pub proof fn first_round_is_kept<N, B, S>(
    before: ProofParty<N, B, S>,
    secret: Seq<u8>,
    package: Seq<u8>,
    after: ProofParty<N, B, S>,
)
    requires
        before.dkg_round1_made(secret, package, after),
    ensures
        after.dkg_round1 is Some,
        (after.dkg_round1->0).secret@ == secret,
        (after.dkg_round1->0).broadcast_package@ == package,
        after.peers == before.peers,
        after.dkg_round2 == before.dkg_round2,
        after.frost_key == before.frost_key,
        after.jobs == before.jobs,
        after.state_generation == before.state_generation,
{
}

/// The second round is made only where this node's own broadcast is among those of the
/// request and is the one it made, of its own secret and the broadcasts of the others; its
/// success means that the state that holds it is on disk.
pub proof fn second_round_is_of_the_own_first<
    N,
    B,
    S,
    P,
    Fe: Fn(&Broadcast) -> Result<Vec<u8>, String>,
    Fm: Fn(&Vec<u8>, &Vec<Broadcast>) -> Result<(Vec<u8>, P), String>,
    Fp: Fn(&P, u16) -> Result<Vec<u8>, String>,
    Fs: Fn(&DirectedPackage) -> Result<Vec<u8>, String>,
    W: Fn(&ProofParty<N, B, S>, u64) -> Result<(), String>,
>(
    before: ProofParty<N, B, S>,
    digest: [u8; 32],
    broadcasts: Seq<Broadcast>,
    by: SecondTools<Fe, Fm, Fp, Fs>,
    write: W,
    after: ProofParty<N, B, S>,
    r: Result<(), String>,
)
    requires
        before.second_made(digest, broadcasts, by, write, after, r),
    ensures
        (forall|i: int| 0 <= i < broadcasts.len() ==> (#[trigger] broadcasts[i]).party != before.config.node + 1) ==> r
            is Err && after == before,
        r is Ok ==> {
            &&& exists|at: int, package: Vec<u8>|
                0 <= at < broadcasts.len() && broadcasts[at].party == before.config.node + 1 && #[trigger] call_ensures(
                    by.encode,
                    (&broadcasts[at],),
                    Ok::<Vec<u8>, String>(package),
                ) && package@ == (before.dkg_round1->0).broadcast_package@ && before.second_shared(
                    digest,
                    package@,
                    broadcasts,
                    by,
                    write,
                    after,
                    r,
                )
        },
{
    if r is Ok {
        let own = before.config.node + 1;
        let (at, encoded) = choose|at: int, encoded: Result<Vec<u8>, String>|
            0 <= at < broadcasts.len() && broadcasts[at].party == own && #[trigger] call_ensures(
                by.encode,
                (&broadcasts[at],),
                encoded,
            ) && match encoded {
                Err(e) => r == Err::<(), String>(e) && after == before,
                Ok(package) => if package@ != (before.dkg_round1->0).broadcast_package@ {
                    &&& r matches Err(e) && e@ == "FROST DKG broadcasts substituted this node's round one"@
                    &&& after == before
                } else {
                    before.second_shared(digest, package@, broadcasts, by, write, after, r)
                },
            };
        assert(encoded == Ok::<Vec<u8>, String>(encoded->Ok_0));
    }
}

/// What the second round is made of are the node's own secret and what the others
/// broadcast; where it succeeds, every other party's package was sealed to it, and the
/// node is a generation further.
pub proof fn second_round_is_durable_before_it_leaves<
    N,
    B,
    S,
    P,
    Fe: Fn(&Broadcast) -> Result<Vec<u8>, String>,
    Fm: Fn(&Vec<u8>, &Vec<Broadcast>) -> Result<(Vec<u8>, P), String>,
    Fp: Fn(&P, u16) -> Result<Vec<u8>, String>,
    Fs: Fn(&DirectedPackage) -> Result<Vec<u8>, String>,
    W: Fn(&ProofParty<N, B, S>, u64) -> Result<(), String>,
>(
    before: ProofParty<N, B, S>,
    digest: [u8; 32],
    own_package: Seq<u8>,
    broadcasts: Seq<Broadcast>,
    by: SecondTools<Fe, Fm, Fp, Fs>,
    write: W,
    after: ProofParty<N, B, S>,
    r: Result<(), String>,
)
    requires
        before.second_shared(digest, own_package, broadcasts, by, write, after, r),
    ensures
        r is Ok ==> {
            &&& after.state_generation == before.state_generation + 1
            &&& after.dkg_round1 is None && after.dkg_round2 is Some
            &&& (after.dkg_round2->0).round1_package@ == own_package
            &&& (after.dkg_round2->0).broadcasts_digest == digest
            &&& exists|others: Vec<Broadcast>, kept: Vec<u8>, packages: P| #[trigger]
                call_ensures(
                    by.make,
                    (&(before.dkg_round1->0).secret, &others),
                    Ok::<(Vec<u8>, P), String>((kept, packages)),
                ) && (after.dkg_round2->0).secret@ == kept@ && broadcast_views(others@) == others_of(
                    broadcasts,
                    before.config.node + 1,
                    broadcasts.len(),
                )
        },
{
    if r is Ok {
        let round = before.dkg_round1->0;
        let (others, made) = choose|others: Vec<Broadcast>, made: Result<(Vec<u8>, P), String>|
            broadcast_views(others@) == others_of(broadcasts, before.config.node + 1, broadcasts.len())
                && #[trigger] call_ensures(by.make, (&round.secret, &others), made) && match made {
                Err(e) => r == Err::<(), String>(e) && after == before,
                Ok((kept, packages)) => before.second_sealed(
                    digest,
                    own_package,
                    kept@,
                    packages,
                    by.package,
                    by.seal,
                    write,
                    after,
                    r,
                ),
            };
        assert(made == Ok::<(Vec<u8>, P), String>(((made->Ok_0).0, (made->Ok_0).1)));
    }
}

/// An envelope is opened for its session, its two ends and the manifest, under the keys
/// that the manifest pins to its sender.
pub proof fn envelope_is_opened_for_its_ends<E>(
    peers: PendingPeers,
    own: nat,
    sender: nat,
    envelope: E,
    incoming: IncomingEnvelope<E>,
)
    requires
        1 <= sender <= peers.entries@.len(),
        envelope_directed(peers, own, sender, envelope, incoming),
    ensures
        incoming.envelope == envelope,
        incoming.sender == sender,
        incoming.recipient == own,
        incoming.aad@ == text_bytes("QOMM:FROST:DKG-EXCHANGE:v2"@) + peers.session@ + be_bytes(sender, 2) + be_bytes(
            own,
            2,
        ),
        incoming.manifest_digest@ == peers.digest@,
        incoming.peer.identity_public@ == peers.entries@[sender - 1].identity_public@,
        incoming.peer.exchange_public@ == peers.entries@[sender - 1].exchange_public@,
        incoming.peer.pq_key@ == peers.entries@[sender - 1].pq_key@,
{
}

/// The key is made of the second round's secret, the others' broadcasts and the packages
/// that were received, and is kept under the digest of the request.
pub proof fn key_is_made_of_the_second_round<
    N,
    B,
    S,
    Pr: Fn(&Value) -> Vec<u8>,
    Fm: Fn(&Vec<u8>, &Vec<Broadcast>, &Vec<Broadcast>) -> Result<(Vec<u8>, Vec<u8>), String>,
    Fc: Fn(&QuorumPolicy) -> Result<(), String>,
    W: Fn(&ProofParty<N, B, S>, u64) -> Result<(), String>,
>(
    before: ProofParty<N, B, S>,
    params: Json,
    print: Pr,
    received: Seq<Broadcast>,
    make: Fm,
    valid: Fc,
    write: W,
    after: ProofParty<N, B, S>,
    public: Vec<u8>,
)
    requires
        before.key_made(params, print, received, make, valid, write, after, Ok(public)),
    ensures
        after.frost_key is Some,
        (after.frost_key->0).public_package@ == public@,
        (after.frost_key->0).finalize_digest is Some,
        ((after.frost_key->0).finalize_digest->0)@ == sha256(
            text_bytes("QOMM:FROST:DKG-FINALIZE:v1"@) + be_bytes(before.config.node as nat, 2) + printed(
                print,
                params,
            ),
        ),
        exists|others: Vec<Broadcast>, packages: Vec<Broadcast>, key: Vec<u8>, made: Vec<u8>| #[trigger]
            call_ensures(
                make,
                (&(before.dkg_round2->0).secret, &others, &packages),
                Ok::<(Vec<u8>, Vec<u8>), String>((key, made)),
            ) && packages@ == received && made@ == public@ && (after.frost_key->0).key_package@ == key@,
{
    let r = Ok::<Vec<u8>, String>(public);
    let round = before.dkg_round2->0;
    let (broadcasts, others, packages, made) = choose|
        broadcasts: Seq<Broadcast>,
        others: Vec<Broadcast>,
        packages: Vec<Broadcast>,
        made: Result<(Vec<u8>, Vec<u8>), String>,
    |
        #![trigger broadcasts_said(array_in(params.field("broadcasts"@))->0, broadcasts), call_ensures(
            make,
            (&round.secret, &others, &packages),
            made,
        )]
        broadcasts_said(array_in(params.field("broadcasts"@))->0, broadcasts) && broadcast_views(others@) == others_of(
            broadcasts,
            before.config.node + 1,
            broadcasts.len(),
        ) && packages@ == received && call_ensures(make, (&round.secret, &others, &packages), made) && match made {
            Err(e) => r == Err::<Vec<u8>, String>(e) && after == before,
            Ok((key, public)) => exists|digest: [u8; 32]|
                digest@ == finalize_digest_of(print, before.config.node as nat, params) && #[trigger] before.key_taken(
                    digest,
                    key@,
                    public@,
                    valid,
                    write,
                    after,
                    r,
                ),
        };
    let key = (made->Ok_0).0;
    let told = (made->Ok_0).1;
    assert(made == Ok::<(Vec<u8>, Vec<u8>), String>((key, told)));
    let digest = choose|digest: [u8; 32]|
        digest@ == finalize_digest_of(print, before.config.node as nat, params) && #[trigger] before.key_taken(
            digest,
            key@,
            told@,
            valid,
            write,
            after,
            r,
        );
    key_is_given_only_when_it_is_durable(before, digest, key@, told@, valid, write, after, r);
}

/// The first round is made once: a node with a key makes none, one that made it gives the
/// same broadcast again, and a new one is given only when the state that holds it is on
/// disk.
pub proof fn first_round_is_given_once<
    N,
    B,
    S,
    F: FnOnce(u16, u16, u16) -> Result<(Vec<u8>, Vec<u8>), String>,
    W: Fn(&ProofParty<N, B, S>, u64) -> Result<(), String>,
>(
    before: ProofParty<N, B, S>,
    make: F,
    write: W,
    after: ProofParty<N, B, S>,
    r: Result<Vec<u8>, String>,
)
    requires
        before.first_round_given(make, write, after, r),
    ensures
        before.frost_key is Some ==> r is Err && after == before,
        before.frost_key is None && before.dkg_round2 is Some ==> r is Ok && (r->Ok_0)@ == (
        before.dkg_round2->0).round1_package@ && after == before,
        before.frost_key is None && before.dkg_round2 is None && before.dkg_round1 is Some ==> r is Ok && (r->Ok_0)@
            == (before.dkg_round1->0).broadcast_package@ && after == before,
        before.stage() is Fresh || before.stage() is PeersProposed ==> r is Err && after == before,
        before.stage() is PeersConfirmed && r is Ok ==> {
            &&& after.dkg_round1 is Some
            &&& (after.dkg_round1->0).broadcast_package@ == (r->Ok_0)@
            &&& after.state_generation == before.state_generation + 1
            &&& exists|secret: Vec<u8>, package: Vec<u8>| #[trigger]
                call_ensures(
                    make,
                    (
                        (before.config.node + 1) as u16,
                        (before.peers->0).entries@.len() as u16,
                        (before.config.threshold + 1) as u16,
                    ),
                    Ok::<(Vec<u8>, Vec<u8>), String>((secret, package)),
                ) && secret@ == (after.dkg_round1->0).secret@ && package@ == (r->Ok_0)@
        },
{
}

/// An identity text has one signature on a node: a kept one is given again, at most
/// sixty-four are kept, and a new one is given only when it is kept on disk.
pub proof fn identity_text_has_one_signature<
    N,
    B,
    S,
    G: Fn(&Vec<u8>) -> Result<Vec<u8>, String>,
    W: Fn(&ProofParty<N, B, S>, u64) -> Result<(), String>,
>(
    before: ProofParty<N, B, S>,
    body: Vec<u8>,
    sign: G,
    write: W,
    after: ProofParty<N, B, S>,
    r: Result<Vec<u8>, String>,
)
    requires
        before.identity_signed(body, sign, write, after, r),
    ensures
        before.pq_identity_cache.has(sha256(body@)) ==> r is Ok && (r->Ok_0)@ == before.pq_identity_cache.at(
            sha256(body@),
        )@ && after == before,
        !before.pq_identity_cache.has(sha256(body@)) && before.pq_identity_cache.count() >= 64 ==> r is Err && after
            == before,
        r is Ok ==> after.pq_identity_cache.has(sha256(body@)) && after.pq_identity_cache.at(sha256(body@))@ == (
        r->Ok_0)@,
        r is Ok && !before.pq_identity_cache.has(sha256(body@)) ==> after.state_generation == before.state_generation
            + 1,
        after.frost_key == before.frost_key && after.jobs == before.jobs,
{
}

} // verus!
