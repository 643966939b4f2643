//! Making a group key: a node's way from proposed peers to its share of the
//! key, each step durable before its result leaves the node and safe to repeat.

use vstd::prelude::*;
use crate::bytes::{be_bytes, copied, put, put_be, same, same32, text_bytes};
use crate::digest::{hash, sha256};
use crate::fields::{either, hex_in, unless};
use crate::json::{array_in, as_array, as_text, text_in, Json, Value};
use crate::oracle::decides;
use crate::proof_frost::{as_party, party_in};
use crate::proof_mandate::{refused, told};
use crate::proof_params::{hex32, hex32_refusal};
use crate::oracle::{checks_signatures, printed, prints, write_out};
use crate::proof_peers::{
    broadcasts_refusal, broadcasts_said, confirmations_refusal, frost_broadcasts, verify_peer_confirmations,
    Broadcast, FrostPeerEntry, PendingPeers,
};
use crate::proof_state::{can_write, outcome_of, written, FrostKey, ProofParty};
use crate::text::{about, base64_bytes, base64_decode, hex_encode, hex_text};

verus! {

/// The most identity attestations that a node makes.
pub const MAX_IDENTITY_ATTESTATIONS: usize = 64;

/// The lease of a node's first post-quantum key, in seconds.
pub const PQ_KEY_LEASE: u64 = 31536000;

/// The first round of key generation on this node.
#[derive(Debug)]
pub struct PendingDkgRound1 {
    pub secret: Vec<u8>,
    pub broadcast_package: Vec<u8>,
}

/// A package that only its recipient can open.
#[derive(Debug)]
pub struct DirectedEnvelope {
    pub sender: u16,
    pub recipient: u16,
    pub envelope: Vec<u8>,
}

/// The second round of key generation on this node.
#[derive(Debug)]
pub struct PendingDkgRound2 {
    pub secret: Vec<u8>,
    pub round1_package: Vec<u8>,
    pub broadcasts_digest: [u8; 32],
    pub encrypted: Vec<DirectedEnvelope>,
}

/// A member of the post-quantum committee, with its serialized key record.
#[derive(Debug)]
pub struct QuorumMember {
    pub node: u16,
    pub key: Vec<u8>,
}

/// The post-quantum committee that approves beside the group key.
#[derive(Debug)]
pub struct QuorumPolicy {
    pub epoch: u64,
    pub context: Vec<u8>,
    pub classical_binding: [u8; 32],
    pub threshold: u16,
    pub members: Vec<QuorumMember>,
}

/// The record of a node's post-quantum key.
#[derive(Debug)]
pub struct KeyRecord {
    pub participant_id: String,
    pub key_id: String,
    pub key_version: u64,
    pub public_key: Vec<u8>,
    pub not_before: u64,
    pub not_after: u64,
}

/// How far the committee's group key has come on a node.
#[derive(Clone, Copy, Debug, PartialEq, Eq, Structural)]
pub enum FrostStage {
    Fresh,
    PeersProposed,
    PeersConfirmed,
    Round1,
    Round2,
    Ready,
}

/// The record of a node's first post-quantum key, which lasts for one lease.
pub fn initial_record(identity_public: &[u8; 32], public: Vec<u8>, created: u64) -> (r: Result<KeyRecord, String>)
    ensures
        match r {
            Ok(record) => {
                &&& record.participant_id@ == "proof-node:"@ + hex_text(identity_public@)
                &&& record.key_id@ == "mldsa65:"@ + hex_text(sha256(public@))
                &&& record.key_version == 1
                &&& record.public_key == public
                &&& record.not_before == created
                &&& record.not_after == created + PQ_KEY_LEASE
            },
            Err(e) => created + PQ_KEY_LEASE > u64::MAX && e@ == "PQ key expiry overflow"@,
        },
{
    if created > 0xffff_ffff_ffff_ffff - PQ_KEY_LEASE {
        return Err("PQ key expiry overflow".to_owned());
    }
    let identity = hex_encode(identity_public.as_slice());
    let digest = hash(public.as_slice());
    let key = hex_encode(digest.as_slice());
    Ok(
        KeyRecord {
            participant_id: about("proof-node:", identity.as_str()),
            key_id: about("mldsa65:", key.as_str()),
            key_version: 1,
            public_key: public,
            not_before: created,
            not_after: created + PQ_KEY_LEASE,
        },
    )
}

/// What a committee is bound to.
pub open spec fn committee_context(session: Seq<u8>) -> Seq<u8> {
    text_bytes("QOMM:MPC-SETTLEMENT-COMMITTEE:v1"@) + session
}

fn context_of(session: &[u8; 32]) -> (context: Vec<u8>)
    ensures
        context@ == committee_context(session@),
{
    let mut context: Vec<u8> = Vec::new();
    put(&mut context, "QOMM:MPC-SETTLEMENT-COMMITTEE:v1".as_bytes());
    put(&mut context, session.as_slice());
    assert(context@ =~= committee_context(session@));
    context
}

/// Whether the members of a committee are the peers, in their order.
pub open spec fn members_of(members: Seq<QuorumMember>, entries: Seq<FrostPeerEntry>) -> bool {
    &&& members.len() == entries.len()
    &&& forall|i: int|
        #![trigger members[i]]
        0 <= i < members.len() ==> members[i].node == entries[i].party && members[i].key@ == entries[i].pq_key@
}

/// The committee of the peers, for a group key with this public package.
pub fn make_pq_committee(peers: &PendingPeers, public: &[u8], threshold: usize) -> (r: Result<QuorumPolicy, String>)
    ensures
        match r {
            Ok(policy) => {
                &&& policy.epoch == 1
                &&& policy.context@ == committee_context(peers.session@)
                &&& policy.classical_binding@ == sha256(public@)
                &&& policy.threshold == threshold + 1
                &&& members_of(policy.members@, peers.entries@)
            },
            Err(e) => threshold + 1 > u16::MAX && e@ == "PQ threshold overflow"@,
        },
{
    if threshold >= 0xffff {
        return Err("PQ threshold overflow".to_owned());
    }
    let mut members: Vec<QuorumMember> = Vec::new();
    let mut i: usize = 0;
    while i < peers.entries.len()
        invariant
            i <= peers.entries@.len(),
            members@.len() == i,
            forall|j: int|
                #![trigger members@[j]]
                0 <= j < i ==> members@[j].node == peers.entries@[j].party && members@[j].key@
                    == peers.entries@[j].pq_key@,
        decreases peers.entries@.len() - i,
    {
        members.push(
            QuorumMember { node: peers.entries[i].party, key: copied(peers.entries[i].pq_key.as_slice()) },
        );
        i = i + 1;
    }
    let context = context_of(&peers.session);
    let classical_binding = hash(public);
    Ok(QuorumPolicy { epoch: 1, context, classical_binding, threshold: (threshold + 1) as u16, members })
}

/// What was found of this node's stored post-quantum key.
#[derive(Debug)]
pub struct PqFacts {
    /// Whether the record is well formed.
    pub key: Result<(), String>,
    /// Whether it is a settlement key of the committee's suite, and the one that the node signs with.
    pub own: bool,
    /// The serialized record.
    pub record: Vec<u8>,
    /// Whether the committee is well formed, where there is one.
    pub committee: Result<(), String>,
}

/// The digest of the broadcasts that a second round answers.
pub open spec fn broadcasts_digest_of<P: Fn(&Value) -> Vec<u8>>(print: P, broadcasts: Json) -> Seq<u8> {
    sha256(text_bytes("QOMM:FROST:DKG-BROADCASTS:v1"@) + printed(print, broadcasts))
}

fn digest_broadcasts<P: Fn(&Value) -> Vec<u8>>(print: &P, broadcasts: &Value) -> (digest: [u8; 32])
    requires
        prints(*print),
    ensures
        digest@ == broadcasts_digest_of(*print, broadcasts@),
{
    let text = write_out(print, broadcasts);
    let mut message: Vec<u8> = Vec::new();
    put(&mut message, "QOMM:FROST:DKG-BROADCASTS:v1".as_bytes());
    put(&mut message, text.as_slice());
    assert(message@ =~= text_bytes("QOMM:FROST:DKG-BROADCASTS:v1"@) + printed(*print, broadcasts@));
    hash(message.as_slice())
}

/// The digest of the transcript that makes a node's share final.
pub open spec fn finalize_digest_of<P: Fn(&Value) -> Vec<u8>>(print: P, node: nat, params: Json) -> Seq<u8> {
    sha256(text_bytes("QOMM:FROST:DKG-FINALIZE:v1"@) + be_bytes(node, 2) + printed(print, params))
}

fn digest_finalize<P: Fn(&Value) -> Vec<u8>>(print: &P, node: u16, params: &Value) -> (digest: [u8; 32])
    requires
        prints(*print),
    ensures
        digest@ == finalize_digest_of(*print, node as nat, params@),
{
    let text = write_out(print, params);
    let mut message: Vec<u8> = Vec::new();
    put(&mut message, "QOMM:FROST:DKG-FINALIZE:v1".as_bytes());
    put_be(&mut message, node as u64, 2);
    put(&mut message, text.as_slice());
    assert(message@ =~= text_bytes("QOMM:FROST:DKG-FINALIZE:v1"@) + be_bytes(node as nat, 2) + printed(
        *print,
        params@,
    ));
    hash(message.as_slice())
}

/// What a request for the second round comes to.
#[derive(Debug)]
pub enum Round2Plan {
    /// The same transcript was answered before: the answer is kept.
    Answered,
    /// The broadcasts to answer.
    Answer { broadcasts_digest: [u8; 32], broadcasts: Vec<Broadcast> },
}

/// What was found of a directed package.
#[derive(Debug)]
pub struct IncomingFacts {
    /// Whether the envelope can be decoded.
    pub decoded: Result<(), String>,
    /// Whether the sender's signatures hold and this node can open it.
    pub opened: Result<bool, String>,
    /// Whether what it holds is a package.
    pub package: bool,
}

/// Why an entry is no package directed to a party.
pub open spec fn incoming_refusal(
    peers: PendingPeers,
    own: nat,
    entries: Seq<Json>,
    at: int,
    facts: IncomingFacts,
) -> Option<Seq<char>> {
    let sender = party_in(entries[at].field("sender"@));
    let recipient = party_in(entries[at].field("recipient"@));
    let text = text_in(entries[at].field("envelope"@));
    either(unless(sender is Some, "FROST directed sender is invalid"@),
    either(unless(recipient is Some, "FROST directed recipient is invalid"@),
    either(unless(sender->0 != own && recipient->0 == own, "FROST directed package has the wrong endpoints"@),
    either(unless(text is Some, "FROST hybrid directed envelope is absent"@),
    either(unless(base64_bytes(text->0) is Some, "FROST directed envelope is malformed"@),
    either(refused(facts.decoded),
    either(unless(peers.member(sender->0), "FROST directed sender is unknown"@),
    either(refused(facts.opened),
    either(unless(facts.opened == Ok::<bool, String>(true), "FROST directed package authentication failed"@),
    either(unless(facts.package, "FROST directed package cannot be decoded"@),
    unless(!sent_before(entries, at), "FROST directed sender is duplicated"@)))))))))))
}

/// Whether an entry names the sender of an earlier one.
pub open spec fn sent_before(entries: Seq<Json>, at: int) -> bool {
    exists|j: int|
        0 <= j < at && party_in((#[trigger] entries[j]).field("sender"@)) == party_in(entries[at].field("sender"@))
}

/// Why the first `count` entries are no packages of distinct senders.
pub open spec fn incoming_list_refusal(
    peers: PendingPeers,
    own: nat,
    entries: Seq<Json>,
    facts: Seq<IncomingFacts>,
    count: nat,
) -> Option<Seq<char>>
    decreases count,
{
    if count == 0 || count > entries.len() {
        None
    } else {
        either(
            incoming_list_refusal(peers, own, entries, facts, (count - 1) as nat),
            incoming_refusal(peers, own, entries, count - 1, facts[count - 1]),
        )
    }
}

/// The first refusal among the packages is that of all of them.
proof fn incoming_refused(
    peers: PendingPeers,
    own: nat,
    entries: Seq<Json>,
    facts: Seq<IncomingFacts>,
    at: nat,
    count: nat,
)
    requires
        at <= count <= entries.len(),
        incoming_list_refusal(peers, own, entries, facts, at) is Some,
    ensures
        incoming_list_refusal(peers, own, entries, facts, count) == incoming_list_refusal(
            peers,
            own,
            entries,
            facts,
            at,
        ),
    decreases count,
{
    if at < count {
        incoming_refused(peers, own, entries, facts, at, (count - 1) as nat);
    }
}

/// Why a request does not carry the packages of all other peers.
pub open spec fn incoming_set_refusal(
    peers: PendingPeers,
    own: nat,
    params: Json,
    facts: Seq<IncomingFacts>,
) -> Option<Seq<char>> {
    match array_in(params.field("incoming"@)) {
        None => Some("FROST directed packages must be an array"@),
        Some(entries) => either(
            unless(entries.len() + 1 == peers.entries@.len(), "FROST directed package set is incomplete"@),
            incoming_list_refusal(peers, own, entries, facts, entries.len()),
        ),
    }
}

#[verifier::loop_isolation(false)]
fn check_incoming(peers: &PendingPeers, own: u16, params: &Value, facts: &Vec<IncomingFacts>) -> (r: Result<(), String>)
    requires
        array_in(params@.field("incoming"@)) matches Some(entries) ==> entries.len() <= facts@.len()
            || entries.len() + 1
            != peers.entries@.len(),
    ensures
        match r {
            Ok(_) => incoming_set_refusal(*peers, own as nat, params@, facts@) is None,
            Err(e) => incoming_set_refusal(*peers, own as nat, params@, facts@) == Some(e@),
        },
{
    let entries = match as_array(params.get("incoming")) {
        None => {
            return Err("FROST directed packages must be an array".to_owned());
        },
        Some(value) => value,
    };
    if peers.entries.len() == 0 || entries.len() != peers.entries.len() - 1 {
        return Err("FROST directed package set is incomplete".to_owned());
    }
    let ghost all = array_in(params@.field("incoming"@))->0;
    let mut senders: Vec<u16> = Vec::new();
    let mut i: usize = 0;
    while i < entries.len()
        invariant
            i <= entries@.len(),
            senders@.len() == i,
            incoming_list_refusal(*peers, own as nat, all, facts@, i as nat) is None,
            forall|j: int|
                0 <= j < i ==> party_in(all[j].field("sender"@)) == Some(#[trigger] senders@[j] as nat),
        decreases entries@.len() - i,
    {
        let entry = &entries[i];
        let ghost told_at = incoming_refusal(*peers, own as nat, all, i as int, facts@[i as int]);
        proof {
            assert(all[i as int] == entry@);
            if told_at is Some {
                assert(incoming_list_refusal(*peers, own as nat, all, facts@, (i + 1) as nat) == told_at);
                incoming_refused(*peers, own as nat, all, facts@, (i + 1) as nat, all.len());
            }
        }
        let sender = match as_party(entry.get("sender")) {
            None => {
                return Err("FROST directed sender is invalid".to_owned());
            },
            Some(value) => value,
        };
        let recipient = match as_party(entry.get("recipient")) {
            None => {
                return Err("FROST directed recipient is invalid".to_owned());
            },
            Some(value) => value,
        };
        if sender == own || recipient != own {
            return Err("FROST directed package has the wrong endpoints".to_owned());
        }
        let text = match as_text(entry.get("envelope")) {
            None => {
                return Err("FROST hybrid directed envelope is absent".to_owned());
            },
            Some(value) => value,
        };
        if base64_decode(text).is_none() {
            return Err("FROST directed envelope is malformed".to_owned());
        }
        if let Err(e) = &facts[i].decoded {
            return Err(told(e));
        }
        if sender < 1 || sender as usize > peers.entries.len() {
            return Err("FROST directed sender is unknown".to_owned());
        }
        match &facts[i].opened {
            Err(e) => {
                return Err(told(e));
            },
            Ok(opened) => {
                if !*opened {
                    return Err("FROST directed package authentication failed".to_owned());
                }
            },
        }
        if !facts[i].package {
            return Err("FROST directed package cannot be decoded".to_owned());
        }
        let mut j: usize = 0;
        while j < i
            invariant
                j <= i,
                forall|k: int| 0 <= k < j ==> #[trigger] senders@[k] != sender,
            decreases i - j,
        {
            if senders[j] == sender {
                proof {
                    assert(party_in(all[j as int].field("sender"@)) == Some(senders@[j as int] as nat));
                    assert(sent_before(all, i as int));
                }
                return Err("FROST directed sender is duplicated".to_owned());
            }
            j = j + 1;
        }
        proof {
            if sent_before(all, i as int) {
                let k = choose|k: int|
                    0 <= k < i && party_in((#[trigger] all[k]).field("sender"@)) == party_in(
                        all[i as int].field("sender"@),
                    );
                assert(party_in(all[k].field("sender"@)) == Some(senders@[k] as nat));
            }
        }
        senders.push(sender);
        i = i + 1;
    }
    Ok(())
}

/// What a request to make the key final comes to.
#[derive(Debug)]
pub enum FinalizePlan {
    /// The same transcript was accepted before: the public package is kept.
    Accepted,
    /// The broadcasts and the digest of the transcript to accept.
    Accept { finalize_digest: [u8; 32], broadcasts: Vec<Broadcast> },
}

/// The first refusal among sealed packages, but for a place.
pub open spec fn sealed_refusal(sealed: Seq<Result<Vec<u8>, String>>, own: int, count: nat) -> Option<Seq<char>>
    decreases count,
{
    if count == 0 || count > sealed.len() {
        None
    } else {
        either(
            sealed_refusal(sealed, own, (count - 1) as nat),
            if count - 1 == own {
                None
            } else {
                refused(sealed[count - 1])
            },
        )
    }
}

proof fn sealed_refused(sealed: Seq<Result<Vec<u8>, String>>, own: int, at: nat, count: nat)
    requires
        at <= count <= sealed.len(),
        sealed_refusal(sealed, own, at) is Some,
    ensures
        sealed_refusal(sealed, own, count) == sealed_refusal(sealed, own, at),
    decreases count,
{
    if at < count {
        sealed_refused(sealed, own, at, (count - 1) as nat);
    }
}

/// Whether envelopes are the sealed packages of all but one place, in order.
pub open spec fn envelopes_of(
    sealed: Seq<Result<Vec<u8>, String>>,
    own: int,
    count: nat,
    envelopes: Seq<DirectedEnvelope>,
) -> bool
    decreases count,
{
    if count == 0 || count > sealed.len() {
        envelopes.len() == 0
    } else if count - 1 == own {
        envelopes_of(sealed, own, (count - 1) as nat, envelopes)
    } else {
        &&& envelopes.len() > 0
        &&& envelopes.last().sender == own + 1
        &&& envelopes.last().recipient == count
        &&& sealed[count - 1] is Ok
        &&& envelopes.last().envelope@ == (sealed[count - 1]->Ok_0)@
        &&& envelopes_of(sealed, own, (count - 1) as nat, envelopes.drop_last())
    }
}

#[verifier::loop_isolation(false)]
fn collect_sealed(sealed: &Vec<Result<Vec<u8>, String>>, own: u16) -> (r: Result<Vec<DirectedEnvelope>, String>)
    requires
        sealed@.len() <= u16::MAX,
        own < u16::MAX,
    ensures
        match r {
            Ok(envelopes) => {
                &&& sealed_refusal(sealed@, own as int, sealed@.len()) is None
                &&& envelopes_of(sealed@, own as int, sealed@.len(), envelopes@)
            },
            Err(e) => sealed_refusal(sealed@, own as int, sealed@.len()) == Some(e@),
        },
{
    let mut envelopes: Vec<DirectedEnvelope> = Vec::new();
    let mut i: usize = 0;
    while i < sealed.len()
        invariant
            i <= sealed@.len(),
            sealed_refusal(sealed@, own as int, i as nat) is None,
            envelopes_of(sealed@, own as int, i as nat, envelopes@),
        decreases sealed@.len() - i,
    {
        if i != own as usize {
            match &sealed[i] {
                Err(e) => {
                    proof {
                        assert(sealed_refusal(sealed@, own as int, (i + 1) as nat) == Some(e@));
                        sealed_refused(sealed@, own as int, (i + 1) as nat, sealed@.len());
                    }
                    return Err(told(e));
                },
                Ok(package) => {
                    let ghost before = envelopes@;
                    envelopes.push(
                        DirectedEnvelope {
                            sender: own + 1,
                            recipient: (i + 1) as u16,
                            envelope: copied(package.as_slice()),
                        },
                    );
                    assert(envelopes@.drop_last() =~= before);
                },
            }
        }
        i = i + 1;
    }
    Ok(envelopes)
}

impl<N, B, S> ProofParty<N, B, S> {
    /// How far the group key has come.
    pub open spec fn stage(self) -> FrostStage {
        if self.frost_key is Some {
            FrostStage::Ready
        } else if self.dkg_round2 is Some {
            FrostStage::Round2
        } else if self.dkg_round1 is Some {
            FrostStage::Round1
        } else if self.peers is Some {
            FrostStage::PeersConfirmed
        } else if self.pending_peers is Some {
            FrostStage::PeersProposed
        } else {
            FrostStage::Fresh
        }
    }

    /// How far the group key has come.
    pub fn frost_status(&self) -> (stage: FrostStage)
        ensures
            stage == self.stage(),
    {
        if self.frost_key.is_some() {
            FrostStage::Ready
        } else if self.dkg_round2.is_some() {
            FrostStage::Round2
        } else if self.dkg_round1.is_some() {
            FrostStage::Round1
        } else if self.peers.is_some() {
            FrostStage::PeersConfirmed
        } else if self.pending_peers.is_some() {
            FrostStage::PeersProposed
        } else {
            FrostStage::Fresh
        }
    }

    /// The session that the node is bound to.
    pub open spec fn active_session(self) -> Option<[u8; 32]> {
        match self.frost_key {
            Some(key) => Some(key.session),
            None => match self.peers {
                Some(peers) => Some(peers.session),
                None => match self.pending_peers {
                    Some(peers) => Some(peers.session),
                    None => None,
                },
            },
        }
    }

    /// The session that the node is bound to.
    pub fn active_frost_session(&self) -> (session: Option<[u8; 32]>)
        ensures
            session == self.active_session(),
    {
        match &self.frost_key {
            Some(key) => Some(key.session),
            None => match &self.peers {
                Some(peers) => Some(peers.session),
                None => match &self.pending_peers {
                    Some(peers) => Some(peers.session),
                    None => None,
                },
            },
        }
    }

    /// Why a node does not answer for its keys in a session.
    pub open spec fn identity_refusal(self, params: Json) -> Option<Seq<char>> {
        either(
            hex32_refusal(params.field("session"@), "FROST session"@),
            unless(
                self.active_session() is None || (self.active_session()->0)@ == hex_in(params.field("session"@)),
                "FROST node is already bound to another DKG session"@,
            ),
        )
    }

    /// The session in which the node answers for its keys.
    pub fn frost_identity(&self, params: &Value) -> (r: Result<[u8; 32], String>)
        ensures
            match r {
                Ok(session) => {
                    &&& self.identity_refusal(params@) is None
                    &&& session@ == hex_in(params@.field("session"@))
                },
                Err(e) => self.identity_refusal(params@) == Some(e@),
            },
    {
        let session = match hex32(params.get("session"), "FROST session") {
            Err(e) => {
                return Err(e);
            },
            Ok(value) => value,
        };
        if let Some(active) = self.active_frost_session() {
            if !same32(&active, &session) {
                return Err("FROST node is already bound to another DKG session".to_owned());
            }
        }
        Ok(session)
    }

    /// The state with an identity attestation kept.
    pub open spec fn attested(self, id: Seq<u8>, signature: Seq<u8>, after: ProofParty<N, B, S>) -> bool {
        &&& after == (ProofParty { pq_identity_cache: after.pq_identity_cache, ..self })
        &&& after.pq_identity_cache.has(id)
        &&& after.pq_identity_cache.at(id)@ == signature
        &&& after.pq_identity_cache.same_but(self.pq_identity_cache, id)
    }

    /// What signing an identity text does: the signature that is given is kept durably, and
    /// given again for the same text.
    pub open spec fn identity_signed<
        G: Fn(&Vec<u8>) -> Result<Vec<u8>, String>,
        W: Fn(&ProofParty<N, B, S>, u64) -> Result<(), String>,
    >(self, body: Vec<u8>, sign: G, write: W, later: ProofParty<N, B, S>, r: Result<Vec<u8>, String>) -> bool {
        let id = sha256(body@);
        if self.pq_identity_cache.has(id) {
            &&& r matches Ok(kept) && kept@ == self.pq_identity_cache.at(id)@
            &&& later == self
        } else if self.pq_identity_cache.count() >= MAX_IDENTITY_ATTESTATIONS {
            &&& r matches Err(e) && e@ == "PQ identity attestation cache reached its enrollment bound"@
            &&& later == self
        } else {
            exists|signature: Result<Vec<u8>, String>| #[trigger]
                call_ensures(sign, (&body,), signature) && match signature {
                    Err(e) => {
                        &&& r == Err::<Vec<u8>, String>(e)
                        &&& later == self
                    },
                    Ok(made) => {
                        &&& r matches Ok(given) ==> given@ == made@
                        &&& exists|middle: ProofParty<N, B, S>| #[trigger]
                            self.attested(id, made@, middle) && written(
                                write,
                                middle,
                                later,
                                outcome_of(r),
                            )
                    },
                }
        }
    }

    /// The post-quantum signature over an identity text. Signing is randomized,
    /// so the exact signature is kept durably and given again when it is asked
    /// for again: a retry after a crash repeats the manifest's digest.
    pub fn pq_identity_signature<
        G: Fn(&Vec<u8>) -> Result<Vec<u8>, String>,
        W: Fn(&ProofParty<N, B, S>, u64) -> Result<(), String>,
    >(&mut self, body: &Vec<u8>, sign: &G, write: &W) -> (r: Result<Vec<u8>, String>)
        requires
            old(self).consistent(),
            forall|b: &Vec<u8>| call_requires(*sign, (b,)),
            can_write(*write),
        ensures
            final(self).consistent(),
            old(self).keeps_used(*final(self)),
            old(self).identity_signed(*body, *sign, *write, *final(self), r),
    {
        let id = hash(body.as_slice());
        if let Some(kept) = self.pq_identity_cache.get(&id) {
            return Ok(copied(kept.as_slice()));
        }
        if self.pq_identity_cache.len() >= MAX_IDENTITY_ATTESTATIONS {
            return Err("PQ identity attestation cache reached its enrollment bound".to_owned());
        }
        let signature = sign(body);
        assert(call_ensures(*sign, (body,), signature));
        let made = match signature {
            Err(e) => {
                return Err(e);
            },
            Ok(made) => made,
        };
        self.pq_identity_cache.insert(id, copied(made.as_slice()));
        let ghost middle = *self;
        assert(old(self).attested(id@, made@, middle));
        match self.persist(write) {
            Err(e) => Err(e),
            Ok(_) => Ok(copied(made.as_slice())),
        }
    }

    /// The manifest that the node is bound to.
    pub open spec fn existing_peers(self) -> Option<PendingPeers> {
        match self.peers {
            Some(peers) => Some(peers),
            None => self.pending_peers,
        }
    }

    /// What taking a checked manifest does: it is taken once, and one that the node is
    /// bound to already is confirmed again.
    pub open spec fn peers_taken<R, F: Fn(&PendingPeers) -> Result<R, String>>(
        self,
        pending: PendingPeers,
        confirm: F,
        later: ProofParty<N, B, S>,
        r: Result<R, String>,
    ) -> bool {
        if self.frost_key is Some {
            &&& r matches Err(e) && e@ == "FROST group is already finalized on this node"@
            &&& later == self
        } else {
            match self.existing_peers() {
                Some(existing) => {
                    &&& later == self
                    &&& if existing.session@ != pending.session@ || existing.digest@ != pending.digest@ {
                        r matches Err(e) && e@ == "FROST peer manifest was already configured differently"@
                    } else {
                        call_ensures(confirm, (&existing,), r)
                    }
                },
                None => {
                    &&& call_ensures(confirm, (&pending,), r)
                    &&& later == if r is Ok {
                        ProofParty { pending_peers: Some(pending), ..self }
                    } else {
                        self
                    }
                },
            }
        }
    }

    /// Takes a checked manifest, once, and gives what `confirm` makes of it. A
    /// manifest that the node is bound to already is confirmed again.
    pub(crate) fn take_peers<R, F: Fn(&PendingPeers) -> Result<R, String>>(
        &mut self,
        pending: PendingPeers,
        confirm: &F,
    ) -> (r: Result<R, String>)
        requires
            old(self).consistent(),
            forall|peers: &PendingPeers| call_requires(*confirm, (peers,)),
        ensures
            final(self).consistent(),
            old(self).keeps_used(*final(self)),
            old(self).peers_taken(pending, *confirm, *final(self), r),
    {
        if self.frost_key.is_some() {
            return Err("FROST group is already finalized on this node".to_owned());
        }
        let existing = match &self.peers {
            Some(peers) => Some(peers),
            None => match &self.pending_peers {
                Some(peers) => Some(peers),
                None => None,
            },
        };
        if let Some(known) = existing {
            if !same32(&known.session, &pending.session) || !same32(&known.digest, &pending.digest) {
                return Err("FROST peer manifest was already configured differently".to_owned());
            }
            return confirm(known);
        }
        match confirm(&pending) {
            Err(e) => Err(e),
            Ok(reply) => {
                self.pending_peers = Some(pending);
                Ok(reply)
            },
        }
    }

    /// Why the confirmation of a manifest is refused.
    pub open spec fn confirm_refusal<F: Fn(&Vec<u8>, &Vec<u8>, &Vec<u8>) -> bool>(
        self,
        params: Json,
        signed: F,
    ) -> Option<Seq<char>> {
        match self.existing_peers() {
            None => Some("FROST peer manifest is not pending"@),
            Some(peers) => confirmations_refusal(peers, params, signed),
        }
    }

    /// Binds the node to a manifest that every peer confirmed, durably.
    /// `signed` checks a post-quantum signature by a key over a text.
    pub fn confirm_peers<
        F: Fn(&Vec<u8>, &Vec<u8>, &Vec<u8>) -> bool,
        W: Fn(&ProofParty<N, B, S>, u64) -> Result<(), String>,
    >(&mut self, params: &Value, signed: &F, write: &W) -> (r: Result<(), String>)
        requires
            old(self).consistent(),
            checks_signatures(*signed),
            can_write(*write),
        ensures
            final(self).consistent(),
            old(self).keeps_used(*final(self)),
            match old(self).confirm_refusal(params@, *signed) {
                Some(e) => {
                    &&& r matches Err(f) && f@ == e
                    &&& *final(self) == *old(self)
                },
                None => if old(self).peers is Some {
                    r is Ok && *final(self) == *old(self)
                } else {
                    written(
                        *write,
                        ProofParty { peers: old(self).pending_peers, pending_peers: None, ..*old(self) },
                        *final(self),
                        outcome_of(r),
                    )
                },
            },
    {
        if let Some(peers) = &self.peers {
            return verify_peer_confirmations(peers, params, signed);
        }
        match &self.pending_peers {
            None => {
                return Err("FROST peer manifest is not pending".to_owned());
            },
            Some(pending) => {
                if let Err(e) = verify_peer_confirmations(pending, params, signed) {
                    return Err(e);
                }
            },
        }
        self.peers = self.pending_peers.take();
        self.persist(write)
    }

    /// Why the first round of key generation cannot be made.
    pub open spec fn dkg_round1_refusal(self) -> Option<Seq<char>> {
        either(unless(self.peers is Some, "FROST peer manifest is not confirmed"@),
        either(unless((self.peers->0).entries@.len() <= u16::MAX, "FROST participant count is invalid"@),
        unless(self.config.threshold + 1 <= u16::MAX, "FROST signing threshold is invalid"@)))
    }

    /// The state with the first round made.
    pub open spec fn dkg_round1_made(self, secret: Seq<u8>, package: Seq<u8>, after: ProofParty<N, B, S>) -> bool {
        &&& after == (ProofParty { dkg_round1: after.dkg_round1, ..self })
        &&& after.dkg_round1 is Some
        &&& (after.dkg_round1->0).secret@ == secret
        &&& (after.dkg_round1->0).broadcast_package@ == package
    }

    /// What asking for the first round gives: the broadcast of this node, made once and kept
    /// durably before it is given.
    pub open spec fn first_round_given<
        F: FnOnce(u16, u16, u16) -> Result<(Vec<u8>, Vec<u8>), String>,
        W: Fn(&ProofParty<N, B, S>, u64) -> Result<(), String>,
    >(self, make: F, write: W, later: ProofParty<N, B, S>, r: Result<Vec<u8>, String>) -> bool {
        if self.frost_key is Some {
            &&& r matches Err(e) && e@ == "FROST group is already finalized on this node"@
            &&& later == self
        } else if self.dkg_round2 is Some {
            &&& r matches Ok(package) && package@ == (self.dkg_round2->0).round1_package@
            &&& later == self
        } else if self.dkg_round1 is Some {
            &&& r matches Ok(package) && package@ == (self.dkg_round1->0).broadcast_package@
            &&& later == self
        } else {
            match self.dkg_round1_refusal() {
                Some(e) => {
                    &&& r matches Err(f) && f@ == e
                    &&& later == self
                },
                None => {
                    let i = (self.config.node + 1) as u16;
                    let n = (self.peers->0).entries@.len() as u16;
                    let t = (self.config.threshold + 1) as u16;
                    ||| r is Err && later == self && call_ensures(
                        make,
                        (i, n, t),
                        Err::<(Vec<u8>, Vec<u8>), String>(r->Err_0),
                    )
                    ||| exists|secret: Vec<u8>, package: Vec<u8>, middle: ProofParty<N, B, S>|
                        #[trigger] call_ensures(
                            make,
                            (i, n, t),
                            Ok::<(Vec<u8>, Vec<u8>), String>((secret, package)),
                        ) && #[trigger] self.dkg_round1_made(secret@, package@, middle) && written(
                            write,
                            middle,
                            later,
                            outcome_of(r),
                        ) && (r matches Ok(given) ==> given@ == package@)
                },
            }
        }
    }

    /// Makes the first round of key generation with `make`, which is told the node's
    /// identifier, the number of participants and that of signers, durably, or gives
    /// the broadcast again that was made before.
    pub fn frost_dkg_round1<
        F: FnOnce(u16, u16, u16) -> Result<(Vec<u8>, Vec<u8>), String>,
        W: Fn(&ProofParty<N, B, S>, u64) -> Result<(), String>,
    >(&mut self, make: F, write: &W) -> (r: Result<Vec<u8>, String>)
        requires
            old(self).consistent(),
            old(self).config.node < u16::MAX,
            can_write(*write),
            forall|i: u16, n: u16, t: u16| call_requires(make, (i, n, t)),
        ensures
            final(self).consistent(),
            old(self).keeps_used(*final(self)),
            old(self).first_round_given(make, *write, *final(self), r),
    {
        if self.frost_key.is_some() {
            return Err("FROST group is already finalized on this node".to_owned());
        }
        if let Some(pending) = &self.dkg_round2 {
            return Ok(copied(pending.round1_package.as_slice()));
        }
        if let Some(pending) = &self.dkg_round1 {
            return Ok(copied(pending.broadcast_package.as_slice()));
        }
        let participants: usize = match &self.peers {
            None => {
                return Err("FROST peer manifest is not confirmed".to_owned());
            },
            Some(peers) => peers.entries.len(),
        };
        if participants > 0xffff {
            return Err("FROST participant count is invalid".to_owned());
        }
        if self.config.threshold >= 0xffff {
            return Err("FROST signing threshold is invalid".to_owned());
        }
        match make(self.config.node + 1, participants as u16, (self.config.threshold + 1) as u16) {
            Err(e) => Err(e),
            Ok((secret, package)) => {
                let given = copied(package.as_slice());
                let ghost made = (secret@, package@);
                self.dkg_round1 = Some(PendingDkgRound1 { secret, broadcast_package: package });
                let ghost middle = *self;
                assert(old(self).dkg_round1_made(made.0, made.1, middle));
                match self.persist(write) {
                    Err(e) => Err(e),
                    Ok(_) => Ok(given),
                }
            },
        }
    }

    /// Why a request for the second round is refused before it is computed.
    pub open spec fn dkg_round2_refusal<D: Fn(&Vec<u8>) -> bool, P: Fn(&Value) -> Vec<u8>>(
        self,
        params: Json,
        decodes: D,
        print: P,
    ) -> Option<Seq<char>> {
        let broadcasts = params.field("broadcasts"@);
        either(
            unless(broadcasts is Some, "FROST DKG broadcasts are absent"@),
            match self.dkg_round2 {
                Some(pending) => unless(
                    pending.broadcasts_digest@ == broadcasts_digest_of(print, broadcasts->0),
                    "FROST DKG round two was already persisted for another transcript"@,
                ),
                None => match self.peers {
                    None => Some("FROST peer manifest is not confirmed"@),
                    Some(peers) => either(
                        broadcasts_refusal(peers, params, decodes),
                        unless(self.dkg_round1 is Some, "FROST DKG round-one secret is absent"@),
                    ),
                },
            },
        )
    }

    /// Reads a request for the second round.
    pub(crate) fn dkg_round2_request<D: Fn(&Vec<u8>) -> bool, P: Fn(&Value) -> Vec<u8>>(
        &self,
        params: &Value,
        decodes: &D,
        print: &P,
    ) -> (r: Result<Round2Plan, String>)
        requires
            decides(*decodes),
            prints(*print),
        ensures
            match r {
                Err(e) => self.dkg_round2_refusal(params@, *decodes, *print) == Some(e@),
                Ok(plan) => {
                    &&& self.dkg_round2_refusal(params@, *decodes, *print) is None
                    &&& match plan {
                        Round2Plan::Answered => self.dkg_round2 is Some,
                        Round2Plan::Answer { broadcasts_digest, broadcasts } => {
                            &&& self.dkg_round2 is None
                            &&& broadcasts_digest@ == broadcasts_digest_of(*print, params@.field("broadcasts"@)->0)
                            &&& broadcasts_said(array_in(params@.field("broadcasts"@))->0, broadcasts@)
                        },
                    }
                },
            },
    {
        let listed = match params.get("broadcasts") {
            None => {
                return Err("FROST DKG broadcasts are absent".to_owned());
            },
            Some(value) => value,
        };
        let broadcasts_digest = digest_broadcasts(print, listed);
        if let Some(pending) = &self.dkg_round2 {
            if !same32(&pending.broadcasts_digest, &broadcasts_digest) {
                return Err("FROST DKG round two was already persisted for another transcript".to_owned());
            }
            return Ok(Round2Plan::Answered);
        }
        let peers = match &self.peers {
            None => {
                return Err("FROST peer manifest is not confirmed".to_owned());
            },
            Some(value) => value,
        };
        let broadcasts = match frost_broadcasts(params, peers, decodes) {
            Err(e) => {
                return Err(e);
            },
            Ok(value) => value,
        };
        if self.dkg_round1.is_none() {
            return Err("FROST DKG round-one secret is absent".to_owned());
        }
        Ok(Round2Plan::Answer { broadcasts_digest, broadcasts })
    }

    /// The state with the second round made.
    pub open spec fn dkg_round2_made(
        self,
        broadcasts_digest: [u8; 32],
        own_package: Seq<u8>,
        secret: Seq<u8>,
        sealed: Seq<Result<Vec<u8>, String>>,
        after: ProofParty<N, B, S>,
    ) -> bool {
        let made = after.dkg_round2->0;
        &&& after == (ProofParty { dkg_round1: None, dkg_round2: after.dkg_round2, ..self })
        &&& after.dkg_round2 is Some
        &&& made.secret@ == secret
        &&& made.round1_package@ == own_package
        &&& made.broadcasts_digest == broadcasts_digest
        &&& envelopes_of(sealed, self.config.node as int, sealed.len(), made.encrypted@)
    }

    /// Keeps the second round, durably, before a package leaves the node: the
    /// first round's secret is gone, and the transcript can only be repeated.
    pub(crate) fn dkg_round2_finish<W: Fn(&ProofParty<N, B, S>, u64) -> Result<(), String>>(
        &mut self,
        broadcasts_digest: [u8; 32],
        own_package: Vec<u8>,
        secret: Vec<u8>,
        sealed: &Vec<Result<Vec<u8>, String>>,
        write: &W,
    ) -> (r: Result<(), String>)
        requires
            old(self).consistent(),
            can_write(*write),
            sealed@.len() <= u16::MAX,
            old(self).config.node < u16::MAX,
            old(self).dkg_round1 is Some,
        ensures
            final(self).consistent(),
            old(self).keeps_used(*final(self)),
            match sealed_refusal(sealed@, old(self).config.node as int, sealed@.len()) {
                Some(e) => {
                    &&& r matches Err(f) && f@ == e
                    &&& *final(self) == *old(self)
                },
                None => exists|middle: ProofParty<N, B, S>| #[trigger]
                    old(self).dkg_round2_made(
                        broadcasts_digest,
                        own_package@,
                        secret@,
                        sealed@,
                        middle,
                    ) && written(*write, middle, *final(self), outcome_of(r)),
            },
    {
        let encrypted = match collect_sealed(sealed, self.config.node) {
            Err(e) => {
                return Err(e);
            },
            Ok(value) => value,
        };
        self.dkg_round1 = None;
        let ghost kept = (own_package@, secret@);
        self.dkg_round2 = Some(
            PendingDkgRound2 { secret, round1_package: own_package, broadcasts_digest, encrypted },
        );
        let ghost middle = *self;
        assert(old(self).dkg_round2_made(broadcasts_digest, kept.0, kept.1, sealed@, middle));
        self.persist(write)
    }

    /// Why a request to make the key final is refused before it is computed.
    pub open spec fn dkg_finalize_refusal<D: Fn(&Vec<u8>) -> bool, P: Fn(&Value) -> Vec<u8>>(
        self,
        params: Json,
        decodes: D,
        print: P,
        incoming: Seq<IncomingFacts>,
    ) -> Option<Seq<char>> {
        let broadcasts = params.field("broadcasts"@);
        match self.frost_key {
            Some(key) => unless(
                key.finalize_digest is Some && (key.finalize_digest->0)@ == finalize_digest_of(
                    print,
                    self.config.node as nat,
                    params,
                ),
                "FROST DKG was already finalized with another transcript"@,
            ),
            None => match self.peers {
                None => Some("FROST peer manifest is not confirmed"@),
                Some(peers) => either(
                    broadcasts_refusal(peers, params, decodes),
                    either(
                        unless(self.dkg_round2 is Some, "FROST DKG round-two secret is absent"@),
                        either(
                            unless(
                                broadcasts_digest_of(print, broadcasts->0) == (self.dkg_round2->0).broadcasts_digest@,
                                "FROST finalization changed the round-two broadcasts"@,
                            ),
                            incoming_set_refusal(peers, (self.config.node + 1) as nat, params, incoming),
                        ),
                    ),
                ),
            },
        }
    }

    /// Whether what was found can be held against the incoming packages.
    pub open spec fn finalizable(self, params: Json, incoming: Seq<IncomingFacts>) -> bool {
        self.peers matches Some(peers) ==> (array_in(params.field("incoming"@)) matches Some(entries) ==> entries.len()
            <= incoming.len() || entries.len() + 1 != peers.entries@.len())
    }

    /// Reads a request to make the key final. KEM encryption alone does not
    /// authenticate a sender: `incoming` tells of each package whether both of
    /// the sender's signatures over its envelope hold.
    pub(crate) fn dkg_finalize_request<D: Fn(&Vec<u8>) -> bool, P: Fn(&Value) -> Vec<u8>>(
        &self,
        params: &Value,
        decodes: &D,
        print: &P,
        incoming: &Vec<IncomingFacts>,
    ) -> (r: Result<FinalizePlan, String>)
        requires
            decides(*decodes),
            prints(*print),
            self.finalizable(params@, incoming@),
            self.config.node < u16::MAX,
        ensures
            match r {
                Err(e) => self.dkg_finalize_refusal(params@, *decodes, *print, incoming@) == Some(e@),
                Ok(plan) => {
                    &&& self.dkg_finalize_refusal(params@, *decodes, *print, incoming@) is None
                    &&& match plan {
                        FinalizePlan::Accepted => self.frost_key is Some,
                        FinalizePlan::Accept { finalize_digest, broadcasts } => {
                            &&& self.frost_key is None
                            &&& finalize_digest@ == finalize_digest_of(*print, self.config.node as nat, params@)
                            &&& broadcasts_said(array_in(params@.field("broadcasts"@))->0, broadcasts@)
                        },
                    }
                },
            },
    {
        let finalize_digest = digest_finalize(print, self.config.node, params);
        if let Some(key) = &self.frost_key {
            let repeated = match &key.finalize_digest {
                Some(prior) => same32(prior, &finalize_digest),
                None => false,
            };
            if !repeated {
                return Err("FROST DKG was already finalized with another transcript".to_owned());
            }
            return Ok(FinalizePlan::Accepted);
        }
        let peers = match &self.peers {
            None => {
                return Err("FROST peer manifest is not confirmed".to_owned());
            },
            Some(value) => value,
        };
        let broadcasts = match frost_broadcasts(params, peers, decodes) {
            Err(e) => {
                return Err(e);
            },
            Ok(value) => value,
        };
        let pending = match &self.dkg_round2 {
            None => {
                return Err("FROST DKG round-two secret is absent".to_owned());
            },
            Some(value) => value,
        };
        let listed = match params.get("broadcasts") {
            None => {
                return Err("FROST DKG broadcasts are absent".to_owned());
            },
            Some(value) => value,
        };
        let broadcasts_digest = digest_broadcasts(print, listed);
        if !same32(&broadcasts_digest, &pending.broadcasts_digest) {
            return Err("FROST finalization changed the round-two broadcasts".to_owned());
        }
        if let Err(e) = check_incoming(peers, self.config.node + 1, params, incoming) {
            return Err(e);
        }
        Ok(FinalizePlan::Accept { finalize_digest, broadcasts })
    }

    /// The state with the key final.
    pub open spec fn finalized(
        self,
        finalize_digest: [u8; 32],
        key_package: Seq<u8>,
        public_package: Seq<u8>,
        after: ProofParty<N, B, S>,
    ) -> bool {
        let key = after.frost_key->0;
        let policy = after.pq_committee->0;
        let peers = self.peers->0;
        &&& after == (ProofParty {
            frost_key: after.frost_key,
            pq_committee: after.pq_committee,
            dkg_round1: None,
            dkg_round2: None,
            peers: None,
            pending_peers: None,
            ..self
        })
        &&& after.frost_key is Some
        &&& key.session == peers.session
        &&& key.key_package@ == key_package
        &&& key.public_package@ == public_package
        &&& key.finalize_digest == Some(finalize_digest)
        &&& after.pq_committee is Some
        &&& policy.epoch == 1
        &&& policy.context@ == committee_context(peers.session@)
        &&& policy.classical_binding@ == sha256(public_package)
        &&& policy.threshold == self.config.threshold + 1
        &&& members_of(policy.members@, peers.entries@)
    }

    /// Whether this is the committee of the peers, for a group key with this public
    /// package.
    pub open spec fn policy_said(self, public: Seq<u8>, policy: QuorumPolicy) -> bool {
        &&& policy.epoch == 1
        &&& policy.context@ == committee_context((self.peers->0).session@)
        &&& policy.classical_binding@ == sha256(public)
        &&& policy.threshold == self.config.threshold + 1
        &&& members_of(policy.members@, (self.peers->0).entries@)
    }

    /// What making the key final does: the key and its committee, which `valid` checks,
    /// are kept, durably, or refused.
    pub open spec fn key_taken<
        C: Fn(&QuorumPolicy) -> Result<(), String>,
        W: Fn(&ProofParty<N, B, S>, u64) -> Result<(), String>,
    >(
        self,
        digest: [u8; 32],
        key_package: Seq<u8>,
        public_package: Seq<u8>,
        valid: C,
        write: W,
        later: ProofParty<N, B, S>,
        r: Result<Vec<u8>, String>,
    ) -> bool {
        if self.config.threshold + 1 > u16::MAX {
            &&& r matches Err(e) && e@ == "PQ threshold overflow"@
            &&& later == self
        } else {
            exists|policy: QuorumPolicy, checked: Result<(), String>|
                self.policy_said(public_package, policy) && #[trigger] call_ensures(valid, (&policy,), checked)
                    && match checked {
                    Err(e) => r == Err::<Vec<u8>, String>(e) && later == self,
                    Ok(_) => {
                        &&& r matches Ok(public) ==> public@ == public_package
                        &&& exists|middle: ProofParty<N, B, S>| #[trigger]
                            self.finalized(digest, key_package, public_package, middle) && middle.pq_committee
                                == Some(policy) && written(write, middle, later, outcome_of(r))
                    },
                }
        }
    }

    /// Keeps the node's share of the key, durably, with the committee that
    /// approves beside it, and forgets the rounds that led there.
    pub(crate) fn dkg_finalize_finish<
        C: Fn(&QuorumPolicy) -> Result<(), String>,
        W: Fn(&ProofParty<N, B, S>, u64) -> Result<(), String>,
    >(
        &mut self,
        finalize_digest: [u8; 32],
        key_package: &Vec<u8>,
        public_package: &Vec<u8>,
        valid: &C,
        write: &W,
    ) -> (r: Result<Vec<u8>, String>)
        requires
            old(self).consistent(),
            can_write(*write),
            forall|q: &QuorumPolicy| call_requires(*valid, (q,)),
            old(self).frost_key is None,
            old(self).peers is Some,
        ensures
            final(self).consistent(),
            old(self).keeps_used(*final(self)),
            old(self).key_taken(
                finalize_digest,
                key_package@,
                public_package@,
                *valid,
                *write,
                *final(self),
                r,
            ),
    {
        let (session, policy) = match &self.peers {
            None => {
                return Err("FROST peer manifest is not confirmed".to_owned());
            },
            Some(peers) => {
                let policy = match make_pq_committee(peers, public_package.as_slice(), self.config.threshold) {
                    Err(e) => {
                        return Err(e);
                    },
                    Ok(policy) => policy,
                };
                (peers.session, policy)
            },
        };
        let ghost made = policy;
        let checked = valid(&policy);
        let ghost given = checked;
        assert(old(self).policy_said(public_package@, made));
        assert(call_ensures(*valid, (&made,), given));
        match checked {
            Err(e) => {
                return Err(e);
            },
            Ok(_) => {},
        }
        self.pq_committee = Some(policy);
        self.frost_key = Some(
            FrostKey {
                session,
                key_package: copied(key_package.as_slice()),
                public_package: copied(public_package.as_slice()),
                finalize_digest: Some(finalize_digest),
            },
        );
        self.dkg_round2 = None;
        self.dkg_round1 = None;
        self.peers = None;
        self.pending_peers = None;
        let ghost middle = *self;
        assert(old(self).finalized(finalize_digest, key_package@, public_package@, middle));
        match self.persist(write) {
            Err(e) => Err(e),
            Ok(_) => Ok(copied(public_package.as_slice())),
        }
    }

    /// Whether a committee is the one of this node and its group key.
    pub open spec fn committee_bound(self, policy: QuorumPolicy, key: FrostKey, record: Seq<u8>) -> bool {
        &&& policy.classical_binding@ == sha256(key.public_package@)
        &&& policy.context@ == committee_context(key.session@)
        &&& policy.threshold == self.config.threshold + 1
        &&& policy.members@.len() == self.config.n_parties
        &&& exists|i: int|
            0 <= i < policy.members@.len() && (#[trigger] policy.members@[i]).node == self.config.node + 1
                && policy.members@[i].key@ == record
    }

    /// Why the stored post-quantum state is refused.
    pub open spec fn pq_state_refusal(self, facts: PqFacts) -> Option<Seq<char>> {
        either(
            refused(facts.key),
            either(
                unless(
                    facts.own && self.pq_identity_cache.count() <= MAX_IDENTITY_ATTESTATIONS
                        && (self.pq_committee is Some)
                        == (self.frost_key is Some),
                    "stored PQ identity or committee is inconsistent"@,
                ),
                match self.pq_committee {
                    None => None,
                    Some(policy) => either(
                        refused(facts.committee),
                        unless(
                            self.committee_bound(policy, self.frost_key->0, facts.record@),
                            "PQ committee is not bound to this node and classical group"@,
                        ),
                    ),
                },
            ),
        )
    }

    /// Checks the stored post-quantum state against the node's key and its group.
    pub fn validate_pq_state(&self, facts: &PqFacts) -> (r: Result<(), String>)
        ensures
            match r {
                Ok(_) => self.pq_state_refusal(*facts) is None,
                Err(e) => self.pq_state_refusal(*facts) == Some(e@),
            },
    {
        if let Err(e) = &facts.key {
            return Err(told(e));
        }
        if !facts.own || self.pq_identity_cache.len() > MAX_IDENTITY_ATTESTATIONS || self.pq_committee.is_some()
            != self.frost_key.is_some() {
            return Err("stored PQ identity or committee is inconsistent".to_owned());
        }
        if let Some(policy) = &self.pq_committee {
            if let Err(e) = &facts.committee {
                return Err(told(e));
            }
            let key = match &self.frost_key {
                None => {
                    return Err("PQ committee is not bound to this node and classical group".to_owned());
                },
                Some(key) => key,
            };
            let binding = hash(key.public_package.as_slice());
            let context = context_of(&key.session);
            let mut named = false;
            let mut i: usize = 0;
            while i < policy.members.len()
                invariant
                    i <= policy.members@.len(),
                    named == exists|j: int|
                        0 <= j < i && (#[trigger] policy.members@[j]).node == self.config.node + 1
                            && policy.members@[j].key@ == facts.record@,
                decreases policy.members@.len() - i,
            {
                if policy.members[i].node as u32 == self.config.node as u32 + 1 && same(
                    policy.members[i].key.as_slice(),
                    facts.record.as_slice(),
                ) {
                    named = true;
                }
                i = i + 1;
            }
            if !same32(&policy.classical_binding, &binding) || !same(policy.context.as_slice(), context.as_slice())
                || self.config.threshold >= 0xffff || policy.threshold as usize != self.config.threshold + 1
                || policy.members.len() != self.config.n_parties || !named {
                return Err("PQ committee is not bound to this node and classical group".to_owned());
            }
        }
        Ok(())
    }
}

} // verus!
