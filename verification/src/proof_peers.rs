//! The peers of a proof party: who they are, that they agree on it, and what
//! they broadcast while they make a group key.

use vstd::prelude::*;
use crate::bytes::{array32, array64, be_bytes, copied, joined, joined_step, put, put_be, same, text_bytes};
use crate::digest::{hash, sha256};
use crate::fields::{either, unless};
use crate::json::{array_in, as_array, as_text, text_in, Json, Value};
use crate::oracle::{ask, decides, yes};
use crate::oracle::{check_signature, checks_signatures, signature_holds};
use crate::proof_config::{decodes_to_ed25519_key, is_ed25519_key, ProofPartyConfig};
use crate::proof_frost::{as_party, party_in};
use crate::proof_mandate::{refused, told};
use crate::proof_params::MAX_WIRE_BYTES;
use crate::sorting::{order_of, rearranged, stable_order};
use crate::text::{base64_bytes, base64_decode, hex_bytes, hex_decode, hex_encode, hex_text, is_hex, same_text};

verus! {

/// The most peers of one committee.
pub const MAX_PEERS: usize = 64;

/// Whether a signature over a byte string is one of an Ed25519 key.
pub uninterp spec fn ed25519_signed(key: Seq<u8>, body: Seq<u8>, signature: Seq<u8>) -> bool;

/// `ed25519_dalek::VerifyingKey` as a `Verifier`: whether a signature holds is a
/// function of the key, the text and the signature.
#[verifier::external_body]
pub(crate) fn verify_ed25519(key: &[u8; 32], body: &[u8], signature: &[u8; 64]) -> (valid: bool)
    requires
        is_ed25519_key(key@),
    ensures
        valid == ed25519_signed(key@, body@, signature@),
{
    let signature = ed25519_dalek::Signature::from_bytes(signature);
    ed25519_dalek::VerifyingKey::from_bytes(key)
        .is_ok_and(|key| ed25519_dalek::Verifier::verify(&key, body, &signature).is_ok())
}

/// What a peer tells of itself. The post-quantum key is its serialized record.
#[derive(Debug)]
pub struct FrostPeerEntry {
    pub party: u16,
    pub identity_public: String,
    pub exchange_suite: Vec<u8>,
    pub exchange_public: String,
    pub self_signature: String,
    pub pq_key: Vec<u8>,
    pub pq_self_signature: String,
}

impl FrostPeerEntry {
    /// Whether two entries say the same.
    pub open spec fn alike(self, other: FrostPeerEntry) -> bool {
        &&& self.party == other.party
        &&& self.identity_public@ == other.identity_public@
        &&& self.exchange_suite@ == other.exchange_suite@
        &&& self.exchange_public@ == other.exchange_public@
        &&& self.self_signature@ == other.self_signature@
        &&& self.pq_key@ == other.pq_key@
        &&& self.pq_self_signature@ == other.pq_self_signature@
    }

    /// A copy.
    pub fn copy(&self) -> (entry: FrostPeerEntry)
        ensures
            entry.alike(*self),
    {
        FrostPeerEntry {
            party: self.party,
            identity_public: self.identity_public.as_str().to_owned(),
            exchange_suite: copied(self.exchange_suite.as_slice()),
            exchange_public: self.exchange_public.as_str().to_owned(),
            self_signature: self.self_signature.as_str().to_owned(),
            pq_key: copied(self.pq_key.as_slice()),
            pq_self_signature: self.pq_self_signature.as_str().to_owned(),
        }
    }

    /// The bytes of an entry in the manifest.
    pub open spec fn bytes(self) -> Seq<u8> {
        self.pq_key@ + base64_bytes(self.pq_self_signature@)->0 + be_bytes(self.party as nat, 2) + hex_bytes(
            self.identity_public@,
        ) + self.exchange_suite@ + hex_bytes(self.exchange_public@) + hex_bytes(self.self_signature@)
    }
}

/// What was found of a peer's keys.
#[derive(Debug)]
pub struct PeerFacts {
    /// Whether the exchange key is one.
    pub exchange: Result<(), String>,
    /// Whether the post-quantum key is valid now.
    pub pq_valid: Result<(), String>,
    /// Whether it is a settlement key of the committee's suite.
    pub pq_settlement: bool,
}

/// A peer that is proposed, with what was found of its keys.
#[derive(Debug)]
pub struct ProposedPeer {
    pub entry: FrostPeerEntry,
    pub facts: PeerFacts,
}

/// The exchange and post-quantum keys of this node.
#[derive(Debug)]
pub struct OwnKeys {
    pub suite: Vec<u8>,
    pub exchange_public: Result<Vec<u8>, String>,
    pub pq_key: Vec<u8>,
}

/// A committee that was proposed or confirmed, its members in order.
#[derive(Debug)]
pub struct PendingPeers {
    pub session: [u8; 32],
    pub digest: [u8; 32],
    pub entries: Vec<FrostPeerEntry>,
}

/// The text by which a node answers for its keys.
pub open spec fn identity_text(
    session: Seq<u8>,
    party: nat,
    identity: Seq<u8>,
    suite: Seq<u8>,
    exchange: Seq<u8>,
    pq_key: Seq<u8>,
) -> Seq<u8> {
    text_bytes("QOMM:FROST:PEER-IDENTITY:v2"@) + session + be_bytes(party, 2) + identity + suite + exchange + pq_key
}

/// The text by which a node answers for its keys.
pub fn identity_body(
    session: &[u8; 32],
    party: u16,
    identity: &[u8; 32],
    suite: &[u8],
    exchange: &[u8],
    pq_key: &[u8],
) -> (body:
    Vec<u8>)
    ensures
        body@ == identity_text(session@, party as nat, identity@, suite@, exchange@, pq_key@),
{
    let mut body: Vec<u8> = Vec::new();
    put(&mut body, "QOMM:FROST:PEER-IDENTITY:v2".as_bytes());
    put(&mut body, session.as_slice());
    put_be(&mut body, party as u64, 2);
    put(&mut body, identity.as_slice());
    put(&mut body, suite);
    put(&mut body, exchange);
    put(&mut body, pq_key);
    assert(body@ =~= identity_text(session@, party as nat, identity@, suite@, exchange@, pq_key@));
    body
}

/// The text by which peers confirm a manifest.
pub open spec fn confirmation_text(session: Seq<u8>, digest: Seq<u8>) -> Seq<u8> {
    text_bytes("QOMM:FROST:PEER-CONFIRM:v2"@) + session + digest
}

/// The text by which peers confirm a manifest.
pub fn confirmation_body(peers: &PendingPeers) -> (body: Vec<u8>)
    ensures
        body@ == confirmation_text(peers.session@, peers.digest@),
{
    let mut body: Vec<u8> = Vec::new();
    put(&mut body, "QOMM:FROST:PEER-CONFIRM:v2".as_bytes());
    put(&mut body, peers.session.as_slice());
    put(&mut body, peers.digest.as_slice());
    assert(body@ =~= confirmation_text(peers.session@, peers.digest@));
    body
}

/// What a directed package is bound to.
pub open spec fn exchange_text(session: Seq<u8>, sender: nat, recipient: nat) -> Seq<u8> {
    text_bytes("QOMM:FROST:DKG-EXCHANGE:v2"@) + session + be_bytes(sender, 2) + be_bytes(recipient, 2)
}

/// What a directed package is bound to.
pub fn exchange_aad(session: &[u8; 32], sender: u16, recipient: u16) -> (text: Vec<u8>)
    ensures
        text@ == exchange_text(session@, sender as nat, recipient as nat),
{
    let mut text: Vec<u8> = Vec::new();
    put(&mut text, "QOMM:FROST:DKG-EXCHANGE:v2".as_bytes());
    put(&mut text, session.as_slice());
    put_be(&mut text, sender as u64, 2);
    put_be(&mut text, recipient as u64, 2);
    assert(text@ =~= exchange_text(session@, sender as nat, recipient as nat));
    text
}

/// Whether a text is the hexadecimal form of so many bytes.
pub open spec fn is_hex_of(text: Seq<char>, length: nat) -> bool {
    is_hex(text) && hex_bytes(text).len() == length
}

fn hex_of32(text: &str) -> (r: Option<[u8; 32]>)
    ensures
        match r {
            Some(bytes) => is_hex_of(text@, 32) && bytes@ == hex_bytes(text@),
            None => !is_hex_of(text@, 32),
        },
{
    match hex_decode(text) {
        None => None,
        Some(bytes) => if bytes.len() == 32 {
            assert(bytes@.subrange(0, 32) =~= bytes@);
            Some(array32(bytes.as_slice(), 0))
        } else {
            None
        },
    }
}

fn hex_of64(text: &str) -> (r: Option<[u8; 64]>)
    ensures
        match r {
            Some(bytes) => is_hex_of(text@, 64) && bytes@ == hex_bytes(text@),
            None => !is_hex_of(text@, 64),
        },
{
    match hex_decode(text) {
        None => None,
        Some(bytes) => if bytes.len() == 64 {
            assert(bytes@.subrange(0, 64) =~= bytes@);
            Some(array64(bytes.as_slice(), 0))
        } else {
            None
        },
    }
}

/// Why a peer is refused at a place of the manifest, where `signed` checks a
/// post-quantum signature by a key over a text.
pub open spec fn peer_refusal<F: Fn(&Vec<u8>, &Vec<u8>, &Vec<u8>) -> bool>(
    session: Seq<u8>,
    suite: Seq<u8>,
    peer: ProposedPeer,
    index: nat,
    signed: F,
) -> Option<Seq<char>> {
    let entry = peer.entry;
    let identity = hex_bytes(entry.identity_public@);
    let body = identity_text(session, entry.party as nat, identity, suite, hex_bytes(entry.exchange_public@),
        entry.pq_key@);
    either(unless(entry.party == index + 1, "FROST peer manifest parties must be contiguous and one-based"@),
    either(unless(is_hex_of(entry.identity_public@, 32), "FROST identity key is malformed"@),
    either(unless(entry.exchange_suite@ == suite, "FROST peers require hybrid KEM keys"@),
    either(unless(is_hex(entry.exchange_public@), "FROST exchange key is malformed"@),
    either(refused(peer.facts.exchange),
    either(unless(is_hex_of(entry.self_signature@, 64), "FROST peer self-signature is malformed"@),
    either(unless(is_ed25519_key(identity), "FROST identity key is not canonical"@),
    either(unless(ed25519_signed(identity, body, hex_bytes(entry.self_signature@)),
        "FROST exchange key lacks its node identity signature"@),
    either(refused(peer.facts.pq_valid),
    either(unless(peer.facts.pq_settlement, "FROST peer lacks a settlement PQ key"@),
    either(unless(base64_bytes(entry.pq_self_signature@) is Some, "PQ peer self-signature is malformed"@),
    unless(signature_holds(signed, entry.pq_key@, body, base64_bytes(entry.pq_self_signature@)->0),
        "PQ peer self-signature is invalid"@))))))))))))
}

/// Checks a peer and appends its bytes to the manifest.
fn check_peer<F: Fn(&Vec<u8>, &Vec<u8>, &Vec<u8>) -> bool>(
    session: &[u8; 32],
    suite: &Vec<u8>,
    peer: &ProposedPeer,
    index: usize,
    signed: &F,
    body: &mut Vec<u8>,
) -> (r: Result<(), String>)
    requires
        index < MAX_PEERS,
        checks_signatures(*signed),
    ensures
        match r {
            Ok(_) => {
                &&& peer_refusal(session@, suite@, *peer, index as nat, *signed) is None
                &&& final(body)@ == old(body)@ + peer.entry.bytes()
            },
            Err(e) => peer_refusal(session@, suite@, *peer, index as nat, *signed) == Some(e@),
        },
{
    let entry = &peer.entry;
    if entry.party as usize != index + 1 {
        return Err("FROST peer manifest parties must be contiguous and one-based".to_owned());
    }
    let identity = match hex_of32(entry.identity_public.as_str()) {
        None => {
            return Err("FROST identity key is malformed".to_owned());
        },
        Some(value) => value,
    };
    if !same(entry.exchange_suite.as_slice(), suite.as_slice()) {
        return Err("FROST peers require hybrid KEM keys".to_owned());
    }
    let exchange = match hex_decode(entry.exchange_public.as_str()) {
        None => {
            return Err("FROST exchange key is malformed".to_owned());
        },
        Some(value) => value,
    };
    if let Err(e) = &peer.facts.exchange {
        return Err(told(e));
    }
    let signature = match hex_of64(entry.self_signature.as_str()) {
        None => {
            return Err("FROST peer self-signature is malformed".to_owned());
        },
        Some(value) => value,
    };
    if !decodes_to_ed25519_key(&identity) {
        return Err("FROST identity key is not canonical".to_owned());
    }
    let text = identity_body(session, entry.party, &identity, suite.as_slice(), exchange.as_slice(),
        entry.pq_key.as_slice());
    if !verify_ed25519(&identity, text.as_slice(), &signature) {
        return Err("FROST exchange key lacks its node identity signature".to_owned());
    }
    if let Err(e) = &peer.facts.pq_valid {
        return Err(told(e));
    }
    if !peer.facts.pq_settlement {
        return Err("FROST peer lacks a settlement PQ key".to_owned());
    }
    let pq_signature = match base64_decode(entry.pq_self_signature.as_str()) {
        None => {
            return Err("PQ peer self-signature is malformed".to_owned());
        },
        Some(value) => value,
    };
    if !check_signature(signed, &entry.pq_key, &text, &pq_signature) {
        return Err("PQ peer self-signature is invalid".to_owned());
    }
    let ghost before = body@;
    put(body, entry.pq_key.as_slice());
    put(body, pq_signature.as_slice());
    put_be(body, entry.party as u64, 2);
    put(body, identity.as_slice());
    put(body, entry.exchange_suite.as_slice());
    put(body, exchange.as_slice());
    put(body, signature.as_slice());
    assert(body@ =~= before + entry.bytes());
    Ok(())
}

/// The peers in the order of their numbers.
pub open spec fn by_party(peers: Seq<ProposedPeer>) -> Seq<ProposedPeer> {
    rearranged(peers, order_of(peers.map_values(|p: ProposedPeer| p.entry.party as int)))
}

/// Why the first `count` peers are refused.
pub open spec fn peers_refusal<F: Fn(&Vec<u8>, &Vec<u8>, &Vec<u8>) -> bool>(
    session: Seq<u8>,
    suite: Seq<u8>,
    peers: Seq<ProposedPeer>,
    signed: F,
    count: nat,
) -> Option<Seq<char>>
    decreases count,
{
    if count == 0 || count > peers.len() {
        None
    } else {
        either(
            peers_refusal(session, suite, peers, signed, (count - 1) as nat),
            peer_refusal(session, suite, peers[count - 1], (count - 1) as nat, signed),
        )
    }
}

/// The first refusal among the peers is that of all of them.
proof fn peers_refused<F: Fn(&Vec<u8>, &Vec<u8>, &Vec<u8>) -> bool>(
    session: Seq<u8>,
    suite: Seq<u8>,
    peers: Seq<ProposedPeer>,
    signed: F,
    at: nat,
    count: nat,
)
    requires
        at <= count <= peers.len(),
        peers_refusal(session, suite, peers, signed, at) is Some,
    ensures
        peers_refusal(session, suite, peers, signed, count) == peers_refusal(session, suite, peers, signed, at),
    decreases count,
{
    if at < count {
        peers_refused(session, suite, peers, signed, at, (count - 1) as nat);
    }
}

/// The bytes of the entries in the manifest.
pub open spec fn entry_bytes(peers: Seq<ProposedPeer>) -> Seq<Seq<u8>> {
    peers.map_values(|p: ProposedPeer| p.entry.bytes())
}

/// The text of a manifest.
pub open spec fn manifest_text(session: Seq<u8>, peers: Seq<ProposedPeer>) -> Seq<u8> {
    text_bytes("QOMM:FROST:PEER-MANIFEST:v2"@) + session + be_bytes(peers.len(), 2) + joined(entry_bytes(peers))
}

/// Why a manifest is not one of this node's own keys.
pub open spec fn own_refusal(
    own: FrostPeerEntry,
    party: nat,
    identity: Seq<u8>,
    keys: OwnKeys,
) -> Option<Seq<char>> {
    let substituted = Some("FROST manifest substituted this node's identity or exchange key"@);
    if own.party != party || own.identity_public@ != hex_text(identity) {
        substituted
    } else {
        match keys.exchange_public {
            Err(e) => Some(e@),
            Ok(exchange) => if own.exchange_public@ != hex_text(exchange@) || own.pq_key@ != keys.pq_key@ {
                substituted
            } else {
                None
            },
        }
    }
}

/// Why a manifest is refused.
pub open spec fn manifest_refusal<F: Fn(&Vec<u8>, &Vec<u8>, &Vec<u8>) -> bool>(
    config: ProofPartyConfig,
    identity: Seq<u8>,
    keys: OwnKeys,
    session: Seq<u8>,
    peers: Seq<ProposedPeer>,
    signed: F,
) -> Option<Seq<char>> {
    let sorted = by_party(peers);
    either(unless(peers.len() == config.n_parties && peers.len() <= MAX_PEERS,
        "FROST peer manifest is outside its participant bound"@),
    either(peers_refusal(session, keys.suite@, sorted, signed, peers.len()),
    either(unless((config.node as int) < peers.len(), "FROST manifest omits this node"@),
    own_refusal(sorted[config.node as int].entry, (config.node + 1) as nat, identity, keys))))
}

/// Whether the entries of a manifest are those of the proposed peers.
pub open spec fn entries_of(entries: Seq<FrostPeerEntry>, sorted: Seq<ProposedPeer>) -> bool {
    &&& entries.len() == sorted.len()
    &&& forall|i: int| #![trigger entries[i]] 0 <= i < entries.len() ==> entries[i].alike(sorted[i].entry)
}

/// Checks a proposed committee: every member answers for its keys, the numbers
/// have no gap, and this node's own keys were not replaced. `signed` checks a
/// post-quantum signature by a key over a text.
#[verifier::loop_isolation(false)]
pub fn manifest<F: Fn(&Vec<u8>, &Vec<u8>, &Vec<u8>) -> bool>(
    config: &ProofPartyConfig,
    identity_public: &[u8; 32],
    keys: &OwnKeys,
    session: [u8; 32],
    peers: &Vec<ProposedPeer>,
    signed: &F,
) -> (r: Result<PendingPeers, String>)
    requires
        checks_signatures(*signed),
    ensures
        match r {
            Ok(pending) => {
                &&& manifest_refusal(*config, identity_public@, *keys, session@, peers@, *signed) is None
                &&& pending.session == session
                &&& pending.digest@ == sha256(manifest_text(session@, by_party(peers@)))
                &&& entries_of(pending.entries@, by_party(peers@))
                &&& by_party(peers@).len() == peers@.len()
                &&& pending.numbered()
            },
            Err(e) => manifest_refusal(*config, identity_public@, *keys, session@, peers@, *signed) == Some(e@),
        },
{
    let mut numbers: Vec<u64> = Vec::new();
    let mut i: usize = 0;
    while i < peers.len()
        invariant
            i <= peers@.len(),
            numbers@.len() == i,
            forall|j: int| 0 <= j < i ==> #[trigger] numbers@[j] == peers@[j].entry.party,
        decreases peers@.len() - i,
    {
        numbers.push(peers[i].entry.party as u64);
        i = i + 1;
    }
    assert(numbers@.map_values(|k: u64| k as int) =~= peers@.map_values(|p: ProposedPeer| p.entry.party as int));
    let order = stable_order(&numbers);
    let ghost sorted = by_party(peers@);
    assert(sorted.len() == peers@.len());
    if peers.len() != config.n_parties || peers.len() > MAX_PEERS {
        return Err("FROST peer manifest is outside its participant bound".to_owned());
    }
    let ghost parts = entry_bytes(sorted);
    let mut entries: Vec<FrostPeerEntry> = Vec::new();
    let mut body: Vec<u8> = Vec::new();
    put(&mut body, "QOMM:FROST:PEER-MANIFEST:v2".as_bytes());
    put(&mut body, session.as_slice());
    put_be(&mut body, peers.len() as u64, 2);
    let ghost head = body@;
    i = 0;
    assert(parts.take(0) =~= Seq::empty());
    assert(body@ =~= head + joined(parts.take(0)));
    while i < peers.len()
        invariant
            i <= peers@.len(),
            entries@.len() == i,
            peers_refusal(session@, keys.suite@, sorted, *signed, i as nat) is None,
            body@ == head + joined(parts.take(i as int)),
            forall|j: int|
                #![trigger entries@[j]]
                0 <= j < i ==> entries@[j].alike(sorted[j].entry) && entries@[j].party == j + 1,
        decreases peers@.len() - i,
    {
        let peer = &peers[order[i]];
        assert(*peer == sorted[i as int]);
        let ghost told_at = peer_refusal(session@, keys.suite@, *peer, i as nat, *signed);
        proof {
            if told_at is Some {
                assert(peers_refusal(session@, keys.suite@, sorted, *signed, (i + 1) as nat) == told_at);
                peers_refused(session@, keys.suite@, sorted, *signed, (i + 1) as nat, sorted.len());
            }
        }
        if let Err(e) = check_peer(&session, &keys.suite, peer, i, signed, &mut body) {
            return Err(e);
        }
        proof {
            joined_step(parts, i as int);
            assert(body@ =~= head + joined(parts.take(i + 1)));
        }
        entries.push(peer.entry.copy());
        i = i + 1;
    }
    assert(parts.take(i as int) =~= parts);
    assert(body@ =~= manifest_text(session@, sorted));
    if config.node as usize >= entries.len() {
        return Err("FROST manifest omits this node".to_owned());
    }
    let own = &entries[config.node as usize];
    let identity_text = hex_encode(identity_public.as_slice());
    if own.party as u32 != config.node as u32 + 1 || !same_text(own.identity_public.as_str(), identity_text.as_str()) {
        return Err("FROST manifest substituted this node's identity or exchange key".to_owned());
    }
    match &keys.exchange_public {
        Err(e) => {
            return Err(told(e));
        },
        Ok(exchange) => {
            let exchange_text = hex_encode(exchange.as_slice());
            if !same_text(own.exchange_public.as_str(), exchange_text.as_str()) || !same(
                own.pq_key.as_slice(),
                keys.pq_key.as_slice(),
            ) {
                return Err("FROST manifest substituted this node's identity or exchange key".to_owned());
            }
        },
    }
    let digest = hash(body.as_slice());
    Ok(PendingPeers { session, digest, entries })
}

impl PendingPeers {
    /// Whether the members are numbered from one without a gap.
    pub open spec fn numbered(self) -> bool {
        forall|i: int| 0 <= i < self.entries@.len() ==> (#[trigger] self.entries@[i]).party == i + 1
    }

    /// Whether a number is that of a member.
    pub open spec fn member(self, party: nat) -> bool {
        1 <= party <= self.entries@.len()
    }
}

/// Whether an entry names the party of an earlier one.
pub open spec fn named_before(entries: Seq<Json>, at: int) -> bool {
    exists|j: int| 0 <= j < at && party_in((#[trigger] entries[j]).field("party"@))
        == party_in(entries[at].field("party"@))
}

/// Why a confirmation is not one of a peer, where `signed` checks a post-quantum
/// signature.
pub open spec fn confirmation_refusal<F: Fn(&Vec<u8>, &Vec<u8>, &Vec<u8>) -> bool>(
    peers: PendingPeers,
    entries: Seq<Json>,
    at: int,
    signed: F,
) -> Option<Seq<char>> {
    let entry = entries[at];
    let party = party_in(entry.field("party"@));
    let text = text_in(entry.field("confirmation"@));
    let pq_text = text_in(entry.field("pq_confirmation"@));
    let peer = peers.entries@[party->0 - 1];
    let key = hex_bytes(peer.identity_public@);
    let body = confirmation_text(peers.session@, peers.digest@);
    either(unless(party is Some, "FROST confirmation party is invalid"@),
    either(unless(!named_before(entries, at), "FROST confirmation party is duplicated"@),
    either(unless(text is Some, "FROST peer confirmation is absent"@),
    either(unless(is_hex_of(text->0, 64), "FROST peer confirmation is malformed"@),
    either(unless(peers.member(party->0), "FROST confirmation names an unknown peer"@),
    either(unless(is_hex_of(peer.identity_public@, 32) && is_ed25519_key(key)
        && ed25519_signed(key, body, hex_bytes(text->0)),
        "FROST manifest lacks an authentic peer confirmation"@),
    either(unless(pq_text is Some, "PQ peer confirmation is absent"@),
    either(unless(base64_bytes(pq_text->0) is Some, "PQ peer confirmation is malformed"@),
    unless(signature_holds(signed, peer.pq_key@, body, base64_bytes(pq_text->0)->0),
        "PQ peer confirmation is invalid"@)))))))))
}

/// Why the first `count` confirmations are refused.
pub open spec fn confirmed_refusal<F: Fn(&Vec<u8>, &Vec<u8>, &Vec<u8>) -> bool>(
    peers: PendingPeers,
    entries: Seq<Json>,
    signed: F,
    count: nat,
) -> Option<Seq<char>>
    decreases count,
{
    if count == 0 || count > entries.len() {
        None
    } else {
        either(
            confirmed_refusal(peers, entries, signed, (count - 1) as nat),
            confirmation_refusal(peers, entries, count - 1, signed),
        )
    }
}

/// The first refusal among the confirmations is that of all of them.
proof fn confirmed_refused<F: Fn(&Vec<u8>, &Vec<u8>, &Vec<u8>) -> bool>(
    peers: PendingPeers,
    entries: Seq<Json>,
    signed: F,
    at: nat,
    count: nat,
)
    requires
        at <= count <= entries.len(),
        confirmed_refusal(peers, entries, signed, at) is Some,
    ensures
        confirmed_refusal(peers, entries, signed, count) == confirmed_refusal(peers, entries, signed, at),
    decreases count,
{
    if at < count {
        confirmed_refused(peers, entries, signed, at, (count - 1) as nat);
    }
}

/// Why a request does not carry every peer's confirmation.
pub open spec fn confirmations_refusal<F: Fn(&Vec<u8>, &Vec<u8>, &Vec<u8>) -> bool>(
    peers: PendingPeers,
    params: Json,
    signed: F,
) -> Option<Seq<char>> {
    match array_in(params.field("confirmations"@)) {
        None => Some("FROST peer confirmations must be an array"@),
        Some(entries) => either(
            unless(entries.len() == peers.entries@.len(), "FROST peer confirmation set is incomplete"@),
            confirmed_refusal(peers, entries, signed, entries.len()),
        ),
    }
}

/// Checks that every peer confirmed the manifest, each once. `signed` checks a
/// post-quantum signature by a key over a text.
#[verifier::loop_isolation(false)]
pub fn verify_peer_confirmations<F: Fn(&Vec<u8>, &Vec<u8>, &Vec<u8>) -> bool>(
    peers: &PendingPeers,
    params: &Value,
    signed: &F,
) -> (r: Result<(), String>)
    requires
        checks_signatures(*signed),
    ensures
        match r {
            Ok(_) => confirmations_refusal(*peers, params@, *signed) is None,
            Err(e) => confirmations_refusal(*peers, params@, *signed) == Some(e@),
        },
{
    let entries = match as_array(params.get("confirmations")) {
        None => {
            return Err("FROST peer confirmations must be an array".to_owned());
        },
        Some(value) => value,
    };
    if entries.len() != peers.entries.len() {
        return Err("FROST peer confirmation set is incomplete".to_owned());
    }
    let ghost all = array_in(params@.field("confirmations"@))->0;
    let body = confirmation_body(peers);
    let mut seen: Vec<u16> = Vec::new();
    let mut i: usize = 0;
    while i < entries.len()
        invariant
            i <= entries@.len(),
            seen@.len() == i,
            confirmed_refusal(*peers, all, *signed, i as nat) is None,
            forall|j: int|
                0 <= j < i ==> party_in(all[j].field("party"@)) == Some(#[trigger] seen@[j] as nat),
        decreases entries@.len() - i,
    {
        let entry = &entries[i];
        let ghost told_at = confirmation_refusal(*peers, all, i as int, *signed);
        proof {
            assert(all[i as int] == entry@);
            if told_at is Some {
                assert(confirmed_refusal(*peers, all, *signed, (i + 1) as nat) == told_at);
                confirmed_refused(*peers, all, *signed, (i + 1) as nat, all.len());
            }
        }
        let party = match as_party(entry.get("party")) {
            None => {
                return Err("FROST confirmation party is invalid".to_owned());
            },
            Some(value) => value,
        };
        let mut j: usize = 0;
        while j < i
            invariant
                j <= i,
                forall|k: int| 0 <= k < j ==> #[trigger] seen@[k] != party,
            decreases i - j,
        {
            if seen[j] == party {
                proof {
                    assert(party_in(all[j as int].field("party"@)) == Some(seen@[j as int] as nat));
                    assert(named_before(all, i as int));
                }
                return Err("FROST confirmation party is duplicated".to_owned());
            }
            j = j + 1;
        }
        proof {
            if named_before(all, i as int) {
                let k = choose|k: int|
                    0 <= k < i && party_in((#[trigger] all[k]).field("party"@)) == party_in(
                        all[i as int].field("party"@),
                    );
                assert(party_in(all[k].field("party"@)) == Some(seen@[k] as nat));
            }
        }
        let text = match as_text(entry.get("confirmation")) {
            None => {
                return Err("FROST peer confirmation is absent".to_owned());
            },
            Some(value) => value,
        };
        let raw = match hex_of64(text) {
            None => {
                return Err("FROST peer confirmation is malformed".to_owned());
            },
            Some(value) => value,
        };
        if party < 1 || party as usize > peers.entries.len() {
            return Err("FROST confirmation names an unknown peer".to_owned());
        }
        let key = match hex_of32(peers.entries[party as usize - 1].identity_public.as_str()) {
            None => {
                return Err("FROST manifest lacks an authentic peer confirmation".to_owned());
            },
            Some(key) => key,
        };
        if !decodes_to_ed25519_key(&key) || !verify_ed25519(&key, body.as_slice(), &raw) {
            return Err("FROST manifest lacks an authentic peer confirmation".to_owned());
        }
        let pq_text = match as_text(entry.get("pq_confirmation")) {
            None => {
                return Err("PQ peer confirmation is absent".to_owned());
            },
            Some(value) => value,
        };
        let pq_raw = match base64_decode(pq_text) {
            None => {
                return Err("PQ peer confirmation is malformed".to_owned());
            },
            Some(value) => value,
        };
        if !check_signature(signed, &peers.entries[party as usize - 1].pq_key, &body, &pq_raw) {
            return Err("PQ peer confirmation is invalid".to_owned());
        }
        seen.push(party);
        i = i + 1;
    }
    Ok(())
}

/// What a peer broadcasts in the first round of key generation.
#[derive(Debug)]
pub struct Broadcast {
    pub party: u16,
    pub raw: Vec<u8>,
}

/// Why an entry is no broadcast of a peer.
pub open spec fn broadcast_refusal<D: Fn(&Vec<u8>) -> bool>(
    peers: PendingPeers,
    entries: Seq<Json>,
    at: int,
    decodes: D,
) -> Option<Seq<char>> {
    let party = party_in(entries[at].field("party"@));
    let text = text_in(entries[at].field("package"@));
    let raw = base64_bytes(text->0);
    either(unless(party is Some, "FROST DKG broadcast party is invalid"@),
    either(unless(peers.member(party->0), "FROST DKG broadcast names an unknown party"@),
    either(unless(text is Some, "FROST DKG broadcast package is absent"@),
    either(unless(raw is Some, "FROST DKG broadcast is not base64"@),
    either(unless(0 < (raw->0).len() <= MAX_WIRE_BYTES, "FROST DKG broadcast exceeds its bound"@),
    either(unless(yes(decodes, raw->0), "FROST DKG broadcast cannot be decoded"@),
    unless(!named_before(entries, at), "FROST DKG broadcast party is duplicated"@)))))))
}

/// Why the first `count` entries are no broadcasts of distinct peers.
pub open spec fn broadcast_list_refusal<D: Fn(&Vec<u8>) -> bool>(
    peers: PendingPeers,
    entries: Seq<Json>,
    decodes: D,
    count: nat,
) -> Option<Seq<char>>
    decreases count,
{
    if count == 0 || count > entries.len() {
        None
    } else {
        either(
            broadcast_list_refusal(peers, entries, decodes, (count - 1) as nat),
            broadcast_refusal(peers, entries, count - 1, decodes),
        )
    }
}

/// The first refusal among the broadcasts is that of all of them.
proof fn broadcasts_refused<D: Fn(&Vec<u8>) -> bool>(
    peers: PendingPeers,
    entries: Seq<Json>,
    decodes: D,
    at: nat,
    count: nat,
)
    requires
        at <= count <= entries.len(),
        broadcast_list_refusal(peers, entries, decodes, at) is Some,
    ensures
        broadcast_list_refusal(peers, entries, decodes, count) == broadcast_list_refusal(peers, entries, decodes, at),
    decreases count,
{
    if at < count {
        broadcasts_refused(peers, entries, decodes, at, (count - 1) as nat);
    }
}

/// Why a request does not carry every peer's broadcast.
pub open spec fn broadcasts_refusal<D: Fn(&Vec<u8>) -> bool>(peers: PendingPeers, params: Json, decodes: D) -> Option<
    Seq<char>,
> {
    match array_in(params.field("broadcasts"@)) {
        None => Some("FROST DKG broadcasts must be an array"@),
        Some(entries) => either(
            unless(entries.len() == peers.entries@.len(), "FROST DKG broadcast set is incomplete"@),
            broadcast_list_refusal(peers, entries, decodes, entries.len()),
        ),
    }
}

/// Whether a broadcast is the one of an entry.
pub open spec fn broadcast_said(entry: Json, value: Broadcast) -> bool {
    &&& party_in(entry.field("party"@)) == Some(value.party as nat)
    &&& text_in(entry.field("package"@)) is Some
    &&& base64_bytes(text_in(entry.field("package"@))->0) == Some(value.raw@)
}

/// Whether broadcasts are those of entries, in their order.
pub open spec fn broadcasts_said(entries: Seq<Json>, values: Seq<Broadcast>) -> bool {
    &&& values.len() == entries.len()
    &&& forall|i: int| #![trigger values[i]] 0 <= i < values.len() ==> broadcast_said(entries[i], values[i])
}

/// Reads the broadcasts of all peers, one of each.
#[verifier::loop_isolation(false)]
pub fn frost_broadcasts<D: Fn(&Vec<u8>) -> bool>(params: &Value, peers: &PendingPeers, decodes: &D) -> (r: Result<
    Vec<Broadcast>,
    String,
>)
    requires
        decides(*decodes),
    ensures
        match r {
            Ok(values) => {
                &&& broadcasts_refusal(*peers, params@, *decodes) is None
                &&& broadcasts_said(array_in(params@.field("broadcasts"@))->0, values@)
            },
            Err(e) => broadcasts_refusal(*peers, params@, *decodes) == Some(e@),
        },
{
    let entries = match as_array(params.get("broadcasts")) {
        None => {
            return Err("FROST DKG broadcasts must be an array".to_owned());
        },
        Some(value) => value,
    };
    if entries.len() != peers.entries.len() {
        return Err("FROST DKG broadcast set is incomplete".to_owned());
    }
    let ghost all = array_in(params@.field("broadcasts"@))->0;
    let mut values: Vec<Broadcast> = Vec::new();
    let mut i: usize = 0;
    while i < entries.len()
        invariant
            i <= entries@.len(),
            values@.len() == i,
            broadcast_list_refusal(*peers, all, *decodes, i as nat) is None,
            forall|j: int| #![trigger values@[j]] 0 <= j < i ==> broadcast_said(all[j], values@[j]),
        decreases entries@.len() - i,
    {
        let entry = &entries[i];
        let ghost told_at = broadcast_refusal(*peers, all, i as int, *decodes);
        proof {
            assert(all[i as int] == entry@);
            if told_at is Some {
                assert(broadcast_list_refusal(*peers, all, *decodes, (i + 1) as nat) == told_at);
                broadcasts_refused(*peers, all, *decodes, (i + 1) as nat, all.len());
            }
        }
        let party = match as_party(entry.get("party")) {
            None => {
                return Err("FROST DKG broadcast party is invalid".to_owned());
            },
            Some(value) => value,
        };
        if party < 1 || party as usize > peers.entries.len() {
            return Err("FROST DKG broadcast names an unknown party".to_owned());
        }
        let text = match as_text(entry.get("package")) {
            None => {
                return Err("FROST DKG broadcast package is absent".to_owned());
            },
            Some(value) => value,
        };
        let raw = match base64_decode(text) {
            None => {
                return Err("FROST DKG broadcast is not base64".to_owned());
            },
            Some(value) => value,
        };
        if raw.len() == 0 || raw.len() > MAX_WIRE_BYTES {
            return Err("FROST DKG broadcast exceeds its bound".to_owned());
        }
        if !ask(decodes, &raw) {
            return Err("FROST DKG broadcast cannot be decoded".to_owned());
        }
        let mut j: usize = 0;
        while j < i
            invariant
                j <= i,
                forall|k: int| 0 <= k < j ==> (#[trigger] values@[k]).party != party,
            decreases i - j,
        {
            if values[j].party == party {
                proof {
                    assert(broadcast_said(all[j as int], values@[j as int]));
                    assert(party_in(all[j as int].field("party"@)) == party_in(all[i as int].field("party"@)));
                    assert(named_before(all, i as int));
                }
                return Err("FROST DKG broadcast party is duplicated".to_owned());
            }
            j = j + 1;
        }
        proof {
            if named_before(all, i as int) {
                let k = choose|k: int|
                    0 <= k < i && party_in((#[trigger] all[k]).field("party"@)) == party_in(
                        all[i as int].field("party"@),
                    );
                assert(broadcast_said(all[k], values@[k]));
            }
        }
        values.push(Broadcast { party, raw });
        i = i + 1;
    }
    Ok(values)
}

} // verus!
