//! Key generation from a request to what is kept: the committee, the second round and
//! the final key.

use vstd::prelude::*;
use crate::bytes::{copied, same};
use crate::digest::sha256;
use crate::json::{array_in, as_array, as_text, text_in, Json, Value};
use crate::oracle::{ask, checks_signatures, decides, prints, yes};
use crate::proof_dkg::{
    broadcasts_digest_of, finalize_digest_of, sealed_refusal, FinalizePlan, IncomingFacts, QuorumPolicy, Round2Plan,
};
use crate::proof_frost::{as_party, party_in};
use crate::proof_mandate::refused;
use crate::proof_peers::{
    broadcasts_said, by_party, entries_of, exchange_aad, exchange_text, manifest, manifest_refusal, manifest_text,
    Broadcast, FrostPeerEntry, OwnKeys, PendingPeers, ProposedPeer,
};
use crate::proof_settle::decodes_to;
use crate::proof_state::{can_write, outcome_of, written, ProofParty};
use crate::text::{base64_bytes, base64_decode};

verus! {

/// How the second round of key generation is made: `encode` writes a broadcast in its
/// one encoding, `make` gives the secret to keep and the packages for the peers,
/// `package` takes one of these out, and `seal` encrypts it.
#[derive(Debug)]
pub struct SecondTools<Fe, Fm, Fp, Fs> {
    pub encode: Fe,
    pub make: Fm,
    pub package: Fp,
    pub seal: Fs,
}

/// A package that is sealed to a peer, and what it is bound to.
#[derive(Debug)]
pub struct DirectedPackage {
    pub sender: u16,
    pub recipient: u16,
    pub package: Vec<u8>,
    pub aad: Vec<u8>,
    pub manifest_digest: [u8; 32],
    pub peer: FrostPeerEntry,
}

/// How the key is made final: `decode` reads an envelope, `open` opens it under the
/// sender's keys, `holds` tells whether the clear text is a package, `make` verifies
/// them all and gives the key, and `valid` checks the committee.
#[derive(Debug)]
pub struct FinalTools<Fd, Fo, Fh, Fm, Fc> {
    pub decode: Fd,
    pub open: Fo,
    pub holds: Fh,
    pub make: Fm,
    pub valid: Fc,
}

/// An envelope that a peer directed to this node, what it has to be bound to, and the
/// keys that have to have signed it.
#[derive(Debug)]
pub struct IncomingEnvelope<E> {
    pub envelope: E,
    pub sender: u16,
    pub recipient: u16,
    pub aad: Vec<u8>,
    pub manifest_digest: [u8; 32],
    pub peer: FrostPeerEntry,
}

/// What broadcasts say: who, and what.
pub open spec fn broadcast_views(list: Seq<Broadcast>) -> Seq<(u16, Seq<u8>)> {
    list.map_values(|b: Broadcast| (b.party, b.raw@))
}

/// The first `count` broadcasts, but for those of one party.
pub open spec fn others_of(broadcasts: Seq<Broadcast>, own: int, count: nat) -> Seq<(u16, Seq<u8>)>
    decreases count,
{
    if count == 0 || count > broadcasts.len() {
        Seq::empty()
    } else {
        let prior = others_of(broadcasts, own, (count - 1) as nat);
        let last = broadcasts[count - 1];
        if last.party == own {
            prior
        } else {
            prior.push((last.party, last.raw@))
        }
    }
}

fn collect_others(broadcasts: &Vec<Broadcast>, own: u16) -> (others: Vec<Broadcast>)
    ensures
        broadcast_views(others@) == others_of(broadcasts@, own as int, broadcasts@.len()),
{
    let mut others: Vec<Broadcast> = Vec::new();
    let mut i: usize = 0;
    assert(broadcast_views(others@) =~= Seq::empty());
    while i < broadcasts.len()
        invariant
            i <= broadcasts@.len(),
            broadcast_views(others@) == others_of(broadcasts@, own as int, i as nat),
        decreases broadcasts@.len() - i,
    {
        if broadcasts[i].party != own {
            let ghost before = others@;
            others.push(Broadcast { party: broadcasts[i].party, raw: copied(broadcasts[i].raw.as_slice()) });
            assert(broadcast_views(others@) =~= broadcast_views(before).push(
                (broadcasts@[i as int].party, broadcasts@[i as int].raw@),
            ));
        }
        i = i + 1;
    }
    others
}

/// Whether a party has a broadcast in a list.
pub open spec fn has_broadcast(broadcasts: Seq<Broadcast>, party: int) -> bool {
    exists|i: int| 0 <= i < broadcasts.len() && (#[trigger] broadcasts[i]).party == party
}

fn find_broadcast(broadcasts: &Vec<Broadcast>, party: u16) -> (at: Option<usize>)
    ensures
        match at {
            Some(i) => i < broadcasts@.len() && broadcasts@[i as int].party == party && has_broadcast(
                broadcasts@,
                party as int,
            ),
            None => !has_broadcast(broadcasts@, party as int),
        },
{
    let mut i: usize = 0;
    while i < broadcasts.len()
        invariant
            i <= broadcasts@.len(),
            forall|j: int| 0 <= j < i ==> (#[trigger] broadcasts@[j]).party != party,
        decreases broadcasts@.len() - i,
    {
        if broadcasts[i].party == party {
            return Some(i);
        }
        i = i + 1;
    }
    None
}

/// Whether this is what is sealed to the peer at a place: a package for it, bound to
/// the session, the two ends and the manifest.
pub open spec fn package_directed(
    peers: PendingPeers,
    own: int,
    at: int,
    bytes: Seq<u8>,
    directed: DirectedPackage,
) -> bool {
    &&& directed.sender == own + 1
    &&& directed.recipient == at + 1
    &&& directed.package@ == bytes
    &&& directed.aad@ == exchange_text(peers.session@, (own + 1) as nat, (at + 1) as nat)
    &&& directed.manifest_digest == peers.digest
    &&& directed.peer.alike(peers.entries@[at])
}

/// What sealing the package of the peer at a place may come to.
pub open spec fn sealed_as<
    P,
    Fp: Fn(&P, u16) -> Result<Vec<u8>, String>,
    Fs: Fn(&DirectedPackage) -> Result<Vec<u8>, String>,
>(
    package: Fp,
    seal: Fs,
    peers: PendingPeers,
    own: int,
    made: P,
    at: int,
    outcome: Result<Vec<u8>, String>,
) -> bool {
    exists|taken: Result<Vec<u8>, String>| #[trigger]
        call_ensures(package, (&made, (at + 1) as u16), taken) && match taken {
            Err(e) => outcome == Err::<Vec<u8>, String>(e),
            Ok(bytes) => exists|directed: DirectedPackage|
                package_directed(peers, own, at, bytes@, directed) && #[trigger] call_ensures(
                    seal,
                    (&directed,),
                    outcome,
                ),
        }
}

/// Whether the packages of all peers but this node were sealed, each as it may be.
pub open spec fn all_sealed<
    P,
    Fp: Fn(&P, u16) -> Result<Vec<u8>, String>,
    Fs: Fn(&DirectedPackage) -> Result<Vec<u8>, String>,
>(
    package: Fp,
    seal: Fs,
    peers: PendingPeers,
    own: int,
    made: P,
    sealed: Seq<Result<Vec<u8>, String>>,
) -> bool {
    &&& sealed.len() == peers.entries@.len()
    &&& forall|i: int|
        #![trigger sealed[i]]
        0 <= i < sealed.len() && i != own ==> sealed_as(package, seal, peers, own, made, i, sealed[i])
}

fn seal_all<
    P,
    Fp: Fn(&P, u16) -> Result<Vec<u8>, String>,
    Fs: Fn(&DirectedPackage) -> Result<Vec<u8>, String>,
>(package: &Fp, seal: &Fs, peers: &PendingPeers, own: u16, made: &P) -> (sealed: Vec<Result<Vec<u8>, String>>)
    requires
        peers.entries@.len() <= u16::MAX,
        own < u16::MAX,
        forall|p: &P, n: u16| call_requires(*package, (p, n)),
        forall|d: &DirectedPackage| call_requires(*seal, (d,)),
    ensures
        all_sealed(*package, *seal, *peers, own as int, *made, sealed@),
{
    let mut sealed: Vec<Result<Vec<u8>, String>> = Vec::new();
    let mut i: usize = 0;
    while i < peers.entries.len()
        invariant
            i <= peers.entries@.len() <= u16::MAX,
            own < u16::MAX,
            sealed@.len() == i,
            forall|p: &P, n: u16| call_requires(*package, (p, n)),
            forall|d: &DirectedPackage| call_requires(*seal, (d,)),
            forall|j: int|
                #![trigger sealed@[j]]
                0 <= j < i && j != own ==> sealed_as(*package, *seal, *peers, own as int, *made, j, sealed@[j]),
        decreases peers.entries@.len() - i,
    {
        if i == own as usize {
            sealed.push(Ok(Vec::new()));
        } else {
            let recipient: u16 = (i + 1) as u16;
            let taken = package(made, recipient);
            assert(call_ensures(*package, (made, (i + 1) as u16), taken));
            let ghost given = taken;
            let outcome = match taken {
                Err(e) => Err(e),
                Ok(bytes) => {
                    let directed = DirectedPackage {
                        sender: own + 1,
                        recipient,
                        package: bytes,
                        aad: exchange_aad(&peers.session, own + 1, recipient),
                        manifest_digest: peers.digest,
                        peer: peers.entries[i].copy(),
                    };
                    let outcome = seal(&directed);
                    proof {
                        assert(package_directed(*peers, own as int, i as int, (given->Ok_0)@, directed));
                        assert(call_ensures(*seal, (&directed,), outcome));
                    }
                    outcome
                },
            };
            assert(sealed_as(*package, *seal, *peers, own as int, *made, i as int, outcome));
            sealed.push(outcome);
        }
        i = i + 1;
    }
    sealed
}

/// Whether an entry is a package that another party directed to this one.
pub open spec fn is_directed(entry: Json, own: nat) -> bool {
    let sender = party_in(entry.field("sender"@));
    let text = text_in(entry.field("envelope"@));
    &&& sender is Some && sender->0 != own
    &&& party_in(entry.field("recipient"@)) == Some(own)
    &&& text is Some && base64_bytes(text->0) is Some
}

/// Whether this is what an envelope of a member has to be opened with: what it is bound
/// to, and the keys of its sender in the manifest.
pub open spec fn envelope_directed<E>(
    peers: PendingPeers,
    own: nat,
    sender: nat,
    envelope: E,
    incoming: IncomingEnvelope<E>,
) -> bool {
    &&& incoming.envelope == envelope
    &&& incoming.sender == sender
    &&& incoming.recipient == own
    &&& incoming.aad@ == exchange_text(peers.session@, sender, own)
    &&& incoming.manifest_digest == peers.digest
    &&& incoming.peer.alike(peers.entries@[sender - 1])
}

/// What opening the envelope of a member may come to: it is opened only under both of
/// its sender's keys, and holds a package or not.
pub open spec fn envelope_opened<
    E,
    Fo: Fn(&IncomingEnvelope<E>) -> Result<Option<Vec<u8>>, String>,
    Fh: Fn(&Vec<u8>) -> bool,
>(
    open: Fo,
    holds: Fh,
    peers: PendingPeers,
    own: nat,
    sender: nat,
    envelope: E,
    facts: IncomingFacts,
    clear: Seq<u8>,
) -> bool {
    exists|incoming: IncomingEnvelope<E>, opened: Result<Option<Vec<u8>>, String>|
        envelope_directed(peers, own, sender, envelope, incoming) && #[trigger] call_ensures(open, (&incoming,), opened)
            && match opened {
            Err(e) => refused(facts.opened) == Some(e@),
            Ok(None) => facts.opened == Ok::<bool, String>(false),
            Ok(Some(bytes)) => {
                &&& facts.opened == Ok::<bool, String>(true)
                &&& facts.package == yes(holds, bytes@)
                &&& clear == bytes@
            },
        }
}

/// Whether this may be found of an entry, and its clear text be received.
pub open spec fn package_looked<
    E,
    Fd: Fn(&Vec<u8>) -> Result<E, String>,
    Fo: Fn(&IncomingEnvelope<E>) -> Result<Option<Vec<u8>>, String>,
    Fh: Fn(&Vec<u8>) -> bool,
>(
    decode: Fd,
    open: Fo,
    holds: Fh,
    peers: PendingPeers,
    own: nat,
    entry: Json,
    facts: IncomingFacts,
    received: Broadcast,
) -> bool {
    let sender = party_in(entry.field("sender"@))->0;
    is_directed(entry, own) ==> {
        &&& received.party == sender
        &&& exists|decoded: Result<E, String>| #[trigger]
            decodes_to(decode, base64_bytes(text_in(entry.field("envelope"@))->0)->0, decoded) && match decoded {
                Err(e) => refused(facts.decoded) == Some(e@),
                Ok(envelope) => refused(facts.decoded) is None && (peers.member(sender) ==> envelope_opened(
                    open,
                    holds,
                    peers,
                    own,
                    sender,
                    envelope,
                    facts,
                    received.raw@,
                )),
            }
    }
}

fn look_at<
    E,
    Fd: Fn(&Vec<u8>) -> Result<E, String>,
    Fo: Fn(&IncomingEnvelope<E>) -> Result<Option<Vec<u8>>, String>,
    Fh: Fn(&Vec<u8>) -> bool,
>(decode: &Fd, open: &Fo, holds: &Fh, peers: &PendingPeers, own: u16, entry: &Value) -> (r: (IncomingFacts, Broadcast))
    requires
        forall|w: &Vec<u8>| call_requires(*decode, (w,)),
        forall|i: &IncomingEnvelope<E>| call_requires(*open, (i,)),
        decides(*holds),
    ensures
        package_looked(*decode, *open, *holds, *peers, own as nat, entry@, r.0, r.1),
{
    let nothing = IncomingFacts { decoded: Ok(()), opened: Ok(false), package: false };
    let sender: u16 = match as_party(entry.get("sender")) {
        None => {
            return (nothing, Broadcast { party: 0, raw: Vec::new() });
        },
        Some(sender) => sender,
    };
    let raw = match as_text(entry.get("envelope")) {
        None => {
            return (nothing, Broadcast { party: sender, raw: Vec::new() });
        },
        Some(text) => match base64_decode(text) {
            None => {
                return (nothing, Broadcast { party: sender, raw: Vec::new() });
            },
            Some(raw) => raw,
        },
    };
    let decoded = decode(&raw);
    assert(call_ensures(*decode, (&raw,), decoded));
    assert(base64_bytes(text_in(entry@.field("envelope"@))->0) == Some(raw@));
    let ghost wire = base64_bytes(text_in(entry@.field("envelope"@))->0)->0;
    assert(decodes_to(*decode, wire, decoded));
    let envelope = match decoded {
        Err(e) => {
            let facts = IncomingFacts { decoded: Err(e), opened: Ok(false), package: false };
            return (facts, Broadcast { party: sender, raw: Vec::new() });
        },
        Ok(envelope) => envelope,
    };
    if sender < 1 || sender as usize > peers.entries.len() {
        return (nothing, Broadcast { party: sender, raw: Vec::new() });
    }
    let ghost read = envelope;
    let incoming = IncomingEnvelope {
        envelope,
        sender,
        recipient: own,
        aad: exchange_aad(&peers.session, sender, own),
        manifest_digest: peers.digest,
        peer: peers.entries[sender as usize - 1].copy(),
    };
    let opened = open(&incoming);
    assert(envelope_directed(*peers, own as nat, sender as nat, read, incoming));
    assert(call_ensures(*open, (&incoming,), opened));
    let ghost given = opened;
    let (facts, clear) = match opened {
        Err(e) => (IncomingFacts { decoded: Ok(()), opened: Err(e), package: false }, Vec::new()),
        Ok(None) => (nothing, Vec::new()),
        Ok(Some(clear)) => {
            let package = ask(holds, &clear);
            (IncomingFacts { decoded: Ok(()), opened: Ok(true), package }, clear)
        },
    };
    assert(envelope_opened(*open, *holds, *peers, own as nat, sender as nat, read, facts, clear@));
    (facts, Broadcast { party: sender, raw: clear })
}

impl<N, B, S> ProofParty<N, B, S> {
    /// Checks a proposed committee and takes it, once, and gives what `confirm` makes of
    /// it. `signed` checks a post-quantum signature by a key over a text.
    pub fn configure_peers<
        R,
        G: Fn(&Vec<u8>, &Vec<u8>, &Vec<u8>) -> bool,
        F: Fn(&PendingPeers) -> Result<R, String>,
    >(&mut self, session: [u8; 32], peers: &Vec<ProposedPeer>, keys: &OwnKeys, signed: &G, confirm: &F) -> (r: Result<
        R,
        String,
    >)
        requires
            old(self).consistent(),
            checks_signatures(*signed),
            forall|p: &PendingPeers| call_requires(*confirm, (p,)),
        ensures
            final(self).consistent(),
            old(self).keeps_used(*final(self)),
            match manifest_refusal(
                old(self).config,
                old(self).identity_public@,
                *keys,
                session@,
                peers@,
                *signed,
            ) {
                Some(e) => {
                    &&& r matches Err(f) && f@ == e
                    &&& *final(self) == *old(self)
                },
                None => exists|pending: PendingPeers|
                    pending.session == session && pending.digest@ == sha256(
                        manifest_text(session@, by_party(peers@)),
                    ) && entries_of(pending.entries@, by_party(peers@)) && #[trigger] old(self).peers_taken(
                        pending,
                        *confirm,
                        *final(self),
                        r,
                    ),
            },
    {
        let pending = match manifest(&self.config, &self.identity_public, keys, session, peers, signed) {
            Err(e) => {
                return Err(e);
            },
            Ok(pending) => pending,
        };
        self.take_peers(pending, confirm)
    }

    /// What sealing and keeping the second round does.
    pub open spec fn second_sealed<
        P,
        Fp: Fn(&P, u16) -> Result<Vec<u8>, String>,
        Fs: Fn(&DirectedPackage) -> Result<Vec<u8>, String>,
        W: Fn(&ProofParty<N, B, S>, u64) -> Result<(), String>,
    >(
        self,
        digest: [u8; 32],
        own_package: Seq<u8>,
        kept: Seq<u8>,
        made: P,
        package: Fp,
        seal: Fs,
        write: W,
        later: ProofParty<N, B, S>,
        r: Result<(), String>,
    ) -> bool {
        let peers = self.peers->0;
        let own = self.config.node as int;
        if peers.entries@.len() > u16::MAX {
            &&& r matches Err(e) && e@ == "FROST participant count is invalid"@
            &&& later == self
        } else {
            exists|sealed: Seq<Result<Vec<u8>, String>>| #[trigger]
                all_sealed(package, seal, peers, own, made, sealed) && match sealed_refusal(
                    sealed,
                    own,
                    sealed.len(),
                ) {
                    Some(e) => {
                        &&& r matches Err(f) && f@ == e
                        &&& later == self
                    },
                    None => exists|middle: ProofParty<N, B, S>| #[trigger]
                        self.dkg_round2_made(digest, own_package, kept, sealed, middle) && written(
                            write,
                            middle,
                            later,
                            outcome_of(r),
                        ),
                }
        }
    }

    /// What making the second round of the kept first-round secret and the broadcasts of
    /// the other peers does.
    pub open spec fn second_shared<
        P,
        Fe: Fn(&Broadcast) -> Result<Vec<u8>, String>,
        Fm: Fn(&Vec<u8>, &Vec<Broadcast>) -> Result<(Vec<u8>, P), String>,
        Fp: Fn(&P, u16) -> Result<Vec<u8>, String>,
        Fs: Fn(&DirectedPackage) -> Result<Vec<u8>, String>,
        W: Fn(&ProofParty<N, B, S>, u64) -> Result<(), String>,
    >(
        self,
        digest: [u8; 32],
        own_package: Seq<u8>,
        broadcasts: Seq<Broadcast>,
        by: SecondTools<Fe, Fm, Fp, Fs>,
        write: W,
        later: ProofParty<N, B, S>,
        r: Result<(), String>,
    ) -> bool {
        let round = self.dkg_round1->0;
        exists|others: Vec<Broadcast>, made: Result<(Vec<u8>, P), String>|
            broadcast_views(others@) == others_of(broadcasts, self.config.node + 1, broadcasts.len())
                && #[trigger] call_ensures(by.make, (&round.secret, &others), made) && match made {
                Err(e) => r == Err::<(), String>(e) && later == self,
                Ok((kept, packages)) => self.second_sealed(
                    digest,
                    own_package,
                    kept@,
                    packages,
                    by.package,
                    by.seal,
                    write,
                    later,
                    r,
                ),
            }
    }

    /// What making the second round does: this node's own broadcast has to be the one
    /// that it gave out.
    pub open spec fn second_made<
        P,
        Fe: Fn(&Broadcast) -> Result<Vec<u8>, String>,
        Fm: Fn(&Vec<u8>, &Vec<Broadcast>) -> Result<(Vec<u8>, P), String>,
        Fp: Fn(&P, u16) -> Result<Vec<u8>, String>,
        Fs: Fn(&DirectedPackage) -> Result<Vec<u8>, String>,
        W: Fn(&ProofParty<N, B, S>, u64) -> Result<(), String>,
    >(
        self,
        digest: [u8; 32],
        broadcasts: Seq<Broadcast>,
        by: SecondTools<Fe, Fm, Fp, Fs>,
        write: W,
        later: ProofParty<N, B, S>,
        r: Result<(), String>,
    ) -> bool {
        let own = self.config.node + 1;
        if !has_broadcast(broadcasts, own) {
            &&& r matches Err(e) && e@ == "FROST DKG broadcasts omit this node"@
            &&& later == self
        } else {
            exists|at: int, encoded: Result<Vec<u8>, String>|
                0 <= at < broadcasts.len() && broadcasts[at].party == own && #[trigger] call_ensures(
                    by.encode,
                    (&broadcasts[at],),
                    encoded,
                ) && match encoded {
                    Err(e) => r == Err::<(), String>(e) && later == self,
                    Ok(package) => if package@ != (self.dkg_round1->0).broadcast_package@ {
                        &&& r matches Err(e) && e@ == "FROST DKG broadcasts substituted this node's round one"@
                        &&& later == self
                    } else {
                        self.second_shared(digest, package@, broadcasts, by, write, later, r)
                    },
                }
        }
    }

    /// Makes the second round of key generation of the broadcasts that the request
    /// carries, seals a package to every other peer, and keeps it all durably before a
    /// package leaves the node. A transcript that was answered before is answered by what
    /// was kept. `print` writes out documents that hold a fraction.
    pub fn frost_dkg_round2<
        D: Fn(&Vec<u8>) -> bool,
        Pr: Fn(&Value) -> Vec<u8>,
        P,
        Fe: Fn(&Broadcast) -> Result<Vec<u8>, String>,
        Fm: Fn(&Vec<u8>, &Vec<Broadcast>) -> Result<(Vec<u8>, P), String>,
        Fp: Fn(&P, u16) -> Result<Vec<u8>, String>,
        Fs: Fn(&DirectedPackage) -> Result<Vec<u8>, String>,
        W: Fn(&ProofParty<N, B, S>, u64) -> Result<(), String>,
    >(&mut self, params: &Value, decodes: &D, print: &Pr, by: &SecondTools<Fe, Fm, Fp, Fs>, write: &W) -> (r: Result<
        (),
        String,
    >)
        requires
            old(self).consistent(),
            decides(*decodes),
            prints(*print),
            old(self).config.node < u16::MAX,
            forall|b: &Broadcast| call_requires(by.encode, (b,)),
            forall|k: &Vec<u8>, b: &Vec<Broadcast>| call_requires(by.make, (k, b)),
            forall|p: &P, n: u16| call_requires(by.package, (p, n)),
            forall|d: &DirectedPackage| call_requires(by.seal, (d,)),
            can_write(*write),
        ensures
            final(self).consistent(),
            old(self).keeps_used(*final(self)),
            match old(self).dkg_round2_refusal(params@, *decodes, *print) {
                Some(e) => {
                    &&& r matches Err(f) && f@ == e
                    &&& *final(self) == *old(self)
                },
                None => if old(self).dkg_round2 is Some {
                    r is Ok && *final(self) == *old(self)
                } else {
                    exists|digest: [u8; 32], broadcasts: Seq<Broadcast>|
                        digest@ == broadcasts_digest_of(*print, params@.field("broadcasts"@)->0) && broadcasts_said(
                            array_in(params@.field("broadcasts"@))->0,
                            broadcasts,
                        ) && #[trigger] old(self).second_made(digest, broadcasts, *by, *write, *final(self), r)
                },
            },
    {
        let (digest, broadcasts) = match self.dkg_round2_request(params, decodes, print) {
            Err(e) => {
                return Err(e);
            },
            Ok(Round2Plan::Answered) => {
                return Ok(());
            },
            Ok(Round2Plan::Answer { broadcasts_digest, broadcasts }) => (broadcasts_digest, broadcasts),
        };
        let own: u16 = self.config.node + 1;
        let at: usize = match find_broadcast(&broadcasts, own) {
            None => {
                let r = Err("FROST DKG broadcasts omit this node".to_owned());
                assert(old(self).second_made(digest, broadcasts@, *by, *write, *self, r));
                return r;
            },
            Some(at) => at,
        };
        let encoded = (by.encode)(&broadcasts[at]);
        assert(call_ensures(by.encode, (&broadcasts@[at as int],), encoded));
        let own_package = match encoded {
            Err(e) => {
                let r = Err(e);
                assert(old(self).second_made(digest, broadcasts@, *by, *write, *self, r));
                return r;
            },
            Ok(package) => package,
        };
        let ghost package_bytes = own_package@;
        let (round, peers) = match (&self.dkg_round1, &self.peers) {
            (Some(round), Some(peers)) => (round, peers),
            _ => {
                return Err("FROST DKG round-one secret is absent".to_owned());
            },
        };
        if !same(own_package.as_slice(), round.broadcast_package.as_slice()) {
            let r = Err("FROST DKG broadcasts substituted this node's round one".to_owned());
            assert(old(self).second_made(digest, broadcasts@, *by, *write, *self, r));
            return r;
        }
        let others = collect_others(&broadcasts, own);
        let made = (by.make)(&round.secret, &others);
        assert(call_ensures(by.make, (&(old(self).dkg_round1->0).secret, &others), made));
        let (kept, packages) = match made {
            Err(e) => {
                let r = Err(e);
                assert(old(self).second_shared(digest, package_bytes, broadcasts@, *by, *write, *self, r));
                assert(old(self).second_made(digest, broadcasts@, *by, *write, *self, r));
                return r;
            },
            Ok(made) => made,
        };
        let ghost kept_bytes = kept@;
        if peers.entries.len() > 0xffff {
            let r = Err("FROST participant count is invalid".to_owned());
            assert(old(self).second_sealed(
                digest,
                package_bytes,
                kept_bytes,
                packages,
                by.package,
                by.seal,
                *write,
                *self,
                r,
            ));
            assert(old(self).second_shared(digest, package_bytes, broadcasts@, *by, *write, *self, r));
            assert(old(self).second_made(digest, broadcasts@, *by, *write, *self, r));
            return r;
        }
        let sealed = seal_all(&by.package, &by.seal, peers, self.config.node, &packages);
        let r = self.dkg_round2_finish(digest, own_package, kept, &sealed, write);
        proof {
            assert(all_sealed(
                by.package,
                by.seal,
                old(self).peers->0,
                old(self).config.node as int,
                packages,
                sealed@,
            ));
            assert(old(self).second_sealed(
                digest,
                package_bytes,
                kept_bytes,
                packages,
                by.package,
                by.seal,
                *write,
                *self,
                r,
            ));
            assert(old(self).second_shared(digest, package_bytes, broadcasts@, *by, *write, *self, r));
            assert(old(self).second_made(digest, broadcasts@, *by, *write, *self, r));
        }
        r
    }

    /// Whether these may be found of the packages that a request carries, and their clear
    /// texts be received.
    pub open spec fn packages_looked<
        E,
        Fd: Fn(&Vec<u8>) -> Result<E, String>,
        Fo: Fn(&IncomingEnvelope<E>) -> Result<Option<Vec<u8>>, String>,
        Fh: Fn(&Vec<u8>) -> bool,
    >(
        self,
        params: Json,
        decode: Fd,
        open: Fo,
        holds: Fh,
        facts: Seq<IncomingFacts>,
        received: Seq<Broadcast>,
    ) -> bool {
        match (self.peers, array_in(params.field("incoming"@))) {
            (Some(peers), Some(entries)) => {
                &&& facts.len() == entries.len()
                &&& received.len() == entries.len()
                &&& forall|i: int|
                    #![trigger facts[i]]
                    #![trigger received[i]]
                    0 <= i < entries.len() ==> package_looked(
                        decode,
                        open,
                        holds,
                        peers,
                        (self.config.node + 1) as nat,
                        entries[i],
                        facts[i],
                        received[i],
                    )
            },
            _ => facts.len() == 0 && received.len() == 0,
        }
    }

    fn look_at_packages<
        E,
        Fd: Fn(&Vec<u8>) -> Result<E, String>,
        Fo: Fn(&IncomingEnvelope<E>) -> Result<Option<Vec<u8>>, String>,
        Fh: Fn(&Vec<u8>) -> bool,
    >(&self, params: &Value, decode: &Fd, open: &Fo, holds: &Fh) -> (r: (Vec<IncomingFacts>, Vec<Broadcast>))
        requires
            self.config.node < u16::MAX,
            forall|w: &Vec<u8>| call_requires(*decode, (w,)),
            forall|i: &IncomingEnvelope<E>| call_requires(*open, (i,)),
            decides(*holds),
        ensures
            self.packages_looked(params@, *decode, *open, *holds, r.0@, r.1@),
    {
        let mut facts: Vec<IncomingFacts> = Vec::new();
        let mut received: Vec<Broadcast> = Vec::new();
        let own: u16 = self.config.node + 1;
        if let (Some(peers), Some(entries)) = (&self.peers, as_array(params.get("incoming"))) {
            let ghost all = array_in(params@.field("incoming"@))->0;
            let mut i: usize = 0;
            while i < entries.len()
                invariant
                    i <= entries@.len(),
                    facts@.len() == i,
                    received@.len() == i,
                    all.len() == entries@.len(),
                    forall|j: int| 0 <= j < all.len() ==> all[j] == (#[trigger] entries@[j])@,
                    forall|w: &Vec<u8>| call_requires(*decode, (w,)),
                    forall|i: &IncomingEnvelope<E>| call_requires(*open, (i,)),
                    decides(*holds),
                    forall|j: int|
                        #![trigger facts@[j]]
                        #![trigger received@[j]]
                        0 <= j < i ==> package_looked(
                            *decode,
                            *open,
                            *holds,
                            *peers,
                            own as nat,
                            all[j],
                            facts@[j],
                            received@[j],
                        ),
                decreases entries@.len() - i,
            {
                let (found, clear) = look_at(decode, open, holds, peers, own, &entries[i]);
                assert(all[i as int] == entries@[i as int]@);
                facts.push(found);
                received.push(clear);
                i = i + 1;
            }
        }
        (facts, received)
    }

    /// What making the key of the kept second-round secret, the broadcasts of the other
    /// peers and the packages that were received does.
    pub open spec fn key_made<
        Pr: Fn(&Value) -> Vec<u8>,
        Fm: Fn(&Vec<u8>, &Vec<Broadcast>, &Vec<Broadcast>) -> Result<(Vec<u8>, Vec<u8>), String>,
        Fc: Fn(&QuorumPolicy) -> Result<(), String>,
        W: Fn(&ProofParty<N, B, S>, u64) -> Result<(), String>,
    >(
        self,
        params: Json,
        print: Pr,
        received: Seq<Broadcast>,
        make: Fm,
        valid: Fc,
        write: W,
        later: ProofParty<N, B, S>,
        r: Result<Vec<u8>, String>,
    ) -> bool {
        let round = self.dkg_round2->0;
        exists|
            broadcasts: Seq<Broadcast>,
            others: Vec<Broadcast>,
            packages: Vec<Broadcast>,
            made: Result<(Vec<u8>, Vec<u8>), String>,
        |
            #![trigger broadcasts_said(array_in(params.field("broadcasts"@))->0, broadcasts), call_ensures(
                make,
                (&round.secret, &others, &packages),
                made,
            )]
            broadcasts_said(array_in(params.field("broadcasts"@))->0, broadcasts) && broadcast_views(others@)
                == others_of(broadcasts, self.config.node + 1, broadcasts.len()) && packages@ == received
                && call_ensures(make, (&round.secret, &others, &packages), made) && match made {
                Err(e) => r == Err::<Vec<u8>, String>(e) && later == self,
                Ok((key, public)) => exists|digest: [u8; 32]|
                    digest@ == finalize_digest_of(print, self.config.node as nat, params) && #[trigger] self.key_taken(
                        digest,
                        key@,
                        public@,
                        valid,
                        write,
                        later,
                        r,
                    ),
            }
    }

    /// Makes the key final, and gives its public package. KEM encryption alone does not
    /// authenticate a sender: each envelope is opened under the keys that the manifest
    /// pins to its sender, and for the session, the ends and the manifest that it has to
    /// be bound to. A transcript that was accepted before gives what was kept. `print`
    /// writes out documents that hold a fraction.
    pub fn frost_dkg_finalize<
        D: Fn(&Vec<u8>) -> bool,
        Pr: Fn(&Value) -> Vec<u8>,
        E,
        Fd: Fn(&Vec<u8>) -> Result<E, String>,
        Fo: Fn(&IncomingEnvelope<E>) -> Result<Option<Vec<u8>>, String>,
        Fh: Fn(&Vec<u8>) -> bool,
        Fm: Fn(&Vec<u8>, &Vec<Broadcast>, &Vec<Broadcast>) -> Result<(Vec<u8>, Vec<u8>), String>,
        Fc: Fn(&QuorumPolicy) -> Result<(), String>,
        W: Fn(&ProofParty<N, B, S>, u64) -> Result<(), String>,
    >(&mut self, params: &Value, decodes: &D, print: &Pr, by: &FinalTools<Fd, Fo, Fh, Fm, Fc>, write: &W) -> (r: Result<
        Vec<u8>,
        String,
    >)
        requires
            old(self).consistent(),
            decides(*decodes),
            prints(*print),
            old(self).config.node < u16::MAX,
            forall|w: &Vec<u8>| call_requires(by.decode, (w,)),
            forall|i: &IncomingEnvelope<E>| call_requires(by.open, (i,)),
            decides(by.holds),
            forall|k: &Vec<u8>, b: &Vec<Broadcast>, p: &Vec<Broadcast>| call_requires(by.make, (k, b, p)),
            forall|q: &QuorumPolicy| call_requires(by.valid, (q,)),
            can_write(*write),
        ensures
            final(self).consistent(),
            old(self).keeps_used(*final(self)),
            exists|facts: Seq<IncomingFacts>, received: Seq<Broadcast>| #[trigger]
                old(self).packages_looked(params@, by.decode, by.open, by.holds, facts, received) && match old(
                    self,
                ).dkg_finalize_refusal(params@, *decodes, *print, facts) {
                    Some(e) => {
                        &&& r matches Err(f) && f@ == e
                        &&& *final(self) == *old(self)
                    },
                    None => match old(self).frost_key {
                        Some(key) => {
                            &&& r matches Ok(public) && public@ == key.public_package@
                            &&& *final(self) == *old(self)
                        },
                        None => old(self).key_made(
                            params@,
                            *print,
                            received,
                            by.make,
                            by.valid,
                            *write,
                            *final(self),
                            r,
                        ),
                    },
                },
    {
        let (facts, received) = self.look_at_packages(params, &by.decode, &by.open, &by.holds);
        assert(old(self).packages_looked(params@, by.decode, by.open, by.holds, facts@, received@));
        let (digest, broadcasts) = match self.dkg_finalize_request(params, decodes, print, &facts) {
            Err(e) => {
                return Err(e);
            },
            Ok(FinalizePlan::Accepted) => match &self.frost_key {
                None => {
                    return Err("FROST DKG is not complete".to_owned());
                },
                Some(key) => {
                    return Ok(copied(key.public_package.as_slice()));
                },
            },
            Ok(FinalizePlan::Accept { finalize_digest, broadcasts }) => (finalize_digest, broadcasts),
        };
        let others = collect_others(&broadcasts, self.config.node + 1);
        let made = match &self.dkg_round2 {
            None => {
                return Err("FROST DKG round-two secret is absent".to_owned());
            },
            Some(round) => (by.make)(&round.secret, &others, &received),
        };
        assert(broadcasts_said(array_in(params@.field("broadcasts"@))->0, broadcasts@));
        assert(call_ensures(by.make, (&(old(self).dkg_round2->0).secret, &others, &received), made));
        let (key, public) = match made {
            Err(e) => {
                let r = Err(e);
                assert(old(self).key_made(
                    params@,
                    *print,
                    received@,
                    by.make,
                    by.valid,
                    *write,
                    *self,
                    r,
                ));
                return r;
            },
            Ok(made) => made,
        };
        let r = self.dkg_finalize_finish(digest, &key, &public, &by.valid, write);
        proof {
            assert(old(self).key_taken(digest, key@, public@, by.valid, *write, *self, r));
            assert(old(self).key_made(
                params@,
                *print,
                received@,
                by.make,
                by.valid,
                *write,
                *self,
                r,
            ));
        }
        r
    }
}

} // verus!
