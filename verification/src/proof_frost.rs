//! Committing to a signing job and answering it once.

use vstd::prelude::*;
use crate::bytes::same32;
use crate::digest::{hash, sha256};
use crate::fields::{either, hex_in};
use crate::json::{array_in, as_array, as_text, as_unsigned, said, text_in, unsigned_in, Json, Value};
use crate::oracle::{ask, decides, yes};
use crate::proof_params::{job_id, job_id_refusal, one_wire, one_wire_refusal, wire_in};
use crate::proof_dkg::QuorumPolicy;
use crate::proof_state::{
    can_write, outcome_of, signing_job, signing_job_of, written, FrostKey, FrostNonces, ProofParty,
};
use crate::text::{base64_bytes, base64_decode};

verus! {

/// The most commitments in one signing package.
pub const MAX_COMMITMENTS: usize = 64;

/// The first-round commitment of a party.
#[derive(Debug)]
pub struct Commitment {
    pub party: u16,
    pub raw: Vec<u8>,
}

/// What a signing job signs: the message, and the commitments of its quorum.
#[derive(Debug)]
pub struct FrostPackage {
    pub message: Vec<u8>,
    pub commitments: Vec<Commitment>,
}

/// Whether a package is the one that a request carries.
pub open spec fn package_said(params: Json, package: FrostPackage) -> bool {
    &&& package.message@ == wire_in(params.field("message"@))
    &&& commitments_said(array_in(params.field("commitments"@))->0, package.commitments@)
}

/// The party that an entry names.
pub open spec fn party_in(value: Option<Json>) -> Option<nat> {
    match unsigned_in(value) {
        Some(n) => if n <= u16::MAX {
            Some(n)
        } else {
            None
        },
        None => None,
    }
}

/// The party that an entry names.
pub fn as_party(value: Option<&Value>) -> (party: Option<u16>)
    ensures
        match party {
            Some(p) => party_in(said(value)) == Some(p as nat),
            None => party_in(said(value)) is None,
        },
{
    match as_unsigned(value) {
        Some(n) => if n <= 0xffff {
            Some(n as u16)
        } else {
            None
        },
        None => None,
    }
}

/// Why an entry is no commitment.
pub open spec fn commitment_refusal<D: Fn(&Vec<u8>) -> bool>(entry: Json, decodes: D) -> Option<Seq<char>> {
    match party_in(entry.field("party"@)) {
        None => Some("FROST commitment party is invalid"@),
        Some(party) => match text_in(entry.field("commitments"@)) {
            None => Some("FROST commitment is absent"@),
            Some(text) => match base64_bytes(text) {
                None => Some("FROST commitment is malformed"@),
                Some(raw) => if party == 0 {
                    Some("FROST commitment identifier is invalid"@)
                } else if !yes(decodes, raw) {
                    Some("FROST commitment cannot be decoded"@)
                } else {
                    None
                },
            },
        },
    }
}

/// Whether an entry names the party of an earlier one.
pub open spec fn party_repeated(entries: Seq<Json>, at: int) -> bool {
    exists|j: int| 0 <= j < at && party_in((#[trigger] entries[j]).field("party"@))
        == party_in(entries[at].field("party"@))
}

/// Why the first `count` entries are no commitments of distinct parties.
pub open spec fn commitments_refusal<D: Fn(&Vec<u8>) -> bool>(entries: Seq<Json>, decodes: D, count: nat) -> Option<
    Seq<char>,
>
    decreases count,
{
    if count == 0 || count > entries.len() {
        None
    } else {
        either(
            commitments_refusal(entries, decodes, (count - 1) as nat),
            either(
                commitment_refusal(entries[count - 1], decodes),
                if party_repeated(entries, count - 1) {
                    Some("FROST commitment party is duplicated"@)
                } else {
                    None
                },
            ),
        )
    }
}

/// Whether an entry was read.
pub open spec fn commitment_said(entry: Json, commitment: Commitment) -> bool {
    &&& party_in(entry.field("party"@)) == Some(commitment.party as nat)
    &&& text_in(entry.field("commitments"@)) is Some
    &&& base64_bytes(text_in(entry.field("commitments"@))->0) == Some(commitment.raw@)
}

/// Whether entries were read, in their order.
pub open spec fn commitments_said(entries: Seq<Json>, commitments: Seq<Commitment>) -> bool {
    &&& commitments.len() == entries.len()
    &&& forall|i: int|
        #![trigger commitments[i]]
        0 <= i < commitments.len() ==> commitment_said(entries[i], commitments[i])
}

fn read_commitment<D: Fn(&Vec<u8>) -> bool>(entry: &Value, decodes: &D) -> (r: Result<Commitment, String>)
    requires
        decides(*decodes),
    ensures
        match r {
            Ok(c) => commitment_refusal(entry@, *decodes) is None && commitment_said(entry@, c),
            Err(e) => commitment_refusal(entry@, *decodes) == Some(e@),
        },
{
    let party = match as_party(entry.get("party")) {
        None => {
            return Err("FROST commitment party is invalid".to_owned());
        },
        Some(party) => party,
    };
    let text = match as_text(entry.get("commitments")) {
        None => {
            return Err("FROST commitment is absent".to_owned());
        },
        Some(text) => text,
    };
    let raw = match base64_decode(text) {
        None => {
            return Err("FROST commitment is malformed".to_owned());
        },
        Some(raw) => raw,
    };
    if party == 0 {
        return Err("FROST commitment identifier is invalid".to_owned());
    }
    if !ask(decodes, &raw) {
        return Err("FROST commitment cannot be decoded".to_owned());
    }
    Ok(Commitment { party, raw })
}

/// The first refusal among the entries is that of all of them.
proof fn commitments_refused<D: Fn(&Vec<u8>) -> bool>(entries: Seq<Json>, decodes: D, at: nat, count: nat)
    requires
        at <= count <= entries.len(),
        commitments_refusal(entries, decodes, at) is Some,
    ensures
        commitments_refusal(entries, decodes, count) == commitments_refusal(entries, decodes, at),
    decreases count,
{
    if at < count {
        commitments_refused(entries, decodes, at, (count - 1) as nat);
    }
}

#[verifier::loop_isolation(false)]
fn read_commitments<D: Fn(&Vec<u8>) -> bool>(
    entries: &Vec<Value>,
    said_entries: Ghost<Seq<Json>>,
    decodes: &D,
) -> (r: Result<Vec<Commitment>, String>)
    requires
        decides(*decodes),
        said_entries@.len() == entries@.len(),
        forall|i: int| 0 <= i < entries@.len() ==> #[trigger] said_entries@[i] == entries@[i]@,
    ensures
        match r {
            Ok(list) => commitments_refusal(said_entries@, *decodes, entries@.len()) is None && commitments_said(
                said_entries@,
                list@,
            ),
            Err(e) => commitments_refusal(said_entries@, *decodes, entries@.len()) == Some(e@),
        },
{
    let ghost all = said_entries@;
    let mut list: Vec<Commitment> = Vec::new();
    let mut i: usize = 0;
    while i < entries.len()
        invariant
            i <= entries@.len(),
            list@.len() == i,
            commitments_refusal(all, *decodes, i as nat) is None,
            forall|j: int| #![trigger list@[j]] 0 <= j < i ==> commitment_said(all[j], list@[j]),
        decreases entries@.len() - i,
    {
        proof {
            assert(all[i as int] == entries@[i as int]@);
        }
        let next = match read_commitment(&entries[i], decodes) {
            Err(e) => {
                proof {
                    assert(commitments_refusal(all, *decodes, (i + 1) as nat) == Some(e@));
                    commitments_refused(all, *decodes, (i + 1) as nat, entries@.len());
                }
                return Err(e);
            },
            Ok(next) => next,
        };
        let mut j: usize = 0;
        while j < i
            invariant
                j <= i,
                forall|k: int| 0 <= k < j ==> (#[trigger] list@[k]).party != next.party,
            decreases i - j,
        {
            if list[j].party == next.party {
                proof {
                    assert(commitment_said(all[j as int], list@[j as int]));
                    assert(party_repeated(all, i as int)) by {
                        assert(party_in(all[j as int].field("party"@)) == party_in(all[i as int].field("party"@)));
                    }
                    assert(commitments_refusal(all, *decodes, (i + 1) as nat) == Some(
                        "FROST commitment party is duplicated"@,
                    ));
                    commitments_refused(all, *decodes, (i + 1) as nat, entries@.len());
                }
                return Err("FROST commitment party is duplicated".to_owned());
            }
            j = j + 1;
        }
        proof {
            assert(!party_repeated(all, i as int)) by {
                if party_repeated(all, i as int) {
                    let k = choose|k: int|
                        0 <= k < i && party_in((#[trigger] all[k]).field("party"@)) == party_in(
                            all[i as int].field("party"@),
                        );
                    assert(commitment_said(all[k], list@[k]));
                }
            }
        }
        list.push(next);
        i = i + 1;
    }
    Ok(list)
}

impl<N, B, S> ProofParty<N, B, S> {
    /// Why a request for a commitment is refused.
    pub open spec fn commit_refusal(self, params: Json) -> Option<Seq<char>> {
        let id = hex_in(params.field("job_id"@));
        let message = wire_in(params.field("message"@));
        either(
            job_id_refusal(params),
            if !self.unused(id) {
                Some("FROST signing job identifier was already used"@)
            } else {
                either(
                    one_wire_refusal(params, "message"@),
                    if !self.frost_authorized.has(id) || self.frost_authorized.at(id)@ != sha256(message) || id
                        != signing_job_of(message) {
                        Some("FROST node will sign only a locally authorized proof output"@)
                    } else if self.frost_key is None {
                        Some("FROST DKG is not complete"@)
                    } else {
                        None
                    },
                )
            },
        )
    }

    /// The state with a nonce held for a signing job that was authorized.
    pub open spec fn committed(self, id: Seq<u8>, nonces: S, after: ProofParty<N, B, S>) -> bool {
        &&& after == (ProofParty {
            frost_nonces: after.frost_nonces,
            frost_authorized: after.frost_authorized,
            frost_reserved: after.frost_reserved,
            ..self
        })
        &&& after.frost_nonces.has(id)
        &&& after.frost_nonces.at(id) == (FrostNonces { message_digest: self.frost_authorized.at(id), nonces })
        &&& after.frost_nonces.same_but(self.frost_nonces, id)
        &&& !after.frost_authorized.has(id)
        &&& after.frost_authorized.same_but(self.frost_authorized, id)
        &&& after.frost_reserved.has(id)
        &&& after.frost_reserved.same_but(self.frost_reserved, id)
    }

    /// Takes a locally authorized signing job into its first round: `commit` draws the
    /// nonces, which are kept, and gives their commitment. The authorization is used up
    /// and the job reserved before the commitment may leave the node.
    pub fn frost_commit<
        R,
        F: FnOnce(&FrostKey) -> (S, R),
        W: Fn(&ProofParty<N, B, S>, u64) -> Result<(), String>,
    >(&mut self, params: &Value, commit: F, write: &W) -> (r: Result<R, String>)
        requires
            old(self).consistent(),
            forall|k: &FrostKey| call_requires(commit, (k,)),
            can_write(*write),
        ensures
            final(self).consistent(),
            old(self).keeps_used(*final(self)),
            match old(self).commit_refusal(params@) {
                Some(e) => {
                    &&& r matches Err(f) && f@ == e
                    &&& *final(self) == *old(self)
                },
                None => {
                    let id = hex_in(params@.field("job_id"@));
                    let key = old(self).frost_key->0;
                    exists|nonces: S, reply: R, middle: ProofParty<N, B, S>|
                        #![trigger call_ensures(commit, (&key,), (nonces, reply)), old(self).committed(
                            id,
                            nonces,
                            middle,
                        )]
                        call_ensures(commit, (&key,), (nonces, reply)) && old(self).committed(id, nonces, middle)
                            && written(*write, middle, *final(self), outcome_of(r)) && (r matches Ok(given) ==> given
                            == reply)
                },
            },
    {
        let id = match job_id(params) {
            Err(e) => {
                return Err(e);
            },
            Ok(id) => id,
        };
        if !self.is_unused(&id) {
            return Err("FROST signing job identifier was already used".to_owned());
        }
        let message = match one_wire(params, "message") {
            Err(e) => {
                return Err(e);
            },
            Ok(message) => message,
        };
        let message_digest = hash(message.as_slice());
        let allowed = match self.frost_authorized.get(&id) {
            Some(digest) => same32(digest, &message_digest),
            None => false,
        };
        let expected = signing_job(message.as_slice());
        if !allowed || !same32(&id, &expected) {
            return Err("FROST node will sign only a locally authorized proof output".to_owned());
        }
        let (nonces, reply) = match &self.frost_key {
            None => {
                return Err("FROST DKG is not complete".to_owned());
            },
            Some(key) => commit(key),
        };
        let ghost drawn = nonces;
        assert(call_ensures(commit, (&old(self).frost_key->0,), (drawn, reply)));
        assert(message_digest@ =~= self.frost_authorized.at(id@)@);
        assert(message_digest == self.frost_authorized.at(id@));
        self.frost_nonces.insert(id, FrostNonces { message_digest, nonces });
        let _ = self.frost_authorized.remove(&id);
        self.frost_reserved.insert(id, ());
        let ghost middle = *self;
        proof {
            let before = *old(self);
            assert(before.committed(id@, drawn, middle));
            signing_steps_keep_lifecycle(before, middle, id@);
        }
        match self.persist(write) {
            Err(e) => Err(e),
            Ok(_) => Ok(reply),
        }
    }

    /// Why a signing package is refused before the nonce is burned.
    pub open spec fn sign_refusal<D: Fn(&Vec<u8>) -> bool>(self, params: Json, decodes: D) -> Option<Seq<char>> {
        let id = hex_in(params.field("job_id"@));
        either(
            job_id_refusal(params),
            either(
                one_wire_refusal(params, "message"@),
                match array_in(params.field("commitments"@)) {
                    None => Some("FROST commitments must be an array"@),
                    Some(entries) => if entries.len() < self.config.threshold + 1 || entries.len() > MAX_COMMITMENTS {
                        Some("FROST commitment quorum is outside its bound"@)
                    } else {
                        either(
                            commitments_refusal(entries, decodes, entries.len()),
                            if !names_party(entries, (self.config.node + 1) as nat) {
                                Some("FROST signing package omits this node"@)
                            } else if !self.frost_nonces.has(id) {
                                Some("FROST nonce is absent or already consumed"@)
                            } else {
                                None
                            },
                        )
                    },
                },
            ),
        )
    }

    /// The state with the nonce of a signing job burned.
    pub open spec fn burned(self, id: Seq<u8>, after: ProofParty<N, B, S>) -> bool {
        &&& after == (ProofParty {
            frost_nonces: after.frost_nonces,
            frost_reserved: after.frost_reserved,
            frost_consumed: after.frost_consumed,
            ..self
        })
        &&& !after.frost_nonces.has(id)
        &&& after.frost_nonces.same_but(self.frost_nonces, id)
        &&& !after.frost_reserved.has(id)
        &&& after.frost_reserved.same_but(self.frost_reserved, id)
        &&& after.frost_consumed.has(id)
        &&& after.frost_consumed.same_but(self.frost_consumed, id)
    }

    /// What signing with burned nonces comes to: a share of the group's signature over
    /// the message, and the approval of the post-quantum committee beside it.
    pub open spec fn shared<
        R,
        A,
        F: FnOnce(S, &FrostPackage, &FrostKey) -> Result<R, String>,
        G: FnOnce(&QuorumPolicy, &Vec<u8>) -> Result<A, String>,
    >(self, params: Json, share: F, approve: G, r: Result<(R, A), String>) -> bool {
        let held = self.frost_nonces.at(hex_in(params.field("job_id"@)));
        if held.message_digest@ != sha256(wire_in(params.field("message"@))) {
            r matches Err(e) && e@ == "FROST signing message changed after nonce commitment"@
        } else if self.frost_key is None {
            r matches Err(e) && e@ == "FROST DKG is not complete"@
        } else {
            let key = self.frost_key->0;
            exists|package: FrostPackage, made: Result<R, String>|
                package_said(params, package) && #[trigger] call_ensures(share, (held.nonces, &package, &key), made)
                    && match made {
                    Err(e) => r == Err::<(R, A), String>(e),
                    Ok(given) => match self.pq_committee {
                        None => r matches Err(e) && e@ == "PQ committee is absent"@,
                        Some(policy) => match r {
                            Err(e) => call_ensures(approve, (&policy, &package.message), Err::<A, String>(e)),
                            Ok((one, two)) => one == given && call_ensures(
                                approve,
                                (&policy, &package.message),
                                Ok::<A, String>(two),
                            ),
                        },
                    },
                }
        }
    }

    /// Burns the nonces of a signing job and signs with them. The job is burned
    /// before a share can leave the node: a crash after the write can lose the
    /// response, but cannot make the same job signable again. The nonces are gone
    /// too where the message is not the one they were committed for. `share` makes the
    /// share, and `approve` signs for the post-quantum committee.
    pub fn frost_sign<
        R,
        A,
        D: Fn(&Vec<u8>) -> bool,
        F: FnOnce(S, &FrostPackage, &FrostKey) -> Result<R, String>,
        G: FnOnce(&QuorumPolicy, &Vec<u8>) -> Result<A, String>,
        W: Fn(&ProofParty<N, B, S>, u64) -> Result<(), String>,
    >(&mut self, params: &Value, decodes: &D, share: F, approve: G, write: &W) -> (r: Result<(R, A), String>)
        requires
            old(self).consistent(),
            can_write(*write),
            decides(*decodes),
            forall|s: S, p: &FrostPackage, k: &FrostKey| call_requires(share, (s, p, k)),
            forall|q: &QuorumPolicy, m: &Vec<u8>| call_requires(approve, (q, m)),
        ensures
            final(self).consistent(),
            old(self).keeps_used(*final(self)),
            match old(self).sign_refusal(params@, *decodes) {
                Some(e) => {
                    &&& r matches Err(f) && f@ == e
                    &&& *final(self) == *old(self)
                },
                None => {
                    let id = hex_in(params@.field("job_id"@));
                    exists|middle: ProofParty<N, B, S>, outcome: Result<(), Seq<char>>|
                        old(self).burned(id, middle) && #[trigger] written(*write, middle, *final(self), outcome)
                            && match outcome {
                            Err(e) => outcome_of(r) == outcome,
                            Ok(_) => old(self).shared(params@, share, approve, r),
                        }
                },
            },
    {
        let id = match job_id(params) {
            Err(e) => {
                return Err(e);
            },
            Ok(id) => id,
        };
        let message = match one_wire(params, "message") {
            Err(e) => {
                return Err(e);
            },
            Ok(message) => message,
        };
        let entries = match as_array(params.get("commitments")) {
            None => {
                return Err("FROST commitments must be an array".to_owned());
            },
            Some(entries) => entries,
        };
        if entries.len() <= self.config.threshold || entries.len() > MAX_COMMITMENTS {
            return Err("FROST commitment quorum is outside its bound".to_owned());
        }
        let ghost all = array_in(params@.field("commitments"@))->0;
        let list = match read_commitments(entries, Ghost(all), decodes) {
            Err(e) => {
                return Err(e);
            },
            Ok(list) => list,
        };
        let own: u32 = self.config.node as u32 + 1;
        let mut found = false;
        let mut i: usize = 0;
        while i < list.len()
            invariant
                i <= list@.len(),
                commitments_said(all, list@),
                found == exists|j: int| 0 <= j < i && (#[trigger] list@[j]).party == own,
            decreases list@.len() - i,
        {
            if list[i].party as u32 == own {
                found = true;
            }
            i = i + 1;
        }
        proof {
            if found {
                let j = choose|j: int| 0 <= j < list@.len() && (#[trigger] list@[j]).party == own;
                assert(commitment_said(all[j], list@[j]));
                assert(party_in(all[j].field("party"@)) == Some(own as nat));
            }
            if names_party(all, own as nat) {
                let j = choose|j: int|
                    0 <= j < all.len() && party_in((#[trigger] all[j]).field("party"@)) == Some(own as nat);
                assert(commitment_said(all[j], list@[j]));
            }
            assert(found == names_party(all, own as nat));
        }
        if !found {
            return Err("FROST signing package omits this node".to_owned());
        }
        let held = match self.frost_nonces.remove(&id) {
            None => {
                return Err("FROST nonce is absent or already consumed".to_owned());
            },
            Some(held) => held,
        };
        let _ = self.frost_reserved.remove(&id);
        self.frost_consumed.insert(id, ());
        let ghost middle = *self;
        proof {
            let before = *old(self);
            assert(before.frost_reserved.has(id@));
            assert(before.burned(id@, middle));
            signing_steps_keep_lifecycle(before, middle, id@);
        }
        let outcome = self.persist(write);
        let ghost told = outcome_of(outcome);
        assert(written(*write, middle, *self, told));
        match outcome {
            Err(e) => {
                return Err(e);
            },
            Ok(_) => {},
        }
        let ghost held_before = held;
        let message_digest = hash(message.as_slice());
        if !same32(&held.message_digest, &message_digest) {
            return Err("FROST signing message changed after nonce commitment".to_owned());
        }
        let key = match &self.frost_key {
            None => {
                return Err("FROST DKG is not complete".to_owned());
            },
            Some(key) => key,
        };
        let package = FrostPackage { message, commitments: list };
        let made = share(held.nonces, &package, key);
        assert(package_said(params@, package));
        assert(call_ensures(share, (held_before.nonces, &package, &old(self).frost_key->0), made));
        let given = match made {
            Err(e) => {
                return Err(e);
            },
            Ok(given) => given,
        };
        let policy = match &self.pq_committee {
            None => {
                return Err("PQ committee is absent".to_owned());
            },
            Some(policy) => policy,
        };
        let approved = approve(policy, &package.message);
        assert(call_ensures(approve, (&old(self).pq_committee->0, &package.message), approved));
        match approved {
            Err(e) => Err(e),
            Ok(approval) => Ok((given, approval)),
        }
    }
}

/// Whether one of the entries names a party.
pub open spec fn names_party(entries: Seq<Json>, party: nat) -> bool {
    exists|j: int| 0 <= j < entries.len() && party_in((#[trigger] entries[j]).field("party"@)) == Some(party)
}

/// The steps of one signing job keep the lifecycle consistent.
proof fn signing_steps_keep_lifecycle<N, B, S>(before: ProofParty<N, B, S>, after: ProofParty<N, B, S>, id: Seq<u8>)
    requires
        before.consistent(),
        after == (ProofParty {
            frost_nonces: after.frost_nonces,
            frost_authorized: after.frost_authorized,
            frost_reserved: after.frost_reserved,
            frost_consumed: after.frost_consumed,
            ..before
        }),
        after.ordered(),
        after.frost_nonces.same_but(before.frost_nonces, id),
        after.frost_authorized.same_but(before.frost_authorized, id),
        after.frost_reserved.same_but(before.frost_reserved, id),
        after.frost_consumed.same_but(before.frost_consumed, id),
        !(after.frost_reserved.has(id) && after.frost_consumed.has(id)),
        !(after.frost_authorized.has(id) && after.frost_reserved.has(id)),
        !(after.frost_authorized.has(id) && after.frost_consumed.has(id)),
        after.frost_nonces.has(id) ==> after.frost_reserved.has(id),
    ensures
        after.consistent(),
{
    assert forall|k: Seq<u8>| k != id implies {
        &&& #[trigger] after.frost_nonces.has(k) == before.frost_nonces.has(k)
        &&& #[trigger] after.frost_authorized.has(k) == before.frost_authorized.has(k)
        &&& #[trigger] after.frost_reserved.has(k) == before.frost_reserved.has(k)
        &&& #[trigger] after.frost_consumed.has(k) == before.frost_consumed.has(k)
    } by {}
    assert forall|k: Seq<u8>| !(#[trigger] after.frost_reserved.has(k) && #[trigger] after.frost_consumed.has(k)) by {
        if k != id {
            assert(!(before.frost_reserved.has(k) && before.frost_consumed.has(k)));
        }
    }
    assert forall|k: Seq<u8>| !(#[trigger] after.frost_authorized.has(k) && #[trigger] after.frost_reserved.has(k)) by {
        if k != id {
            assert(!(before.frost_authorized.has(k) && before.frost_reserved.has(k)));
        }
    }
    assert forall|k: Seq<u8>| !(#[trigger] after.frost_authorized.has(k) && #[trigger] after.frost_consumed.has(k)) by {
        if k != id {
            assert(!(before.frost_authorized.has(k) && before.frost_consumed.has(k)));
        }
    }
    assert forall|k: Seq<u8>| #[trigger] after.frost_nonces.has(k) implies after.frost_reserved.has(k) by {
        if k != id {
            assert(before.frost_nonces.has(k));
        }
    }
}

} // verus!
