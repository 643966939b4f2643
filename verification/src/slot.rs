//! Tickets, receipts and the sealed batch of one fixed slot.

use vstd::prelude::*;
use crate::application_crypto::{
    answers, can_sign, can_verify, check_signature, make_signature, signs, Signature, SigningKey, VerifyingKey,
};
use crate::bytes::{be_bytes, joined, joined_step, put, put_be, same32, text_bytes};
use crate::digest::{digest_pair, framed, hmac, hmac_sha256, sha256};
use crate::wire::frames;
use vstd::string::StringExecFns;

verus! {

/// A signed right to submit one frame in one slot.
#[derive(Clone, Debug)]
pub struct AdmissionTicket {
    pub slot: u64,
    pub ticket_id: [u8; 32],
    pub issued_at: u64,
    pub expires_at: u64,
    pub signature: Signature,
}

/// What a ticket says.
pub ghost struct Ticket {
    pub slot: nat,
    pub ticket_id: Seq<u8>,
    pub issued_at: nat,
    pub expires_at: nat,
    pub signature: Seq<u8>,
}

impl View for AdmissionTicket {
    type V = Ticket;

    open spec fn view(&self) -> Ticket {
        Ticket {
            slot: self.slot as nat,
            ticket_id: self.ticket_id@,
            issued_at: self.issued_at as nat,
            expires_at: self.expires_at as nat,
            signature: self.signature@,
        }
    }
}

impl Ticket {
    /// The ticket expires after it was issued.
    pub open spec fn lasts(self) -> bool {
        self.issued_at < self.expires_at
    }

    /// The signed text.
    pub open spec fn body(self) -> Seq<u8> {
        text_bytes("QOMM:ORDER:TICKET:v2"@) + be_bytes(self.slot, 8) + self.ticket_id + be_bytes(self.issued_at, 8)
            + be_bytes(self.expires_at, 8)
    }

    /// The digest of the signed text and its signature.
    pub open spec fn digest(self) -> Seq<u8> {
        sha256(framed(seq![self.body(), self.signature]))
    }

    /// Whether the ticket is in force at a time.
    pub open spec fn in_force(self, now: nat) -> bool {
        self.issued_at <= now <= self.expires_at && self.lasts()
    }

    /// What verifying the ticket comes to.
    pub open spec fn verified<V: Fn(&VerifyingKey, &Vec<u8>, &Signature) -> bool>(
        self,
        verify: V,
        authority: VerifyingKey,
        now: nat,
        r: bool,
    ) -> bool {
        if r {
            self.in_force(now) && answers(verify, authority, self.body(), self.signature, true)
        } else {
            !self.in_force(now) || answers(verify, authority, self.body(), self.signature, false)
        }
    }
}

impl AdmissionTicket {
    /// The text that the authority signs.
    pub fn unsigned(&self) -> (r: Result<Vec<u8>, String>)
        ensures
            r is Ok <==> self@.lasts(),
            r matches Ok(body) ==> body@ == self@.body(),
            r matches Err(e) ==> e@ == "ticket expiry must follow issuance"@,
    {
        if self.expires_at <= self.issued_at {
            return Err("ticket expiry must follow issuance".to_owned());
        }
        let mut body: Vec<u8> = Vec::new();
        put(&mut body, "QOMM:ORDER:TICKET:v2".as_bytes());
        put_be(&mut body, self.slot, 8);
        put(&mut body, self.ticket_id.as_slice());
        put_be(&mut body, self.issued_at, 8);
        put_be(&mut body, self.expires_at, 8);
        assert(body@ =~= self@.body());
        Ok(body)
    }

    /// The digest of the ticket with its signature.
    pub fn digest(&self) -> (r: Result<[u8; 32], String>)
        ensures
            r is Ok <==> self@.lasts(),
            r matches Ok(digest) ==> digest@ == self@.digest(),
            r matches Err(e) ==> e@ == "ticket expiry must follow issuance"@,
    {
        match self.unsigned() {
            Err(e) => Err(e),
            Ok(body) => Ok(digest_pair(&body, &self.signature.bytes)),
        }
    }

    /// Whether the ticket is in force at `now` and its signature authentic.
    pub fn verify<V: Fn(&VerifyingKey, &Vec<u8>, &Signature) -> bool>(
        &self,
        authority: &VerifyingKey,
        now: u64,
        verify: &V,
    ) -> (r: bool)
        requires
            can_verify(*verify),
        ensures
            self@.verified(*verify, *authority, now as nat, r),
    {
        if now < self.issued_at || self.expires_at < now {
            return false;
        }
        match self.unsigned() {
            Err(_) => false,
            Ok(body) => check_signature(verify, authority, &body, &self.signature),
        }
    }
}

/// A ticket that was issued to an entity.
#[derive(Clone, Copy, Debug)]
pub struct IssuedTicket {
    pub slot: u64,
    pub nullifier: [u8; 32],
    pub ticket_digest: [u8; 32],
}

/// The authority that gives each legal entity one ticket for a slot.
pub struct AdmissionAuthority {
    pub signing_key: SigningKey,
    pub entity_key: Vec<u8>,
    pub issued: Vec<IssuedTicket>,
}

/// The nullifier of an entity under a key.
pub open spec fn nullifier_of(entity_key: Seq<u8>, entity_id: Seq<u8>) -> Seq<u8> {
    hmac_sha256(entity_key, text_bytes("QOMM:ENTITY:v1"@) + entity_id)
}

impl AdmissionAuthority {
    /// Whether a ticket for the slot was issued to a nullifier.
    pub open spec fn issued_to(self, slot: nat, nullifier: Seq<u8>) -> bool {
        exists|i: int|
            0 <= i < self.issued@.len() && (#[trigger] self.issued@[i]).slot == slot && self.issued@[i].nullifier@
                == nullifier
    }

    /// No nullifier has two tickets for one slot.
    pub open spec fn well_formed(self) -> bool {
        &&& self.entity_key@.len() >= 32
        &&& forall|i: int, j: int|
            0 <= i < j < self.issued@.len() ==> (#[trigger] self.issued@[i]).slot != (#[trigger] self.issued@[j]).slot
                || self.issued@[i].nullifier@ != self.issued@[j].nullifier@
    }

    /// An authority that has issued nothing.
    pub fn new(signing_key: SigningKey, entity_key: Vec<u8>) -> (r: Result<AdmissionAuthority, String>)
        ensures
            r is Ok <==> entity_key@.len() >= 32,
            r matches Ok(a) ==> a.signing_key == signing_key && a.entity_key@ == entity_key@ && a.issued@.len() == 0
                && a.well_formed(),
            r matches Err(e) ==> e@ == "entity nullifier key must contain at least 32 bytes"@,
    {
        if entity_key.len() < 32 {
            return Err("entity nullifier key must contain at least 32 bytes".to_owned());
        }
        Ok(AdmissionAuthority { signing_key, entity_key, issued: Vec::new() })
    }

    /// The public half of the signing key.
    pub fn verifying_key(&self) -> (key: VerifyingKey)
        ensures
            key == self.signing_key.public,
    {
        self.signing_key.verifying_key()
    }

    /// The pseudonym of a legal entity.
    pub fn entity_nullifier(&self, entity_id: &[u8]) -> (r: Result<[u8; 32], String>)
        ensures
            r is Ok <==> entity_id@.len() > 0,
            r matches Ok(n) ==> n@ == nullifier_of(self.entity_key@, entity_id@),
            r matches Err(e) ==> e@ == "an empty legal-entity identifier is not admissible"@,
    {
        if entity_id.len() == 0 {
            return Err("an empty legal-entity identifier is not admissible".to_owned());
        }
        let mut body: Vec<u8> = Vec::new();
        put(&mut body, "QOMM:ENTITY:v1".as_bytes());
        put(&mut body, entity_id);
        assert(body@ =~= text_bytes("QOMM:ENTITY:v1"@) + entity_id@);
        Ok(hmac(self.entity_key.as_slice(), body.as_slice()))
    }

    fn find_issued(&self, slot: u64, nullifier: &[u8; 32]) -> (found: bool)
        ensures
            found == self.issued_to(slot as nat, nullifier@),
    {
        let mut i: usize = 0;
        while i < self.issued.len()
            invariant
                i <= self.issued@.len(),
                forall|j: int|
                    0 <= j < i ==> !((#[trigger] self.issued@[j]).slot == slot && self.issued@[j].nullifier@
                        == nullifier@),
            decreases self.issued@.len() - i,
        {
            if self.issued[i].slot == slot && same32(&self.issued[i].nullifier, nullifier) {
                return true;
            }
            i = i + 1;
        }
        false
    }

    /// What issuing a ticket to an entity for a slot does.
    pub open spec fn issues<S: Fn(&SigningKey, &Vec<u8>) -> Result<Signature, String>>(
        self,
        entity_id: Seq<u8>,
        slot: u64,
        issued_at: Option<u64>,
        lifetime: u64,
        ticket_id: Option<[u8; 32]>,
        now: u64,
        drawn: [u8; 32],
        sign: S,
        later: AdmissionAuthority,
        r: Result<AdmissionTicket, String>,
    ) -> bool {
        let start = match issued_at {
            Some(at) => at,
            None => now,
        };
        let id = match ticket_id {
            Some(id) => id@,
            None => drawn@,
        };
        let nullifier = nullifier_of(self.entity_key@, entity_id);
        let wanted = Ticket {
            slot: slot as nat,
            ticket_id: id,
            issued_at: start as nat,
            expires_at: (start + lifetime) as nat,
            signature: Seq::empty(),
        };
        if lifetime == 0 {
            r matches Err(e) && e@ == "ticket lifetime must be positive"@
        } else if start + lifetime > u64::MAX {
            r matches Err(e) && e@ == "ticket expiry overflow"@
        } else if entity_id.len() == 0 {
            r matches Err(e) && e@ == "an empty legal-entity identifier is not admissible"@
        } else if self.issued_to(slot as nat, nullifier) {
            r matches Err(e) && e@ == "this legal entity already has a ticket for the slot"@
        } else {
            match r {
                Ok(ticket) => {
                    &&& ticket@ == Ticket { signature: ticket@.signature, ..wanted }
                    &&& signs(sign, self.signing_key, wanted.body(), Ok(ticket@.signature))
                    &&& later.issued_to(slot as nat, nullifier)
                    &&& later.issued@.len() == self.issued@.len() + 1
                    &&& later.issued@.drop_last() == self.issued@
                    &&& later.issued@.last().slot == slot
                    &&& later.issued@.last().nullifier@ == nullifier
                    &&& later.issued@.last().ticket_digest@ == ticket@.digest()
                },
                Err(e) => signs(sign, self.signing_key, wanted.body(), Err(e@)),
            }
        }
    }

    /// Issues the one ticket that an entity can have for a slot. The clock's
    /// `now` and the fresh identifier `drawn` stand in for what the caller leaves open.
    pub fn issue<S: Fn(&SigningKey, &Vec<u8>) -> Result<Signature, String>>(
        &mut self,
        entity_id: &[u8],
        slot: u64,
        issued_at: Option<u64>,
        lifetime: u64,
        ticket_id: Option<[u8; 32]>,
        now: u64,
        drawn: [u8; 32],
        sign: &S,
    ) -> (r: Result<AdmissionTicket, String>)
        requires
            can_sign(*sign),
            old(self).well_formed(),
        ensures
            final(self).well_formed(),
            final(self).signing_key == old(self).signing_key,
            final(self).entity_key@ == old(self).entity_key@,
            old(self).issues(entity_id@, slot, issued_at, lifetime, ticket_id, now, drawn, *sign, *final(self), r),
            r is Err ==> final(self).issued@ == old(self).issued@,
    {
        if lifetime == 0 {
            return Err("ticket lifetime must be positive".to_owned());
        }
        let issued_at: u64 = match issued_at {
            Some(at) => at,
            None => now,
        };
        if lifetime > u64::MAX - issued_at {
            return Err("ticket expiry overflow".to_owned());
        }
        let expires_at: u64 = issued_at + lifetime;
        let nullifier = match self.entity_nullifier(entity_id) {
            Err(e) => {
                return Err(e);
            },
            Ok(n) => n,
        };
        if self.find_issued(slot, &nullifier) {
            return Err("this legal entity already has a ticket for the slot".to_owned());
        }
        let ticket_id: [u8; 32] = match ticket_id {
            Some(id) => id,
            None => drawn,
        };
        let mut body: Vec<u8> = Vec::new();
        put(&mut body, "QOMM:ORDER:TICKET:v2".as_bytes());
        put_be(&mut body, slot, 8);
        put(&mut body, ticket_id.as_slice());
        put_be(&mut body, issued_at, 8);
        put_be(&mut body, expires_at, 8);
        let ghost wanted = Ticket {
            slot: slot as nat,
            ticket_id: ticket_id@,
            issued_at: issued_at as nat,
            expires_at: expires_at as nat,
            signature: Seq::empty(),
        };
        assert(body@ =~= wanted.body());
        let signature = match make_signature(sign, &self.signing_key, &body) {
            Err(e) => {
                return Err(e);
            },
            Ok(s) => s,
        };
        let ticket = AdmissionTicket { slot, ticket_id, issued_at, expires_at, signature };
        assert(ticket@.body() == wanted.body());
        let ticket_digest = digest_pair(&body, &ticket.signature.bytes);
        let ghost before = self.issued@;
        self.issued.push(IssuedTicket { slot, nullifier, ticket_digest });
        proof {
            assert(self.issued@.drop_last() =~= before);
            assert(self.issued@[before.len() as int].slot == slot);
        }
        Ok(ticket)
    }
}

/// Randomness that orders a closed slot.
#[derive(Clone, Debug)]
pub struct RandomnessBeacon {
    pub round: u64,
    pub value: [u8; 32],
    pub signature: Signature,
}

/// The signed text of a beacon.
pub open spec fn beacon_body(round: nat, value: Seq<u8>) -> Seq<u8> {
    text_bytes("QOMM:ORDER:BEACON:v2"@) + be_bytes(round, 8) + value
}

impl RandomnessBeacon {
    fn unsigned(round: u64, value: &[u8; 32]) -> (body: Vec<u8>)
        ensures
            body@ == beacon_body(round as nat, value@),
    {
        let mut body: Vec<u8> = Vec::new();
        put(&mut body, "QOMM:ORDER:BEACON:v2".as_bytes());
        put_be(&mut body, round, 8);
        put(&mut body, value.as_slice());
        assert(body@ =~= beacon_body(round as nat, value@));
        body
    }

    /// Signs a beacon.
    pub fn sign<S: Fn(&SigningKey, &Vec<u8>) -> Result<Signature, String>>(
        round: u64,
        value: [u8; 32],
        key: &SigningKey,
        sign: &S,
    ) -> (r: Result<RandomnessBeacon, String>)
        requires
            can_sign(*sign),
        ensures
            match r {
                Ok(beacon) => beacon.round == round && beacon.value@ == value@ && signs(
                    *sign,
                    *key,
                    beacon_body(round as nat, value@),
                    Ok(beacon.signature@),
                ),
                Err(e) => signs(*sign, *key, beacon_body(round as nat, value@), Err(e@)),
            },
    {
        let body = RandomnessBeacon::unsigned(round, &value);
        match make_signature(sign, key, &body) {
            Err(e) => Err(e),
            Ok(signature) => Ok(RandomnessBeacon { round, value, signature }),
        }
    }

    /// Whether the beacon's signature is authentic.
    pub fn verify<V: Fn(&VerifyingKey, &Vec<u8>, &Signature) -> bool>(
        &self,
        key: &VerifyingKey,
        verify: &V,
    ) -> (r: bool)
        requires
            can_verify(*verify),
        ensures
            answers(*verify, *key, beacon_body(self.round as nat, self.value@), self.signature@, r),
    {
        let body = RandomnessBeacon::unsigned(self.round, &self.value);
        check_signature(verify, key, &body, &self.signature)
    }
}

/// A sealer's signed acknowledgement of one frame.
#[derive(Clone, Debug)]
pub struct AdmissionReceipt {
    pub slot: u64,
    pub node: u64,
    pub ticket_digest: [u8; 32],
    pub frame_digest: [u8; 32],
    pub received_at_ns: u64,
    pub signature: Signature,
}

/// What a receipt says.
pub ghost struct Receipt {
    pub slot: nat,
    pub node: nat,
    pub ticket_digest: Seq<u8>,
    pub frame_digest: Seq<u8>,
    pub received_at_ns: nat,
    pub signature: Seq<u8>,
}

impl View for AdmissionReceipt {
    type V = Receipt;

    open spec fn view(&self) -> Receipt {
        Receipt {
            slot: self.slot as nat,
            node: self.node as nat,
            ticket_digest: self.ticket_digest@,
            frame_digest: self.frame_digest@,
            received_at_ns: self.received_at_ns as nat,
            signature: self.signature@,
        }
    }
}

impl Receipt {
    /// The signed text.
    pub open spec fn body(self) -> Seq<u8> {
        text_bytes("QOMM:ORDER:RECEIPT:v2"@) + be_bytes(self.slot, 8) + be_bytes(self.node, 8) + self.ticket_digest
            + self.frame_digest + be_bytes(self.received_at_ns, 8)
    }
}

impl AdmissionReceipt {
    /// The text that the sealer signs.
    pub fn unsigned(&self) -> (body: Vec<u8>)
        ensures
            body@ == self@.body(),
    {
        let mut body: Vec<u8> = Vec::new();
        put(&mut body, "QOMM:ORDER:RECEIPT:v2".as_bytes());
        put_be(&mut body, self.slot, 8);
        put_be(&mut body, self.node, 8);
        put(&mut body, self.ticket_digest.as_slice());
        put(&mut body, self.frame_digest.as_slice());
        put_be(&mut body, self.received_at_ns, 8);
        assert(body@ =~= self@.body());
        body
    }

    /// Whether the receipt's signature is authentic.
    pub fn verify<V: Fn(&VerifyingKey, &Vec<u8>, &Signature) -> bool>(
        &self,
        key: &VerifyingKey,
        verify: &V,
    ) -> (r: bool)
        requires
            can_verify(*verify),
        ensures
            answers(*verify, *key, self@.body(), self.signature@, r),
    {
        let body = self.unsigned();
        check_signature(verify, key, &body, &self.signature)
    }

    /// A copy.
    pub fn copy(&self) -> (receipt: AdmissionReceipt)
        ensures
            receipt@ == self@,
    {
        AdmissionReceipt {
            slot: self.slot,
            node: self.node,
            ticket_digest: self.ticket_digest,
            frame_digest: self.frame_digest,
            received_at_ns: self.received_at_ns,
            signature: self.signature.copy(),
        }
    }
}

/// The signed order of a sealed batch.
#[derive(Clone, Debug)]
pub struct BatchManifest {
    pub slot: u64,
    pub node: u64,
    pub beacon_round: u64,
    pub beacon_value: [u8; 32],
    pub ordered_ticket_digests: Vec<[u8; 32]>,
    pub ordered_frame_digests: Vec<[u8; 32]>,
    pub previous_digest: [u8; 32],
    pub signature: Signature,
}

/// What a manifest says.
pub ghost struct Manifest {
    pub slot: nat,
    pub node: nat,
    pub beacon_round: nat,
    pub beacon_value: Seq<u8>,
    pub tickets: Seq<Seq<u8>>,
    pub frames: Seq<Seq<u8>>,
    pub previous_digest: Seq<u8>,
    pub signature: Seq<u8>,
}

/// The bytes of a list of digests.
pub open spec fn digests(values: Seq<[u8; 32]>) -> Seq<Seq<u8>> {
    values.map_values(|v: [u8; 32]| v@)
}

impl View for BatchManifest {
    type V = Manifest;

    open spec fn view(&self) -> Manifest {
        Manifest {
            slot: self.slot as nat,
            node: self.node as nat,
            beacon_round: self.beacon_round as nat,
            beacon_value: self.beacon_value@,
            tickets: digests(self.ordered_ticket_digests@),
            frames: digests(self.ordered_frame_digests@),
            previous_digest: self.previous_digest@,
            signature: self.signature@,
        }
    }
}

impl Manifest {
    /// Each ticket has its frame.
    pub open spec fn paired(self) -> bool {
        self.tickets.len() == self.frames.len()
    }

    /// The text of each ticket and its frame.
    pub open spec fn pairs(self) -> Seq<Seq<u8>> {
        Seq::new(self.tickets.len(), |i: int| self.tickets[i] + self.frames[i])
    }

    /// The signed text.
    pub open spec fn body(self) -> Seq<u8> {
        text_bytes("QOMM:ORDER:MANIFEST:v2"@) + be_bytes(self.slot, 8) + be_bytes(self.node, 8) + be_bytes(
            self.beacon_round,
            8,
        ) + self.beacon_value + self.previous_digest + be_bytes(self.tickets.len(), 8) + joined(self.pairs())
    }

    /// The digest of the signed text and its signature.
    pub open spec fn digest(self) -> Seq<u8> {
        sha256(framed(seq![self.body(), self.signature]))
    }

    /// Whether a receipt's ticket and frame stand in one place of the order.
    pub open spec fn includes(self, receipt: Receipt) -> bool {
        exists|i: int|
            0 <= i < self.tickets.len() && i < self.frames.len() && (#[trigger] self.tickets[i])
                == receipt.ticket_digest && self.frames[i] == receipt.frame_digest
    }
}

impl BatchManifest {
    /// The text that the sealer signs.
    pub fn unsigned(&self) -> (r: Result<Vec<u8>, String>)
        ensures
            r is Ok <==> self@.paired(),
            r matches Ok(body) ==> body@ == self@.body(),
            r matches Err(e) ==> e@ == "ticket and frame manifests have different lengths"@,
    {
        if self.ordered_ticket_digests.len() != self.ordered_frame_digests.len() {
            return Err("ticket and frame manifests have different lengths".to_owned());
        }
        let mut body: Vec<u8> = Vec::new();
        put(&mut body, "QOMM:ORDER:MANIFEST:v2".as_bytes());
        put_be(&mut body, self.slot, 8);
        put_be(&mut body, self.node, 8);
        put_be(&mut body, self.beacon_round, 8);
        put(&mut body, self.beacon_value.as_slice());
        put(&mut body, self.previous_digest.as_slice());
        put_be(&mut body, self.ordered_ticket_digests.len() as u64, 8);
        let ghost head = body@;
        let ghost pairs = self@.pairs();
        assert(head =~= head + joined(pairs.take(0)));
        let mut i: usize = 0;
        while i < self.ordered_ticket_digests.len()
            invariant
                i <= self.ordered_ticket_digests@.len(),
                self.ordered_ticket_digests@.len() == self.ordered_frame_digests@.len(),
                pairs == self@.pairs(),
                body@ == head + joined(pairs.take(i as int)),
            decreases self.ordered_ticket_digests@.len() - i,
        {
            put(&mut body, self.ordered_ticket_digests[i].as_slice());
            put(&mut body, self.ordered_frame_digests[i].as_slice());
            proof {
                joined_step(pairs, i as int);
                assert(body@ =~= head + joined(pairs.take(i as int + 1)));
            }
            i = i + 1;
        }
        assert(pairs.take(i as int) =~= pairs);
        assert(body@ =~= self@.body());
        Ok(body)
    }

    /// The digest of the manifest with its signature.
    pub fn digest(&self) -> (r: Result<[u8; 32], String>)
        ensures
            r is Ok <==> self@.paired(),
            r matches Ok(digest) ==> digest@ == self@.digest(),
            r matches Err(e) ==> e@ == "ticket and frame manifests have different lengths"@,
    {
        match self.unsigned() {
            Err(e) => Err(e),
            Ok(body) => Ok(digest_pair(&body, &self.signature.bytes)),
        }
    }

    /// Whether the manifest is paired and its signature authentic.
    pub fn verify<V: Fn(&VerifyingKey, &Vec<u8>, &Signature) -> bool>(
        &self,
        key: &VerifyingKey,
        verify: &V,
    ) -> (r: bool)
        requires
            can_verify(*verify),
        ensures
            r ==> self@.paired() && answers(*verify, *key, self@.body(), self@.signature, true),
            !r ==> !self@.paired() || answers(*verify, *key, self@.body(), self@.signature, false),
    {
        match self.unsigned() {
            Err(_) => false,
            Ok(body) => check_signature(verify, key, &body, &self.signature),
        }
    }

    /// Whether a receipt's ticket and frame stand in one place of the order.
    pub fn includes(&self, receipt: &AdmissionReceipt) -> (r: bool)
        ensures
            r == self@.includes(receipt@),
    {
        let mut i: usize = 0;
        while i < self.ordered_ticket_digests.len() && i < self.ordered_frame_digests.len()
            invariant
                i <= self.ordered_ticket_digests@.len(),
                i <= self.ordered_frame_digests@.len(),
                forall|j: int|
                    0 <= j < i ==> !((#[trigger] self@.tickets[j]) == receipt@.ticket_digest && self@.frames[j]
                        == receipt@.frame_digest),
            decreases self.ordered_ticket_digests@.len() - i,
        {
            if same32(&self.ordered_ticket_digests[i], &receipt.ticket_digest) && same32(
                &self.ordered_frame_digests[i],
                &receipt.frame_digest,
            ) {
                assert(self@.tickets[i as int] == receipt@.ticket_digest);
                return true;
            }
            i = i + 1;
        }
        false
    }
}

/// What judging an omission comes to.
pub open spec fn omission_judged<V: Fn(&VerifyingKey, &Vec<u8>, &Signature) -> bool>(
    verify: V,
    sealer_key: VerifyingKey,
    receipt: Receipt,
    manifest: Manifest,
    r: bool,
) -> bool {
    if r {
        &&& receipt.slot == manifest.slot
        &&& receipt.node == manifest.node
        &&& answers(verify, sealer_key, receipt.body(), receipt.signature, true)
        &&& manifest.paired()
        &&& answers(verify, sealer_key, manifest.body(), manifest.signature, true)
        &&& !manifest.includes(receipt)
    } else {
        ||| receipt.slot != manifest.slot
        ||| receipt.node != manifest.node
        ||| answers(verify, sealer_key, receipt.body(), receipt.signature, false)
        ||| !manifest.paired()
        ||| answers(verify, sealer_key, manifest.body(), manifest.signature, false)
        ||| manifest.includes(receipt)
    }
}

/// Whether a sealer acknowledged a frame and then signed a batch without it.
pub fn prove_omission<V: Fn(&VerifyingKey, &Vec<u8>, &Signature) -> bool>(
    receipt: &AdmissionReceipt,
    manifest: &BatchManifest,
    sealer_key: &VerifyingKey,
    verify: &V,
) -> (r: bool)
    requires
        can_verify(*verify),
    ensures
        omission_judged(*verify, *sealer_key, receipt@, manifest@, r),
{
    receipt.slot == manifest.slot && receipt.node == manifest.node && receipt.verify(sealer_key, verify)
        && manifest.verify(sealer_key, verify) && !manifest.includes(receipt)
}

} // verus!
