//! The exchanged form of a pre-trade acknowledgement.

use vstd::prelude::*;
use crate::application_crypto::Signature;
use crate::bytes::{array32, text_bytes};
use crate::fields::{either, first, first_at, first_none};
use crate::group::{is_point, is_scalar, Point, Scalar};
use crate::oracle::{decides, judge, judges, objection};
use crate::pretrade::{
    acknowledgement_ignores_list_order, by_rank, direction, ranks, repeats, PretradeAcknowledgement,
    PretradeReservationBinding, ReservationParty, ACK_VERSION, MAX_AUTHORITIES,
};
use crate::sorting::{is_stable_order, order_of, stable_order_exists};
use crate::text::{about, hex_bytes, hex_decode, hex_encode, hex_round_trip, hex_text, is_hex};

verus! {

/// Why a text is not the hexadecimal form of thirty-two bytes.
pub open spec fn hex_text_refusal(text: Seq<char>, name: Seq<char>) -> Option<Seq<char>> {
    if !is_hex(text) {
        Some(name + " is not hexadecimal"@)
    } else if hex_bytes(text).len() != 32 {
        Some(name + " is not 32 bytes"@)
    } else {
        None
    }
}

/// Reads thirty-two bytes from their hexadecimal text.
pub fn parse32(value: &str, name: &str) -> (r: Result<[u8; 32], String>)
    ensures
        match r {
            Ok(bytes) => hex_text_refusal(value@, name@) is None && bytes@ == hex_bytes(value@),
            Err(e) => hex_text_refusal(value@, name@) == Some(e@),
        },
{
    match hex_decode(value) {
        None => Err(about(name, " is not hexadecimal")),
        Some(bytes) => if bytes.len() != 32 {
            Err(about(name, " is not 32 bytes"))
        } else {
            assert(bytes@.subrange(0, 32) =~= bytes@);
            Ok(array32(bytes.as_slice(), 0))
        },
    }
}

/// Why a text is not the hexadecimal form of a signature envelope of a width.
pub open spec fn signature_refusal<J: Fn(&Vec<u8>) -> Result<(), String>>(
    text: Seq<char>,
    name: Seq<char>,
    width: nat,
    accepts: J,
) -> Option<Seq<char>> {
    if text_bytes(text).len() != 2 * width {
        Some(name + " requires a v2 hybrid envelope"@)
    } else if !is_hex(text) {
        Some(name + " is not hexadecimal"@)
    } else {
        match objection(accepts, hex_bytes(text)) {
            Some(e) => Some(name + ": "@ + e),
            None => None,
        }
    }
}

/// Reads a signature envelope of `width` bytes from its hexadecimal text.
pub fn parse_signature<J: Fn(&Vec<u8>) -> Result<(), String>>(
    value: &str,
    name: &str,
    width: usize,
    accepts: &J,
) -> (r: Result<Vec<u8>, String>)
    requires
        judges(*accepts),
    ensures
        match r {
            Ok(bytes) => signature_refusal(value@, name@, width as nat, *accepts) is None && bytes@ == hex_bytes(
                value@,
            ),
            Err(e) => signature_refusal(value@, name@, width as nat, *accepts) == Some(e@),
        },
{
    let length = value.as_bytes().len();
    if length % 2 != 0 || length / 2 != width {
        return Err(about(name, " requires a v2 hybrid envelope"));
    }
    let bytes = match hex_decode(value) {
        None => {
            return Err(about(name, " is not hexadecimal"));
        },
        Some(bytes) => bytes,
    };
    match judge(accepts, &bytes) {
        Err(e) => {
            let head = about(name, ": ");
            Err(about(head.as_str(), e.as_str()))
        },
        Ok(_) => Ok(bytes),
    }
}

/// Why a text is not a point.
pub open spec fn point_text_refusal(text: Seq<char>, name: Seq<char>) -> Option<Seq<char>> {
    either(
        hex_text_refusal(text, name),
        if is_point(hex_bytes(text)) {
            None
        } else {
            Some(name + " is not a canonical Ristretto point"@)
        },
    )
}

/// Reads a point from its hexadecimal text.
pub fn point(value: &str, name: &str) -> (r: Result<Point, String>)
    ensures
        match r {
            Ok(point) => point_text_refusal(value@, name@) is None && point.bytes@ == hex_bytes(value@),
            Err(e) => point_text_refusal(value@, name@) == Some(e@),
        },
{
    let bytes = match parse32(value, name) {
        Err(e) => {
            return Err(e);
        },
        Ok(bytes) => bytes,
    };
    match Point::from_canonical(bytes) {
        None => Err(about(name, " is not a canonical Ristretto point")),
        Some(point) => Ok(point),
    }
}

/// Why a text is not a scalar.
pub open spec fn scalar_text_refusal(text: Seq<char>, name: Seq<char>) -> Option<Seq<char>> {
    either(
        hex_text_refusal(text, name),
        if is_scalar(hex_bytes(text)) {
            None
        } else {
            Some(name + " is not a canonical scalar"@)
        },
    )
}

/// Reads a scalar from its hexadecimal text.
pub fn scalar(value: &str, name: &str) -> (r: Result<Scalar, String>)
    ensures
        match r {
            Ok(scalar) => scalar_text_refusal(value@, name@) is None && scalar.bytes@ == hex_bytes(value@),
            Err(e) => scalar_text_refusal(value@, name@) == Some(e@),
        },
{
    let bytes = match parse32(value, name) {
        Err(e) => {
            return Err(e);
        },
        Ok(bytes) => bytes,
    };
    match Scalar::from_canonical(bytes) {
        None => Err(about(name, " is not a canonical scalar")),
        Some(scalar) => Ok(scalar),
    }
}

/// The exchanged form of a binding.
#[derive(Debug)]
pub struct WireBinding {
    pub party: u8,
    pub owner_index: u16,
    pub direction: u8,
    pub owner_handle: String,
    pub facility_id: String,
    pub reserve_id: String,
    pub mandate_digest: String,
    pub policy_digest: String,
    pub amount_commitment: String,
    pub reserve_receipt_digest: String,
}

/// The exchanged form of an acknowledgement.
#[derive(Debug)]
pub struct WireAck {
    pub version: u8,
    pub private_pretrade_ack: bool,
    pub authority_digest: String,
    pub defmi_id: String,
    pub after_state_root: String,
    pub bindings: Vec<WireBinding>,
    pub signer_public: String,
    pub signature: String,
}

impl WireBinding {
    /// Why an exchanged binding is refused.
    pub open spec fn refusal(self) -> Option<Seq<char>> {
        if self.party != 1 && self.party != 2 {
            Some("pre-trade reservation party is invalid"@)
        } else if self.direction != 1 && self.direction != 2 {
            Some("pre-trade direction is invalid"@)
        } else {
            either(
                hex_text_refusal(self.owner_handle@, "reservation owner"@),
                either(
                    hex_text_refusal(self.facility_id@, "reservation facility"@),
                    either(
                        hex_text_refusal(self.reserve_id@, "reservation id"@),
                        either(
                            hex_text_refusal(self.mandate_digest@, "reservation mandate"@),
                            either(
                                hex_text_refusal(self.policy_digest@, "reservation policy"@),
                                either(
                                    hex_text_refusal(self.amount_commitment@, "reservation amount"@),
                                    hex_text_refusal(self.reserve_receipt_digest@, "reservation receipt"@),
                                ),
                            ),
                        ),
                    ),
                ),
            )
        }
    }

    /// Whether a binding is the one that is exchanged.
    pub open spec fn says(self, binding: PretradeReservationBinding) -> bool {
        &&& self.party == binding.party.code()
        &&& self.owner_index == binding.owner_index
        &&& self.direction == binding.direction.code()
        &&& binding.owner_handle@ == hex_bytes(self.owner_handle@)
        &&& binding.facility_id@ == hex_bytes(self.facility_id@)
        &&& binding.reserve_id@ == hex_bytes(self.reserve_id@)
        &&& binding.mandate_digest@ == hex_bytes(self.mandate_digest@)
        &&& binding.policy_digest@ == hex_bytes(self.policy_digest@)
        &&& binding.amount_commitment@ == hex_bytes(self.amount_commitment@)
        &&& binding.reserve_receipt_digest@ == hex_bytes(self.reserve_receipt_digest@)
    }

    /// Whether this is the exchanged form of a binding.
    pub open spec fn writes(self, binding: PretradeReservationBinding) -> bool {
        &&& self.party == binding.party.code()
        &&& self.owner_index == binding.owner_index
        &&& self.direction == binding.direction.code()
        &&& self.owner_handle@ == hex_text(binding.owner_handle@)
        &&& self.facility_id@ == hex_text(binding.facility_id@)
        &&& self.reserve_id@ == hex_text(binding.reserve_id@)
        &&& self.mandate_digest@ == hex_text(binding.mandate_digest@)
        &&& self.policy_digest@ == hex_text(binding.policy_digest@)
        &&& self.amount_commitment@ == hex_text(binding.amount_commitment@)
        &&& self.reserve_receipt_digest@ == hex_text(binding.reserve_receipt_digest@)
    }

    fn into_value(&self) -> (r: Result<PretradeReservationBinding, String>)
        ensures
            match r {
                Ok(binding) => self.refusal() is None && self.says(binding),
                Err(e) => self.refusal() == Some(e@),
            },
    {
        let party = match ReservationParty::try_from(self.party) {
            Err(e) => {
                return Err(e);
            },
            Ok(party) => party,
        };
        let side = match direction(self.direction) {
            Err(e) => {
                return Err(e);
            },
            Ok(side) => side,
        };
        let owner_handle = match parse32(self.owner_handle.as_str(), "reservation owner") {
            Err(e) => {
                return Err(e);
            },
            Ok(bytes) => bytes,
        };
        let facility_id = match parse32(self.facility_id.as_str(), "reservation facility") {
            Err(e) => {
                return Err(e);
            },
            Ok(bytes) => bytes,
        };
        let reserve_id = match parse32(self.reserve_id.as_str(), "reservation id") {
            Err(e) => {
                return Err(e);
            },
            Ok(bytes) => bytes,
        };
        let mandate_digest = match parse32(self.mandate_digest.as_str(), "reservation mandate") {
            Err(e) => {
                return Err(e);
            },
            Ok(bytes) => bytes,
        };
        let policy_digest = match parse32(self.policy_digest.as_str(), "reservation policy") {
            Err(e) => {
                return Err(e);
            },
            Ok(bytes) => bytes,
        };
        let amount_commitment = match parse32(self.amount_commitment.as_str(), "reservation amount") {
            Err(e) => {
                return Err(e);
            },
            Ok(bytes) => bytes,
        };
        let reserve_receipt_digest = match parse32(self.reserve_receipt_digest.as_str(), "reservation receipt") {
            Err(e) => {
                return Err(e);
            },
            Ok(bytes) => bytes,
        };
        Ok(
            PretradeReservationBinding {
                party,
                owner_index: self.owner_index,
                direction: side,
                owner_handle,
                facility_id,
                reserve_id,
                mandate_digest,
                policy_digest,
                amount_commitment,
                reserve_receipt_digest,
            },
        )
    }

    fn from_value(binding: &PretradeReservationBinding) -> (wire: WireBinding)
        ensures
            wire.writes(*binding),
    {
        WireBinding {
            party: binding.party.to_byte(),
            owner_index: binding.owner_index,
            direction: binding.direction.to_byte(),
            owner_handle: hex_encode(binding.owner_handle.as_slice()),
            facility_id: hex_encode(binding.facility_id.as_slice()),
            reserve_id: hex_encode(binding.reserve_id.as_slice()),
            mandate_digest: hex_encode(binding.mandate_digest.as_slice()),
            policy_digest: hex_encode(binding.policy_digest.as_slice()),
            amount_commitment: hex_encode(binding.amount_commitment.as_slice()),
            reserve_receipt_digest: hex_encode(binding.reserve_receipt_digest.as_slice()),
        }
    }
}

impl WireAck {
    /// Why the fields of an exchanged acknowledgement cannot be read.
    pub open spec fn refusal<J: Fn(&Vec<u8>) -> Result<(), String>>(self, width: nat, accepts: J) -> Option<Seq<char>> {
        if self.version != ACK_VERSION || !self.private_pretrade_ack || self.bindings@.len() == 0
            || self.bindings@.len() > MAX_AUTHORITIES {
            Some("pre-trade acknowledgement header is invalid"@)
        } else {
            either(
                hex_text_refusal(self.authority_digest@, "acknowledged authority"@),
                either(
                    hex_text_refusal(self.defmi_id@, "acknowledged DeFMI"@),
                    either(
                        hex_text_refusal(self.after_state_root@, "acknowledged state root"@),
                        either(
                            first(self.bindings@, |w: WireBinding| w.refusal()),
                            either(
                                hex_text_refusal(self.signer_public@, "acknowledgement signer"@),
                                signature_refusal(self.signature@, "acknowledgement signature"@, width, accepts),
                            ),
                        ),
                    ),
                ),
            )
        }
    }

    /// Whether an acknowledgement is the one that is exchanged.
    pub open spec fn says(self, ack: PretradeAcknowledgement) -> bool {
        &&& ack.authority_digest@ == hex_bytes(self.authority_digest@)
        &&& ack.defmi_id@ == hex_bytes(self.defmi_id@)
        &&& ack.after_state_root@ == hex_bytes(self.after_state_root@)
        &&& ack.signer_public@ == hex_bytes(self.signer_public@)
        &&& ack.signature@ == hex_bytes(self.signature@)
        &&& ack.bindings@.len() == self.bindings@.len()
        &&& forall|i: int|
            #![trigger ack.bindings@[i]]
            0 <= i < ack.bindings@.len() ==> self.bindings@[i].says(ack.bindings@[i])
    }

    /// Whether this is the exchanged form of an acknowledgement.
    pub open spec fn writes(self, ack: PretradeAcknowledgement) -> bool {
        &&& self.version == ACK_VERSION
        &&& self.private_pretrade_ack
        &&& self.authority_digest@ == hex_text(ack.authority_digest@)
        &&& self.defmi_id@ == hex_text(ack.defmi_id@)
        &&& self.after_state_root@ == hex_text(ack.after_state_root@)
        &&& self.signer_public@ == hex_text(ack.signer_public@)
        &&& self.signature@ == hex_text(ack.signature@)
        &&& self.bindings@.len() == ack.bindings@.len()
        &&& by_rank(ack.bindings@).len() == ack.bindings@.len()
        &&& forall|i: int|
            #![trigger self.bindings@[i]]
            0 <= i < self.bindings@.len() ==> self.bindings@[i].writes(by_rank(ack.bindings@)[i])
    }
}

/// The exchanged form of an acknowledgement that can be signed.
pub fn ack_wire<K: Fn(&Vec<u8>) -> bool>(value: &PretradeAcknowledgement, known: &K) -> (r: Result<WireAck, String>)
    requires
        decides(*known),
    ensures
        match r {
            Ok(wire) => value.refusal(*known) is None && wire.writes(*value),
            Err(e) => value.refusal(*known) == Some(e@),
        },
{
    if let Err(e) = value.unsigned(known) {
        return Err(e);
    }
    let sorted = match value.sorted_bindings() {
        Err(e) => {
            return Err(e);
        },
        Ok(sorted) => sorted,
    };
    let mut bindings: Vec<WireBinding> = Vec::new();
    let mut i: usize = 0;
    while i < sorted.len()
        invariant
            i <= sorted@.len(),
            bindings@.len() == i,
            forall|j: int| #![trigger bindings@[j]] 0 <= j < i ==> bindings@[j].writes(sorted@[j]),
        decreases sorted@.len() - i,
    {
        bindings.push(WireBinding::from_value(&sorted[i]));
        i = i + 1;
    }
    Ok(
        WireAck {
            version: ACK_VERSION,
            private_pretrade_ack: true,
            authority_digest: hex_encode(value.authority_digest.as_slice()),
            defmi_id: hex_encode(value.defmi_id.as_slice()),
            after_state_root: hex_encode(value.after_state_root.as_slice()),
            bindings,
            signer_public: hex_encode(value.signer_public.as_slice()),
            signature: hex_encode(value.signature.bytes.as_slice()),
        },
    )
}

/// Reads an exchanged acknowledgement. Signature envelopes are `width` bytes.
#[verifier::loop_isolation(false)]
pub fn ack_from_wire<K: Fn(&Vec<u8>) -> bool, J: Fn(&Vec<u8>) -> Result<(), String>>(
    value: &WireAck,
    width: usize,
    known: &K,
    accepts: &J,
) -> (r: Result<PretradeAcknowledgement, String>)
    requires
        decides(*known),
        judges(*accepts),
    ensures
        match r {
            Ok(ack) => {
                &&& value.refusal(width as nat, *accepts) is None
                &&& value.says(ack)
                &&& ack.refusal(*known) is None
            },
            Err(e) => value.refusal(width as nat, *accepts) == Some(e@)
                || (value.refusal(width as nat, *accepts) is None
                && exists|ack: PretradeAcknowledgement| #[trigger]
                value.says(ack) && ack.refusal(*known) == Some(e@)),
        },
{
    if value.version != ACK_VERSION || !value.private_pretrade_ack || value.bindings.len() == 0
        || value.bindings.len() > MAX_AUTHORITIES {
        return Err("pre-trade acknowledgement header is invalid".to_owned());
    }
    let authority_digest = match parse32(value.authority_digest.as_str(), "acknowledged authority") {
        Err(e) => {
            return Err(e);
        },
        Ok(bytes) => bytes,
    };
    let defmi_id = match parse32(value.defmi_id.as_str(), "acknowledged DeFMI") {
        Err(e) => {
            return Err(e);
        },
        Ok(bytes) => bytes,
    };
    let after_state_root = match parse32(value.after_state_root.as_str(), "acknowledged state root") {
        Err(e) => {
            return Err(e);
        },
        Ok(bytes) => bytes,
    };
    let ghost check = |w: WireBinding| w.refusal();
    let mut bindings: Vec<PretradeReservationBinding> = Vec::new();
    let mut i: usize = 0;
    assert(value.bindings@.take(0) =~= Seq::empty());
    while i < value.bindings.len()
        invariant
            i <= value.bindings@.len(),
            bindings@.len() == i,
            first(value.bindings@.take(i as int), check) is None,
            forall|j: int| #![trigger bindings@[j]] 0 <= j < i ==> value.bindings@[j].says(bindings@[j]),
        decreases value.bindings@.len() - i,
    {
        let read = value.bindings[i].into_value();
        proof {
            first_at(value.bindings@, check, i as int);
        }
        match read {
            Err(e) => {
                return Err(e);
            },
            Ok(binding) => {
                bindings.push(binding);
            },
        }
        i = i + 1;
    }
    assert(value.bindings@.take(i as int) =~= value.bindings@);
    let signer_public = match parse32(value.signer_public.as_str(), "acknowledgement signer") {
        Err(e) => {
            return Err(e);
        },
        Ok(bytes) => bytes,
    };
    let raw = match parse_signature(value.signature.as_str(), "acknowledgement signature", width, accepts) {
        Err(e) => {
            return Err(e);
        },
        Ok(raw) => raw,
    };
    let ack = PretradeAcknowledgement {
        authority_digest,
        defmi_id,
        after_state_root,
        bindings,
        signer_public,
        signature: Signature { bytes: raw },
    };
    assert(value.says(ack));
    match ack.unsigned(known) {
        Err(e) => Err(e),
        Ok(_) => Ok(ack),
    }
}

/// A list in the signed order stays as it is when it is sorted again.
proof fn sorted_twice(bindings: Seq<PretradeReservationBinding>)
    requires
        bindings.len() <= MAX_AUTHORITIES,
        !repeats(bindings),
    ensures
        by_rank(by_rank(bindings)) == by_rank(bindings),
        by_rank(bindings).len() == bindings.len(),
        !repeats(by_rank(bindings)),
{
    let keys = ranks(bindings);
    stable_order_exists(keys);
    let order = order_of(keys);
    assert(is_stable_order(keys, order));
    acknowledgement_ignores_list_order(bindings, order);
    let sorted = by_rank(bindings);
    assert forall|i: int, j: int| 0 <= i < j < sorted.len() implies (#[trigger] sorted[i]).rank() != (
    #[trigger] sorted[j]).rank() by {
        let a = order[i] as int;
        let b = order[j] as int;
        assert(a != b);
        if a < b {
            assert(bindings[a].rank() != bindings[b].rank());
        } else {
            assert(bindings[b].rank() != bindings[a].rank());
        }
    }
}

/// Reading the exchanged form of an acknowledgement gives it back, with its
/// bindings in the order in which they are signed.
pub proof fn acknowledgement_wire_round_trip<K: Fn(&Vec<u8>) -> bool, J: Fn(&Vec<u8>) -> Result<(), String>>(
    ack: PretradeAcknowledgement,
    wire: WireAck,
    read: PretradeAcknowledgement,
    width: nat,
    known: K,
    accepts: J,
)
    requires
        ack.refusal(known) is None,
        ack.signature@.len() == width,
        objection(accepts, ack.signature@) is None,
        wire.writes(ack),
        wire.says(read),
    ensures
        wire.refusal(width, accepts) is None,
        read.refusal(known) is None,
        read.authority_digest@ == ack.authority_digest@,
        read.defmi_id@ == ack.defmi_id@,
        read.after_state_root@ == ack.after_state_root@,
        read.signer_public@ == ack.signer_public@,
        read.signature@ == ack.signature@,
        read.bindings@ == by_rank(ack.bindings@),
        read.body() == ack.body(),
{
    hex_round_trip(ack.authority_digest@);
    hex_round_trip(ack.defmi_id@);
    hex_round_trip(ack.after_state_root@);
    hex_round_trip(ack.signer_public@);
    hex_round_trip(ack.signature@);
    hex_is_ascii(ack.signature@);
    let sorted = by_rank(ack.bindings@);
    sorted_twice(ack.bindings@);
    assert forall|i: int| 0 <= i < read.bindings@.len() implies {
        &&& #[trigger] read.bindings@[i] == sorted[i]
        &&& wire.bindings@[i].refusal() is None
    } by {
        let w = wire.bindings@[i];
        let b = sorted[i];
        let c = read.bindings@[i];
        assert(w.writes(b) && w.says(c));
        hex_round_trip(b.owner_handle@);
        hex_round_trip(b.facility_id@);
        hex_round_trip(b.reserve_id@);
        hex_round_trip(b.mandate_digest@);
        hex_round_trip(b.policy_digest@);
        hex_round_trip(b.amount_commitment@);
        hex_round_trip(b.reserve_receipt_digest@);
        assert(c.owner_handle =~= b.owner_handle);
        assert(c.facility_id =~= b.facility_id);
        assert(c.reserve_id =~= b.reserve_id);
        assert(c.mandate_digest =~= b.mandate_digest);
        assert(c.policy_digest =~= b.policy_digest);
        assert(c.amount_commitment =~= b.amount_commitment);
        assert(c.reserve_receipt_digest =~= b.reserve_receipt_digest);
    }
    assert(read.bindings@ =~= sorted);
    let check = |w: WireBinding| w.refusal();
    assert forall|i: int| 0 <= i < wire.bindings@.len() implies check(#[trigger] wire.bindings@[i]) is None by {
        assert(read.bindings@[i] == sorted[i]);
    }
    first_none(wire.bindings@, check);
}

/// Hexadecimal text is two bytes for each byte that it stands for.
pub proof fn hex_is_ascii(bytes: Seq<u8>)
    ensures
        text_bytes(hex_text(bytes)).len() == 2 * bytes.len(),
{
    assert(vstd::utf8::is_ascii_chars(hex_text(bytes)));
    crate::bytes::ascii_width(hex_text(bytes));
}

} // verus!
