//! Transport frames as plain values.

use vstd::prelude::*;
use crate::bytes::{be_value, copied};
use crate::decimal::{add_scalars, le_is_be_reversed, scalar_to_decimal, scalar_value};
use crate::group::{decodes_to_scalar, group_order, is_scalar, Scalar};
use crate::sharing::small_scalar;
use crate::text::decimal;

verus! {

/// One fixed-width frame: where it goes, the shares that it carries, and the
/// bytes that stand for it on the wire.
#[derive(Clone, Debug)]
pub struct Frame {
    pub slot: u32,
    pub node: u16,
    pub payload: Vec<u8>,
    pub encoded: Vec<u8>,
}

/// What a frame holds.
pub ghost struct FrameParts {
    pub slot: nat,
    pub node: nat,
    pub payload: Seq<u8>,
    pub encoded: Seq<u8>,
}

impl View for Frame {
    type V = FrameParts;

    open spec fn view(&self) -> FrameParts {
        FrameParts {
            slot: self.slot as nat,
            node: self.node as nat,
            payload: self.payload@,
            encoded: self.encoded@,
        }
    }
}

impl Frame {
    /// The bytes of the frame on the wire.
    pub fn encode(&self) -> (bytes: Vec<u8>)
        ensures
            bytes@ == self@.encoded,
    {
        copied(self.encoded.as_slice())
    }

    /// A copy.
    pub fn copy(&self) -> (frame: Frame)
        ensures
            frame@ == self@,
    {
        Frame {
            slot: self.slot,
            node: self.node,
            payload: copied(self.payload.as_slice()),
            encoded: copied(self.encoded.as_slice()),
        }
    }
}

/// What a list of frames holds.
pub open spec fn frames(values: Seq<Frame>) -> Seq<FrameParts> {
    values.map_values(|f: Frame| f@)
}

/// An element of the scalar field, on the wire as thirty-two big-endian bytes.
#[derive(Clone, Copy, Debug, PartialEq, Eq)]
pub struct FieldElement {
    pub scalar: Scalar,
}

impl View for FieldElement {
    type V = nat;

    open spec fn view(&self) -> nat {
        scalar_value(self.scalar@)
    }
}

fn reversed(bytes: &[u8; 32]) -> (turned: [u8; 32])
    ensures
        turned@ == bytes@.reverse(),
{
    let mut turned: [u8; 32] = [0u8; 32];
    let mut i: usize = 0;
    while i < 32
        invariant
            i <= 32,
            forall|j: int| 0 <= j < i ==> turned@[j] == bytes@[31 - j],
        decreases 32 - i,
    {
        turned[i] = bytes[31 - i];
        i = i + 1;
    }
    assert(turned@ =~= bytes@.reverse());
    turned
}

impl FieldElement {
    /// The element is reduced.
    pub open spec fn reduced(self) -> bool {
        is_scalar(self.scalar@)
    }

    /// The element of a small number.
    pub fn from_u64(value: u64) -> (element: FieldElement)
        ensures
            element.reduced(),
            element@ == value,
    {
        FieldElement { scalar: small_scalar(value) }
    }

    /// The element that thirty-two big-endian bytes write, where the number is reduced.
    pub fn from_be_bytes(bytes: &[u8; 32]) -> (r: Result<FieldElement, String>)
        ensures
            r is Ok <==> be_value(bytes@) < group_order(),
            r matches Ok(element) ==> element.reduced() && element@ == be_value(bytes@),
            r matches Err(e) ==> e@ == "wire field element is not reduced"@,
    {
        let turned = reversed(bytes);
        proof {
            le_is_be_reversed(turned@);
            assert(turned@.reverse() =~= bytes@);
        }
        if decodes_to_scalar(&turned) {
            Ok(FieldElement { scalar: Scalar { bytes: turned } })
        } else {
            Err("wire field element is not reduced".to_owned())
        }
    }

    /// The element as thirty-two big-endian bytes.
    pub fn to_be_bytes(&self) -> (bytes: [u8; 32])
        ensures
            be_value(bytes@) == self@,
    {
        proof {
            le_is_be_reversed(self.scalar.bytes@);
        }
        reversed(&self.scalar.bytes)
    }

    /// The sum, reduced.
    pub fn add_mod(&self, other: &FieldElement) -> (sum: FieldElement)
        requires
            self.reduced(),
            other.reduced(),
        ensures
            sum.reduced(),
            sum@ == (self@ + other@) % group_order(),
    {
        FieldElement { scalar: add_scalars(&self.scalar, &other.scalar) }
    }

    /// The element in decimal.
    pub fn to_decimal(&self) -> (text: String)
        ensures
            text@ == decimal(self@),
    {
        scalar_to_decimal(&self.scalar)
    }
}

} // verus!
