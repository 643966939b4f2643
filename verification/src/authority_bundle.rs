//! The pre-trade authority bundle and its exchanged form.
//!
//! The bundle is made before a request is evaluated. It carries the signed
//! mandates of the Makers and Takers with their anonymous identity proofs, the
//! certified admissions of the slot, and the verifier that settlements are held to.

use vstd::prelude::*;
use vstd::string::StrSliceExecFns;
use crate::application_crypto::{can_verify, Signature, VerifyingKey};
use crate::authority_admission::{
    admission_from_wire, admission_read, admission_unread, admission_wire, can_package, can_validate,
    settlement_verifier_from_wire, settlement_verifier_wire, verifier_read, verifier_refused, verifier_unread,
    verifier_written, PretradeAdmission, PretradeSettlementVerifier, WireAdmission, WireSettlementVerifier,
    AUTHORITY_VERSION,
};
use crate::authority_parts::{
    copy_text, raw_refusal, read_raw, KybPresentation, SignedCohortRegistry, SignedMakerMandate, SignedTakerMandate,
    WireMakerMandate, WirePresentation, WireRegistry, WireTakerMandate,
};
use crate::bytes::{is_zero32, zero32};
use crate::fields::{either, unless};
use crate::group::Scalar;
use crate::oracle::{decides, judges, objected};
use crate::pretrade::{nonzero, zero_refusal, MAX_AUTHORITIES};
use crate::pretrade_wire::{hex_text_refusal, parse32, scalar, scalar_text_refusal};
use crate::text::{hex_bytes, hex_encode, hex_round_trip, hex_text};

verus! {

/// The opening of a reservation, where the bundle stands in for its owner's wallet.
#[derive(Clone, Copy, Debug)]
pub struct AcceptanceOpening {
    pub amount: u64,
    pub blinding: Scalar,
}

/// The exchanged form of an opening.
#[derive(Debug)]
pub struct WireOpening {
    pub amount: u64,
    pub blinding: String,
}

/// What a Maker allows before a trade.
#[derive(Debug)]
pub struct MakerPretradeAuthority {
    pub maker_index: u16,
    pub mandate: SignedMakerMandate,
    pub identity_context: Vec<u8>,
    pub presentation: KybPresentation,
    pub acceptance_opening: AcceptanceOpening,
}

/// The exchanged form of what a Maker allows.
#[derive(Debug)]
pub struct WireMakerAuthority {
    pub maker_index: u16,
    pub mandate: WireMakerMandate,
    pub identity_context: String,
    pub presentation: WirePresentation,
    pub acceptance_opening: WireOpening,
}

impl WireMakerAuthority {
    /// Whether this is the exchanged form of an authority.
    pub open spec fn writes(self, value: MakerPretradeAuthority) -> bool {
        &&& self.maker_index == value.maker_index
        &&& self.mandate.writes(value.mandate)
        &&& self.identity_context@ == hex_text(value.identity_context@)
        &&& self.presentation.writes(value.presentation)
        &&& self.acceptance_opening.amount == value.acceptance_opening.amount
        &&& self.acceptance_opening.blinding@ == hex_text(value.acceptance_opening.blinding@)
    }

    /// Whether an authority is the one that is exchanged.
    pub open spec fn says(self, value: MakerPretradeAuthority) -> bool {
        &&& self.maker_index == value.maker_index
        &&& self.mandate.says(value.mandate)
        &&& value.identity_context@ == hex_bytes(self.identity_context@)
        &&& self.presentation.says(value.presentation)
        &&& self.acceptance_opening.amount == value.acceptance_opening.amount
        &&& value.acceptance_opening.blinding@ == hex_bytes(self.acceptance_opening.blinding@)
    }

    /// The exchanged form of an authority.
    pub fn from_value(value: &MakerPretradeAuthority) -> (wire: WireMakerAuthority)
        ensures
            wire.writes(*value),
    {
        WireMakerAuthority {
            maker_index: value.maker_index,
            mandate: WireMakerMandate::from_value(&value.mandate),
            identity_context: hex_encode(value.identity_context.as_slice()),
            presentation: WirePresentation::from_value(&value.presentation),
            acceptance_opening: WireOpening {
                amount: value.acceptance_opening.amount,
                blinding: hex_encode(value.acceptance_opening.blinding.bytes.as_slice()),
            },
        }
    }

    /// Why the parts behind the mandate are refused.
    pub open spec fn rest_refusal(self) -> Option<Seq<char>> {
        either(
            raw_refusal(self.identity_context@, "Maker identity context is malformed"@),
            either(
                self.presentation.refusal(),
                scalar_text_refusal(self.acceptance_opening.blinding@, "Maker reservation blinding"@),
            ),
        )
    }
}

/// Whether a mandate may be judged so, where the mandate is the one that is exchanged.
pub open spec fn maker_told<M: Fn(&SignedMakerMandate) -> Result<(), String>>(
    judge: M,
    wire: WireMakerMandate,
    objection: Option<Seq<char>>,
) -> bool {
    exists|mandate: SignedMakerMandate, outcome: Result<(), String>|
        wire.says(mandate) && objected(outcome) == objection && #[trigger] call_ensures(judge, (&mandate,), outcome)
}

/// Whether an authority repeats one before it.
pub open spec fn maker_repeated(wires: Seq<WireMakerAuthority>, at: int) -> bool {
    exists|i: int|
        0 <= i < at && (#[trigger] wires[i]).maker_index == wires[at].maker_index
            && wires[i].mandate.direction == wires[at].mandate.direction
}

/// Why an authority is refused, where `told` is what its mandate was judged.
pub open spec fn maker_refusal<J: Fn(&Vec<u8>) -> Result<(), String>>(
    wires: Seq<WireMakerAuthority>,
    told: Seq<Option<Seq<char>>>,
    at: int,
    width: nat,
    accepts: J,
) -> Option<Seq<char>> {
    either(
        wires[at].mandate.refusal(width, accepts),
        either(
            told[at],
            either(
                unless(!maker_repeated(wires, at), "pre-trade authority repeats a Maker direction"@),
                wires[at].rest_refusal(),
            ),
        ),
    )
}

/// Whether the first authorities hold: their mandates were judged so, and none is refused.
pub open spec fn makers_hold<J: Fn(&Vec<u8>) -> Result<(), String>, M: Fn(&SignedMakerMandate) -> Result<(), String>>(
    wires: Seq<WireMakerAuthority>,
    told: Seq<Option<Seq<char>>>,
    count: int,
    width: nat,
    accepts: J,
    judge: M,
) -> bool {
    forall|i: int|
        0 <= i < count ==> maker_told(judge, wires[i].mandate, #[trigger] told[i]) && maker_refusal(
            wires,
            told,
            i,
            width,
            accepts,
        ) is None
}

/// Whether the authorities are refused at a place in these words.
pub open spec fn makers_stop<J: Fn(&Vec<u8>) -> Result<(), String>, M: Fn(&SignedMakerMandate) -> Result<(), String>>(
    wires: Seq<WireMakerAuthority>,
    told: Seq<Option<Seq<char>>>,
    at: int,
    width: nat,
    accepts: J,
    judge: M,
    e: Seq<char>,
) -> bool {
    &&& 0 <= at < wires.len()
    &&& makers_hold(wires, told, at, width, accepts, judge)
    &&& (wires[at].mandate.refusal(width, accepts) is None) ==> maker_told(judge, wires[at].mandate, told[at])
    &&& maker_refusal(wires, told, at, width, accepts) == Some(e)
}

/// Whether authorities are read.
pub open spec fn makers_read<J: Fn(&Vec<u8>) -> Result<(), String>, M: Fn(&SignedMakerMandate) -> Result<(), String>>(
    wires: Seq<WireMakerAuthority>,
    width: nat,
    accepts: J,
    judge: M,
) -> bool {
    exists|told: Seq<Option<Seq<char>>>| #[trigger]
        makers_hold(wires, told, wires.len() as int, width, accepts, judge)
}

/// Whether authorities are refused in these words.
pub open spec fn makers_unread<J: Fn(&Vec<u8>) -> Result<(), String>, M: Fn(&SignedMakerMandate) -> Result<(), String>>(
    wires: Seq<WireMakerAuthority>,
    width: nat,
    accepts: J,
    judge: M,
    e: Seq<char>,
) -> bool {
    exists|told: Seq<Option<Seq<char>>>, at: int| #[trigger] makers_stop(wires, told, at, width, accepts, judge, e)
}

/// Whether authorities are those that are exchanged.
pub open spec fn makers_said(wires: Seq<WireMakerAuthority>, values: Seq<MakerPretradeAuthority>) -> bool {
    &&& wires.len() == values.len()
    &&& forall|i: int| 0 <= i < values.len() ==> wires[i].says(#[trigger] values[i])
}

/// Whether authorities are written so.
pub open spec fn makers_written(wires: Seq<WireMakerAuthority>, values: Seq<MakerPretradeAuthority>) -> bool {
    &&& wires.len() == values.len()
    &&& forall|i: int| 0 <= i < wires.len() ==> (#[trigger] wires[i]).writes(values[i])
}

fn repeats_maker(wires: &Vec<WireMakerAuthority>, at: usize) -> (r: bool)
    requires
        at < wires@.len(),
    ensures
        r == maker_repeated(wires@, at as int),
{
    let mut i: usize = 0;
    while i < at
        invariant
            i <= at < wires@.len(),
            forall|j: int|
                0 <= j < i ==> !((#[trigger] wires@[j]).maker_index == wires@[at as int].maker_index
                    && wires@[j].mandate.direction == wires@[at as int].mandate.direction),
        decreases at - i,
    {
        if wires[i].maker_index == wires[at].maker_index && wires[i].mandate.direction == wires[at].mandate.direction {
            return true;
        }
        i = i + 1;
    }
    false
}

/// Reads what every Maker allows. `judge` judges whether a mandate has a signed text.
#[verifier::loop_isolation(false)]
pub fn read_makers<J: Fn(&Vec<u8>) -> Result<(), String>, M: Fn(&SignedMakerMandate) -> Result<(), String>>(
    wires: &Vec<WireMakerAuthority>,
    width: usize,
    accepts: &J,
    judge: &M,
) -> (r: Result<Vec<MakerPretradeAuthority>, String>)
    requires
        judges(*accepts),
        forall|mandate: &SignedMakerMandate| call_requires(*judge, (mandate,)),
    ensures
        match r {
            Ok(values) => makers_read(wires@, width as nat, *accepts, *judge) && makers_said(wires@, values@),
            Err(e) => makers_unread(wires@, width as nat, *accepts, *judge, e@),
        },
{
    let mut values: Vec<MakerPretradeAuthority> = Vec::new();
    let ghost mut told: Seq<Option<Seq<char>>> = Seq::empty();
    let mut i: usize = 0;
    while i < wires.len()
        invariant
            i <= wires@.len(),
            values@.len() == i,
            told.len() == i,
            makers_hold(wires@, told, i as int, width as nat, *accepts, *judge),
            forall|j: int| 0 <= j < i ==> wires@[j].says(#[trigger] values@[j]),
        decreases wires@.len() - i,
    {
        let wire = &wires[i];
        let ghost unasked = told.push(None);
        assert(makers_hold(wires@, unasked, i as int, width as nat, *accepts, *judge)) by {
            assert forall|j: int| 0 <= j < i implies maker_told(*judge, wires@[j].mandate, #[trigger] unasked[j])
                && maker_refusal(wires@, unasked, j, width as nat, *accepts) is None by {
                assert(unasked[j] == told[j]);
            }
        }
        let mandate = match wire.mandate.into_value(width, accepts) {
            Err(e) => {
                assert(makers_stop(wires@, unasked, i as int, width as nat, *accepts, *judge, e@));
                return Err(e);
            },
            Ok(mandate) => mandate,
        };
        let outcome = judge(&mandate);
        let ghost asked = told.push(objected(outcome));
        proof {
            assert(maker_told(*judge, wires@[i as int].mandate, objected(outcome)));
            assert forall|j: int| 0 <= j < i implies maker_told(*judge, wires@[j].mandate, #[trigger] asked[j])
                && maker_refusal(wires@, asked, j, width as nat, *accepts) is None by {
                assert(asked[j] == told[j]);
            }
            assert(makers_hold(wires@, asked, i as int, width as nat, *accepts, *judge));
        }
        if let Err(e) = outcome {
            assert(makers_stop(wires@, asked, i as int, width as nat, *accepts, *judge, e@));
            return Err(e);
        }
        if repeats_maker(wires, i) {
            let complaint = "pre-trade authority repeats a Maker direction".to_owned();
            assert(makers_stop(wires@, asked, i as int, width as nat, *accepts, *judge, complaint@));
            return Err(complaint);
        }
        let identity_context = match read_raw(wire.identity_context.as_str(), "Maker identity context is malformed") {
            Err(e) => {
                assert(makers_stop(wires@, asked, i as int, width as nat, *accepts, *judge, e@));
                return Err(e);
            },
            Ok(v) => v,
        };
        let presentation = match wire.presentation.into_value() {
            Err(e) => {
                assert(makers_stop(wires@, asked, i as int, width as nat, *accepts, *judge, e@));
                return Err(e);
            },
            Ok(v) => v,
        };
        let blinding = match scalar(wire.acceptance_opening.blinding.as_str(), "Maker reservation blinding") {
            Err(e) => {
                assert(makers_stop(wires@, asked, i as int, width as nat, *accepts, *judge, e@));
                return Err(e);
            },
            Ok(v) => v,
        };
        let value = MakerPretradeAuthority {
            maker_index: wire.maker_index,
            mandate,
            identity_context,
            presentation,
            acceptance_opening: AcceptanceOpening { amount: wire.acceptance_opening.amount, blinding },
        };
        assert(wires@[i as int].says(value));
        values.push(value);
        proof {
            told = asked;
            assert(maker_refusal(wires@, told, i as int, width as nat, *accepts) is None);
        }
        i = i + 1;
    }
    Ok(values)
}

fn write_makers(values: &Vec<MakerPretradeAuthority>) -> (wires: Vec<WireMakerAuthority>)
    ensures
        makers_written(wires@, values@),
{
    let mut wires: Vec<WireMakerAuthority> = Vec::new();
    let mut i: usize = 0;
    while i < values.len()
        invariant
            i <= values@.len(),
            wires@.len() == i,
            forall|j: int| 0 <= j < i ==> (#[trigger] wires@[j]).writes(values@[j]),
        decreases values@.len() - i,
    {
        wires.push(WireMakerAuthority::from_value(&values[i]));
        i = i + 1;
    }
    wires
}

/// What a Taker allows before a trade.
#[derive(Debug)]
pub struct TakerPretradeAuthority {
    pub client_index: u16,
    pub mandate: SignedTakerMandate,
    pub identity_context: Vec<u8>,
    pub presentation: KybPresentation,
    pub acceptance_opening: AcceptanceOpening,
}

/// The exchanged form of what a Taker allows.
#[derive(Debug)]
pub struct WireTakerAuthority {
    pub client_index: u16,
    pub mandate: WireTakerMandate,
    pub identity_context: String,
    pub presentation: WirePresentation,
    pub acceptance_opening: WireOpening,
}

impl WireTakerAuthority {
    /// Whether this is the exchanged form of an authority.
    pub open spec fn writes(self, value: TakerPretradeAuthority) -> bool {
        &&& self.client_index == value.client_index
        &&& self.mandate.writes(value.mandate)
        &&& self.identity_context@ == hex_text(value.identity_context@)
        &&& self.presentation.writes(value.presentation)
        &&& self.acceptance_opening.amount == value.acceptance_opening.amount
        &&& self.acceptance_opening.blinding@ == hex_text(value.acceptance_opening.blinding@)
    }

    /// Whether an authority is the one that is exchanged.
    pub open spec fn says(self, value: TakerPretradeAuthority) -> bool {
        &&& self.client_index == value.client_index
        &&& self.mandate.says(value.mandate)
        &&& value.identity_context@ == hex_bytes(self.identity_context@)
        &&& self.presentation.says(value.presentation)
        &&& self.acceptance_opening.amount == value.acceptance_opening.amount
        &&& value.acceptance_opening.blinding@ == hex_bytes(self.acceptance_opening.blinding@)
    }

    /// The exchanged form of an authority.
    pub fn from_value(value: &TakerPretradeAuthority) -> (wire: WireTakerAuthority)
        ensures
            wire.writes(*value),
    {
        WireTakerAuthority {
            client_index: value.client_index,
            mandate: WireTakerMandate::from_value(&value.mandate),
            identity_context: hex_encode(value.identity_context.as_slice()),
            presentation: WirePresentation::from_value(&value.presentation),
            acceptance_opening: WireOpening {
                amount: value.acceptance_opening.amount,
                blinding: hex_encode(value.acceptance_opening.blinding.bytes.as_slice()),
            },
        }
    }

    /// Why the parts behind the mandate are refused.
    pub open spec fn rest_refusal(self) -> Option<Seq<char>> {
        either(
            raw_refusal(self.identity_context@, "Taker identity context is malformed"@),
            either(
                self.presentation.refusal(),
                scalar_text_refusal(self.acceptance_opening.blinding@, "Taker reservation blinding"@),
            ),
        )
    }
}

/// Whether a mandate may be judged so, where the mandate is the one that is exchanged.
pub open spec fn taker_told<T: Fn(&SignedTakerMandate) -> Result<(), String>>(
    judge: T,
    wire: WireTakerMandate,
    objection: Option<Seq<char>>,
) -> bool {
    exists|mandate: SignedTakerMandate, outcome: Result<(), String>|
        wire.says(mandate) && objected(outcome) == objection && #[trigger] call_ensures(judge, (&mandate,), outcome)
}

/// Whether an authority repeats one before it.
pub open spec fn taker_repeated(wires: Seq<WireTakerAuthority>, at: int) -> bool {
    exists|i: int|
        0 <= i < at && (#[trigger] wires[i]).client_index == wires[at].client_index
}

/// Why an authority is refused, where `told` is what its mandate was judged.
pub open spec fn taker_refusal<J: Fn(&Vec<u8>) -> Result<(), String>>(
    wires: Seq<WireTakerAuthority>,
    told: Seq<Option<Seq<char>>>,
    at: int,
    width: nat,
    accepts: J,
) -> Option<Seq<char>> {
    either(
        unless(!taker_repeated(wires, at), "pre-trade authority repeats a Taker client"@),
        either(
            wires[at].mandate.refusal(width, accepts),
            either(
                told[at],
                wires[at].rest_refusal(),
            ),
        ),
    )
}

/// Whether the first authorities hold: their mandates were judged so, and none is refused.
pub open spec fn takers_hold<J: Fn(&Vec<u8>) -> Result<(), String>, T: Fn(&SignedTakerMandate) -> Result<(), String>>(
    wires: Seq<WireTakerAuthority>,
    told: Seq<Option<Seq<char>>>,
    count: int,
    width: nat,
    accepts: J,
    judge: T,
) -> bool {
    forall|i: int|
        0 <= i < count ==> taker_told(judge, wires[i].mandate, #[trigger] told[i]) && taker_refusal(
            wires,
            told,
            i,
            width,
            accepts,
        ) is None
}

/// Whether the authorities are refused at a place in these words.
pub open spec fn takers_stop<J: Fn(&Vec<u8>) -> Result<(), String>, T: Fn(&SignedTakerMandate) -> Result<(), String>>(
    wires: Seq<WireTakerAuthority>,
    told: Seq<Option<Seq<char>>>,
    at: int,
    width: nat,
    accepts: J,
    judge: T,
    e: Seq<char>,
) -> bool {
    &&& 0 <= at < wires.len()
    &&& takers_hold(wires, told, at, width, accepts, judge)
    &&& (!taker_repeated(wires, at) && wires[at].mandate.refusal(width, accepts) is None) ==> taker_told(judge,
        wires[at].mandate, told[at])
    &&& taker_refusal(wires, told, at, width, accepts) == Some(e)
}

/// Whether authorities are read.
pub open spec fn takers_read<J: Fn(&Vec<u8>) -> Result<(), String>, T: Fn(&SignedTakerMandate) -> Result<(), String>>(
    wires: Seq<WireTakerAuthority>,
    width: nat,
    accepts: J,
    judge: T,
) -> bool {
    exists|told: Seq<Option<Seq<char>>>| #[trigger]
        takers_hold(wires, told, wires.len() as int, width, accepts, judge)
}

/// Whether authorities are refused in these words.
pub open spec fn takers_unread<J: Fn(&Vec<u8>) -> Result<(), String>, T: Fn(&SignedTakerMandate) -> Result<(), String>>(
    wires: Seq<WireTakerAuthority>,
    width: nat,
    accepts: J,
    judge: T,
    e: Seq<char>,
) -> bool {
    exists|told: Seq<Option<Seq<char>>>, at: int| #[trigger] takers_stop(wires, told, at, width, accepts, judge, e)
}

/// Whether authorities are those that are exchanged.
pub open spec fn takers_said(wires: Seq<WireTakerAuthority>, values: Seq<TakerPretradeAuthority>) -> bool {
    &&& wires.len() == values.len()
    &&& forall|i: int| 0 <= i < values.len() ==> wires[i].says(#[trigger] values[i])
}

/// Whether authorities are written so.
pub open spec fn takers_written(wires: Seq<WireTakerAuthority>, values: Seq<TakerPretradeAuthority>) -> bool {
    &&& wires.len() == values.len()
    &&& forall|i: int| 0 <= i < wires.len() ==> (#[trigger] wires[i]).writes(values[i])
}

fn repeats_taker(wires: &Vec<WireTakerAuthority>, at: usize) -> (r: bool)
    requires
        at < wires@.len(),
    ensures
        r == taker_repeated(wires@, at as int),
{
    let mut i: usize = 0;
    while i < at
        invariant
            i <= at < wires@.len(),
            forall|j: int|
                0 <= j < i ==> !((#[trigger] wires@[j]).client_index == wires@[at as int].client_index),
        decreases at - i,
    {
        if wires[i].client_index == wires[at].client_index {
            return true;
        }
        i = i + 1;
    }
    false
}

/// Reads what every Taker allows. `judge` judges whether a mandate has a signed text.
#[verifier::loop_isolation(false)]
pub fn read_takers<J: Fn(&Vec<u8>) -> Result<(), String>, T: Fn(&SignedTakerMandate) -> Result<(), String>>(
    wires: &Vec<WireTakerAuthority>,
    width: usize,
    accepts: &J,
    judge: &T,
) -> (r: Result<Vec<TakerPretradeAuthority>, String>)
    requires
        judges(*accepts),
        forall|mandate: &SignedTakerMandate| call_requires(*judge, (mandate,)),
    ensures
        match r {
            Ok(values) => takers_read(wires@, width as nat, *accepts, *judge) && takers_said(wires@, values@),
            Err(e) => takers_unread(wires@, width as nat, *accepts, *judge, e@),
        },
{
    let mut values: Vec<TakerPretradeAuthority> = Vec::new();
    let ghost mut told: Seq<Option<Seq<char>>> = Seq::empty();
    let mut i: usize = 0;
    while i < wires.len()
        invariant
            i <= wires@.len(),
            values@.len() == i,
            told.len() == i,
            takers_hold(wires@, told, i as int, width as nat, *accepts, *judge),
            forall|j: int| 0 <= j < i ==> wires@[j].says(#[trigger] values@[j]),
        decreases wires@.len() - i,
    {
        let wire = &wires[i];
        let ghost unasked = told.push(None);
        assert(takers_hold(wires@, unasked, i as int, width as nat, *accepts, *judge)) by {
            assert forall|j: int| 0 <= j < i implies taker_told(*judge, wires@[j].mandate, #[trigger] unasked[j])
                && taker_refusal(wires@, unasked, j, width as nat, *accepts) is None by {
                assert(unasked[j] == told[j]);
            }
        }
        if repeats_taker(wires, i) {
            let complaint = "pre-trade authority repeats a Taker client".to_owned();
            assert(takers_stop(wires@, unasked, i as int, width as nat, *accepts, *judge, complaint@));
            return Err(complaint);
        }
        let mandate = match wire.mandate.into_value(width, accepts) {
            Err(e) => {
                assert(takers_stop(wires@, unasked, i as int, width as nat, *accepts, *judge, e@));
                return Err(e);
            },
            Ok(mandate) => mandate,
        };
        let outcome = judge(&mandate);
        let ghost asked = told.push(objected(outcome));
        proof {
            assert(taker_told(*judge, wires@[i as int].mandate, objected(outcome)));
            assert forall|j: int| 0 <= j < i implies taker_told(*judge, wires@[j].mandate, #[trigger] asked[j])
                && taker_refusal(wires@, asked, j, width as nat, *accepts) is None by {
                assert(asked[j] == told[j]);
            }
            assert(takers_hold(wires@, asked, i as int, width as nat, *accepts, *judge));
        }
        if let Err(e) = outcome {
            assert(takers_stop(wires@, asked, i as int, width as nat, *accepts, *judge, e@));
            return Err(e);
        }
        let identity_context = match read_raw(wire.identity_context.as_str(), "Taker identity context is malformed") {
            Err(e) => {
                assert(takers_stop(wires@, asked, i as int, width as nat, *accepts, *judge, e@));
                return Err(e);
            },
            Ok(v) => v,
        };
        let presentation = match wire.presentation.into_value() {
            Err(e) => {
                assert(takers_stop(wires@, asked, i as int, width as nat, *accepts, *judge, e@));
                return Err(e);
            },
            Ok(v) => v,
        };
        let blinding = match scalar(wire.acceptance_opening.blinding.as_str(), "Taker reservation blinding") {
            Err(e) => {
                assert(takers_stop(wires@, asked, i as int, width as nat, *accepts, *judge, e@));
                return Err(e);
            },
            Ok(v) => v,
        };
        let value = TakerPretradeAuthority {
            client_index: wire.client_index,
            mandate,
            identity_context,
            presentation,
            acceptance_opening: AcceptanceOpening { amount: wire.acceptance_opening.amount, blinding },
        };
        assert(wires@[i as int].says(value));
        values.push(value);
        proof {
            told = asked;
            assert(taker_refusal(wires@, told, i as int, width as nat, *accepts) is None);
        }
        i = i + 1;
    }
    Ok(values)
}

fn write_takers(values: &Vec<TakerPretradeAuthority>) -> (wires: Vec<WireTakerAuthority>)
    ensures
        takers_written(wires@, values@),
{
    let mut wires: Vec<WireTakerAuthority> = Vec::new();
    let mut i: usize = 0;
    while i < values.len()
        invariant
            i <= values@.len(),
            wires@.len() == i,
            forall|j: int| 0 <= j < i ==> (#[trigger] wires@[j]).writes(values@[j]),
        decreases values@.len() - i,
    {
        wires.push(WireTakerAuthority::from_value(&values[i]));
        i = i + 1;
    }
    wires
}

/// What Makers, Takers and the venue fix before a slot is evaluated.
#[derive(Debug)]
pub struct PretradeAuthorityBundle {
    pub created_at: u64,
    pub venue_id: [u8; 32],
    pub defmi_id: [u8; 32],
    pub traded_asset_id: [u8; 32],
    pub cash_asset_id: [u8; 32],
    pub identity_scope: Vec<u8>,
    pub required_cohort: String,
    /// Who checked the identities, for audit. The digest commits to the signed
    /// assertions: neither subjects nor names of legal entities stand here.
    pub identity_provider: String,
    pub identity_evidence_digest: [u8; 32],
    pub registry: SignedCohortRegistry,
    /// The closed slot, before any lane of it is evaluated.
    pub admission: Option<PretradeAdmission>,
    pub settlement_verifier: PretradeSettlementVerifier,
    pub makers: Vec<MakerPretradeAuthority>,
    pub takers: Vec<TakerPretradeAuthority>,
}

/// The exchanged form of a bundle.
#[derive(Debug)]
pub struct WireAuthorityBundle {
    pub version: u8,
    pub private_pretrade_authority: bool,
    pub acceptance_only_openings: bool,
    pub created_at: u64,
    pub venue_id: String,
    pub defmi_id: String,
    pub traded_asset_id: String,
    pub cash_asset_id: String,
    pub identity_scope: String,
    pub required_cohort: String,
    pub identity_provider: String,
    pub identity_evidence_digest: String,
    pub registry: WireRegistry,
    pub admission: Option<WireAdmission>,
    pub settlement_verifier: WireSettlementVerifier,
    pub makers: Vec<WireMakerAuthority>,
    pub takers: Vec<WireTakerAuthority>,
}

impl PretradeAuthorityBundle {
    /// Why the population or the metadata of a bundle is refused.
    pub open spec fn refusal(self) -> Option<Seq<char>> {
        either(
            unless(
                {
                    &&& self.created_at > 0
                    &&& self.identity_scope@.len() > 0
                    &&& self.required_cohort@.len() > 0
                    &&& self.identity_provider@.len() > 0
                    &&& self.identity_evidence_digest@ != zero32()
                    &&& self.makers@.len() > 0
                    &&& self.takers@.len() > 0
                    &&& self.makers@.len() + self.takers@.len() <= MAX_AUTHORITIES
                },
                "pre-trade authority population or metadata is invalid"@,
            ),
            either(
                zero_refusal(self.venue_id@, "venue"@),
                either(
                    zero_refusal(self.defmi_id@, "DeFMI"@),
                    either(
                        zero_refusal(self.traded_asset_id@, "traded asset"@),
                        zero_refusal(self.cash_asset_id@, "cash asset"@),
                    ),
                ),
            ),
        )
    }

    /// Checks the population and the metadata.
    pub fn check(&self) -> (r: Result<(), String>)
        ensures
            match r {
                Ok(_) => self.refusal() is None,
                Err(e) => self.refusal() == Some(e@),
            },
    {
        if self.created_at == 0 || self.identity_scope.len() == 0 || is_blank(&self.required_cohort) || is_blank(
            &self.identity_provider,
        ) || is_zero32(&self.identity_evidence_digest) || self.makers.len() == 0 || self.takers.len() == 0
            || self.makers.len() > MAX_AUTHORITIES || self.takers.len() > MAX_AUTHORITIES - self.makers.len() {
            return Err("pre-trade authority population or metadata is invalid".to_owned());
        }
        if let Err(e) = nonzero(&self.venue_id, "venue") {
            return Err(e);
        }
        if let Err(e) = nonzero(&self.defmi_id, "DeFMI") {
            return Err(e);
        }
        if let Err(e) = nonzero(&self.traded_asset_id, "traded asset") {
            return Err(e);
        }
        nonzero(&self.cash_asset_id, "cash asset")
    }
}

fn is_blank(text: &String) -> (r: bool)
    ensures
        r == (text@.len() == 0),
{
    let r = text.as_str().unicode_len() == 0;
    r
}

impl WireAuthorityBundle {
    /// Whether the header of an exchanged bundle is the one that is read.
    pub open spec fn headed(self) -> bool {
        &&& self.version == AUTHORITY_VERSION
        &&& self.private_pretrade_authority
        &&& self.acceptance_only_openings
        &&& self.makers@.len() > 0
        &&& self.takers@.len() > 0
        &&& self.makers@.len() + self.takers@.len() <= MAX_AUTHORITIES
    }

    /// Why the texts and the registry of an exchanged bundle are refused.
    pub open spec fn text_refusal<K: Fn(&Vec<u8>) -> bool>(self, issuers: K) -> Option<Seq<char>> {
        either(
            hex_text_refusal(self.venue_id@, "authority venue"@),
            either(
                hex_text_refusal(self.defmi_id@, "authority DeFMI"@),
                either(
                    hex_text_refusal(self.traded_asset_id@, "authority traded asset"@),
                    either(
                        hex_text_refusal(self.cash_asset_id@, "authority cash asset"@),
                        either(
                            raw_refusal(self.identity_scope@, "authority identity scope is malformed"@),
                            either(
                                hex_text_refusal(self.identity_evidence_digest@, "external identity evidence"@),
                                self.registry.refusal(issuers),
                            ),
                        ),
                    ),
                ),
            ),
        )
    }

    /// Whether the plain fields are those of a bundle, written.
    pub open spec fn writes_fields(self, value: PretradeAuthorityBundle) -> bool {
        &&& self.version == AUTHORITY_VERSION
        &&& self.private_pretrade_authority
        &&& self.acceptance_only_openings
        &&& self.created_at == value.created_at
        &&& self.venue_id@ == hex_text(value.venue_id@)
        &&& self.defmi_id@ == hex_text(value.defmi_id@)
        &&& self.traded_asset_id@ == hex_text(value.traded_asset_id@)
        &&& self.cash_asset_id@ == hex_text(value.cash_asset_id@)
        &&& self.identity_scope@ == hex_text(value.identity_scope@)
        &&& self.required_cohort@ == value.required_cohort@
        &&& self.identity_provider@ == value.identity_provider@
        &&& self.identity_evidence_digest@ == hex_text(value.identity_evidence_digest@)
    }

    /// Whether this is the exchanged form of a bundle.
    pub open spec fn writes(self, value: PretradeAuthorityBundle) -> bool {
        &&& self.writes_fields(value)
        &&& self.registry.writes(value.registry)
        &&& match (self.admission, value.admission) {
            (None, None) => true,
            (Some(wire), Some(admission)) => wire.writes(admission),
            _ => false,
        }
        &&& self.settlement_verifier.writes(value.settlement_verifier)
        &&& makers_written(self.makers@, value.makers@)
        &&& takers_written(self.takers@, value.takers@)
    }

    /// Whether a bundle is the one that is exchanged.
    pub open spec fn says(self, value: PretradeAuthorityBundle) -> bool {
        &&& value.created_at == self.created_at
        &&& value.venue_id@ == hex_bytes(self.venue_id@)
        &&& value.defmi_id@ == hex_bytes(self.defmi_id@)
        &&& value.traded_asset_id@ == hex_bytes(self.traded_asset_id@)
        &&& value.cash_asset_id@ == hex_bytes(self.cash_asset_id@)
        &&& value.identity_scope@ == hex_bytes(self.identity_scope@)
        &&& value.required_cohort@ == self.required_cohort@
        &&& value.identity_provider@ == self.identity_provider@
        &&& value.identity_evidence_digest@ == hex_bytes(self.identity_evidence_digest@)
        &&& self.registry.says(value.registry)
        &&& match (self.admission, value.admission) {
            (None, None) => true,
            (Some(wire), Some(admission)) => wire.says(admission),
            _ => false,
        }
        &&& self.settlement_verifier.says(value.settlement_verifier)
        &&& value.settlement_verifier.frost_public@ == hex_bytes(self.settlement_verifier.frost_public@)
        &&& makers_said(self.makers@, value.makers@)
        &&& takers_said(self.takers@, value.takers@)
    }
}

/// Whether the admissions of a bundle are whole, where it has any.
pub open spec fn admission_whole<K: Fn(&Vec<u8>) -> bool, V: Fn(&VerifyingKey, &Vec<u8>, &Signature) -> bool>(
    admission: Option<PretradeAdmission>,
    known: K,
    verify: V,
) -> bool {
    admission matches Some(a) ==> a.whole(known, verify)
}

/// The exchanged form of a bundle. `known` tells the keys that exist, `verify`
/// checks a signature, and `validates` judges a committee against a group.
pub fn authority_wire<
    K: Fn(&Vec<u8>) -> bool,
    V: Fn(&VerifyingKey, &Vec<u8>, &Signature) -> bool,
    C: Fn(&Vec<u8>, &Vec<u8>) -> Result<(), String>,
>(value: &PretradeAuthorityBundle, known: &K, verify: &V, validates: &C) -> (r: Result<WireAuthorityBundle, String>)
    requires
        decides(*known),
        can_verify(*verify),
        can_validate(*validates),
    ensures
        match r {
            Ok(wire) => {
                &&& value.refusal() is None
                &&& admission_whole(value.admission, *known, *verify)
                &&& verifier_written(value.settlement_verifier, *validates)
                &&& wire.writes(*value)
            },
            Err(e) => {
                ||| value.refusal() == Some(e@)
                ||| {
                    &&& value.refusal() is None
                    &&& value.admission matches Some(admission) && admission.refused(*known, *verify, e@)
                }
                ||| {
                    &&& value.refusal() is None
                    &&& admission_whole(value.admission, *known, *verify)
                    &&& verifier_refused(value.settlement_verifier, *validates, e@)
                }
            },
        },
{
    if let Err(e) = value.check() {
        return Err(e);
    }
    let admission = match &value.admission {
        None => None,
        Some(admission) => match admission_wire(admission, known, verify) {
            Err(e) => {
                return Err(e);
            },
            Ok(wire) => Some(wire),
        },
    };
    let settlement_verifier = match settlement_verifier_wire(&value.settlement_verifier, validates) {
        Err(e) => {
            return Err(e);
        },
        Ok(wire) => wire,
    };
    Ok(
        WireAuthorityBundle {
            version: AUTHORITY_VERSION,
            private_pretrade_authority: true,
            acceptance_only_openings: true,
            created_at: value.created_at,
            venue_id: hex_encode(value.venue_id.as_slice()),
            defmi_id: hex_encode(value.defmi_id.as_slice()),
            traded_asset_id: hex_encode(value.traded_asset_id.as_slice()),
            cash_asset_id: hex_encode(value.cash_asset_id.as_slice()),
            identity_scope: hex_encode(value.identity_scope.as_slice()),
            required_cohort: copy_text(&value.required_cohort),
            identity_provider: copy_text(&value.identity_provider),
            identity_evidence_digest: hex_encode(value.identity_evidence_digest.as_slice()),
            registry: WireRegistry::from_value(&value.registry),
            admission,
            settlement_verifier,
            makers: write_makers(&value.makers),
            takers: write_takers(&value.takers),
        },
    )
}

/// How the parts of a bundle are judged that are not judged here.
#[derive(Debug)]
pub struct AuthorityJudges<J, M, T, I, K, V, P, C> {
    /// Judges the bytes of a signature envelope.
    pub accepts: J,
    /// Judges whether the mandate of a Maker has a signed text.
    pub maker: M,
    /// Judges whether the mandate of a Taker has a signed text.
    pub taker: T,
    /// Tells the issuer keys that exist.
    pub issuers: I,
    /// Tells the node keys that exist.
    pub known: K,
    /// Checks a signature.
    pub verify: V,
    /// Reads the package of a group and gives its own form.
    pub package: P,
    /// Judges a committee against the package of a group.
    pub validates: C,
}

impl<
    J: Fn(&Vec<u8>) -> Result<(), String>,
    M: Fn(&SignedMakerMandate) -> Result<(), String>,
    T: Fn(&SignedTakerMandate) -> Result<(), String>,
    I: Fn(&Vec<u8>) -> bool,
    K: Fn(&Vec<u8>) -> bool,
    V: Fn(&VerifyingKey, &Vec<u8>, &Signature) -> bool,
    P: Fn(&Vec<u8>) -> Option<Vec<u8>>,
    C: Fn(&Vec<u8>, &Vec<u8>) -> Result<(), String>,
> AuthorityJudges<J, M, T, I, K, V, P, C> {
    /// Whether everything that has to be judged can be.
    pub open spec fn able(self) -> bool {
        &&& judges(self.accepts)
        &&& forall|mandate: &SignedMakerMandate| call_requires(self.maker, (mandate,))
        &&& forall|mandate: &SignedTakerMandate| call_requires(self.taker, (mandate,))
        &&& decides(self.issuers)
        &&& decides(self.known)
        &&& can_verify(self.verify)
        &&& can_package(self.package)
        &&& can_validate(self.validates)
    }
}

/// Whether an exchanged bundle holds up to its registry.
pub open spec fn authority_begun<
    J: Fn(&Vec<u8>) -> Result<(), String>,
    M: Fn(&SignedMakerMandate) -> Result<(), String>,
    T: Fn(&SignedTakerMandate) -> Result<(), String>,
    I: Fn(&Vec<u8>) -> bool,
    K: Fn(&Vec<u8>) -> bool,
    V: Fn(&VerifyingKey, &Vec<u8>, &Signature) -> bool,
    P: Fn(&Vec<u8>) -> Option<Vec<u8>>,
    C: Fn(&Vec<u8>, &Vec<u8>) -> Result<(), String>,
>(wire: WireAuthorityBundle, width: nat, by: AuthorityJudges<J, M, T, I, K, V, P, C>) -> bool {
    &&& wire.headed()
    &&& makers_read(wire.makers@, width, by.accepts, by.maker)
    &&& takers_read(wire.takers@, width, by.accepts, by.taker)
    &&& wire.text_refusal(by.issuers) is None
}

/// Whether an exchanged bundle is refused up to its registry, in these words.
pub open spec fn authority_not_begun<
    J: Fn(&Vec<u8>) -> Result<(), String>,
    M: Fn(&SignedMakerMandate) -> Result<(), String>,
    T: Fn(&SignedTakerMandate) -> Result<(), String>,
    I: Fn(&Vec<u8>) -> bool,
    K: Fn(&Vec<u8>) -> bool,
    V: Fn(&VerifyingKey, &Vec<u8>, &Signature) -> bool,
    P: Fn(&Vec<u8>) -> Option<Vec<u8>>,
    C: Fn(&Vec<u8>, &Vec<u8>) -> Result<(), String>,
>(wire: WireAuthorityBundle, width: nat, by: AuthorityJudges<J, M, T, I, K, V, P, C>, e: Seq<char>) -> bool {
    ||| !wire.headed() && e == "pre-trade authority header is invalid"@
    ||| wire.headed() && makers_unread(wire.makers@, width, by.accepts, by.maker, e)
    ||| {
        &&& wire.headed()
        &&& makers_read(wire.makers@, width, by.accepts, by.maker)
        &&& takers_unread(wire.takers@, width, by.accepts, by.taker, e)
    }
    ||| {
        &&& wire.headed()
        &&& makers_read(wire.makers@, width, by.accepts, by.maker)
        &&& takers_read(wire.takers@, width, by.accepts, by.taker)
        &&& wire.text_refusal(by.issuers) == Some(e)
    }
}

/// Whether the admissions and the verifier of an exchanged bundle are those of a bundle.
pub open spec fn authority_ended<
    J: Fn(&Vec<u8>) -> Result<(), String>,
    M: Fn(&SignedMakerMandate) -> Result<(), String>,
    T: Fn(&SignedTakerMandate) -> Result<(), String>,
    I: Fn(&Vec<u8>) -> bool,
    K: Fn(&Vec<u8>) -> bool,
    V: Fn(&VerifyingKey, &Vec<u8>, &Signature) -> bool,
    P: Fn(&Vec<u8>) -> Option<Vec<u8>>,
    C: Fn(&Vec<u8>, &Vec<u8>) -> Result<(), String>,
>(wire: WireAuthorityBundle, value: PretradeAuthorityBundle, width: nat, by: AuthorityJudges<J, M, T, I, K, V, P,
    C>) -> bool {
    &&& match (wire.admission, value.admission) {
        (None, None) => true,
        (Some(w), Some(a)) => admission_read(w, a, width, by.accepts, by.known, by.verify),
        _ => false,
    }
    &&& verifier_read(wire.settlement_verifier, value.settlement_verifier, by.package, by.validates)
}

/// Whether a bundle that was read is refused for its metadata, in these words.
pub open spec fn authority_undone<
    J: Fn(&Vec<u8>) -> Result<(), String>,
    M: Fn(&SignedMakerMandate) -> Result<(), String>,
    T: Fn(&SignedTakerMandate) -> Result<(), String>,
    I: Fn(&Vec<u8>) -> bool,
    K: Fn(&Vec<u8>) -> bool,
    V: Fn(&VerifyingKey, &Vec<u8>, &Signature) -> bool,
    P: Fn(&Vec<u8>) -> Option<Vec<u8>>,
    C: Fn(&Vec<u8>, &Vec<u8>) -> Result<(), String>,
>(wire: WireAuthorityBundle, value: PretradeAuthorityBundle, width: nat, by: AuthorityJudges<J, M, T, I, K, V, P, C>,
    e: Seq<char>) -> bool {
    wire.says(value) && authority_ended(wire, value, width, by) && value.refusal() == Some(e)
}

/// Whether the admissions of an exchanged bundle are read, where it has any.
pub open spec fn admission_kept<
    J: Fn(&Vec<u8>) -> Result<(), String>,
    K: Fn(&Vec<u8>) -> bool,
    V: Fn(&VerifyingKey, &Vec<u8>, &Signature) -> bool,
>(wire: Option<WireAdmission>, width: nat, accepts: J, known: K, verify: V) -> bool {
    wire matches Some(w) ==> exists|a: PretradeAdmission| #[trigger] admission_read(w, a, width, accepts, known, verify)
}

/// Reads an exchanged bundle. Signature envelopes are `width` bytes.
pub fn authority_from_wire<
    J: Fn(&Vec<u8>) -> Result<(), String>,
    M: Fn(&SignedMakerMandate) -> Result<(), String>,
    T: Fn(&SignedTakerMandate) -> Result<(), String>,
    I: Fn(&Vec<u8>) -> bool,
    K: Fn(&Vec<u8>) -> bool,
    V: Fn(&VerifyingKey, &Vec<u8>, &Signature) -> bool,
    P: Fn(&Vec<u8>) -> Option<Vec<u8>>,
    C: Fn(&Vec<u8>, &Vec<u8>) -> Result<(), String>,
>(wire: &WireAuthorityBundle, width: usize, by: &AuthorityJudges<J, M, T, I, K, V, P,
    C>) -> (r: Result<PretradeAuthorityBundle, String>)
    requires
        by.able(),
    ensures
        match r {
            Ok(value) => {
                &&& authority_begun(*wire, width as nat, *by)
                &&& authority_ended(*wire, value, width as nat, *by)
                &&& wire.says(value)
                &&& value.refusal() is None
            },
            Err(e) => {
                ||| authority_not_begun(*wire, width as nat, *by, e@)
                ||| {
                    &&& authority_begun(*wire, width as nat, *by)
                    &&& wire.admission matches Some(w) && admission_unread(
                        w,
                        width as nat,
                        by.accepts,
                        by.known,
                        by.verify,
                        e@,
                    )
                }
                ||| {
                    &&& authority_begun(*wire, width as nat, *by)
                    &&& admission_kept(wire.admission, width as nat, by.accepts, by.known, by.verify)
                    &&& verifier_unread(wire.settlement_verifier, by.package, by.validates, e@)
                }
                ||| {
                    &&& authority_begun(*wire, width as nat, *by)
                    &&& exists|value: PretradeAuthorityBundle| #[trigger]
                        authority_undone(*wire, value, width as nat, *by, e@)
                }
            },
        },
{
    if wire.version != AUTHORITY_VERSION || !wire.private_pretrade_authority || !wire.acceptance_only_openings
        || wire.makers.len() == 0 || wire.takers.len() == 0 || wire.makers.len() > MAX_AUTHORITIES || wire.takers.len()
        > MAX_AUTHORITIES - wire.makers.len() {
        return Err("pre-trade authority header is invalid".to_owned());
    }
    let makers = match read_makers(&wire.makers, width, &by.accepts, &by.maker) {
        Err(e) => {
            return Err(e);
        },
        Ok(v) => v,
    };
    let takers = match read_takers(&wire.takers, width, &by.accepts, &by.taker) {
        Err(e) => {
            return Err(e);
        },
        Ok(v) => v,
    };
    let venue_id = match parse32(wire.venue_id.as_str(), "authority venue") {
        Err(e) => {
            return Err(e);
        },
        Ok(v) => v,
    };
    let defmi_id = match parse32(wire.defmi_id.as_str(), "authority DeFMI") {
        Err(e) => {
            return Err(e);
        },
        Ok(v) => v,
    };
    let traded_asset_id = match parse32(wire.traded_asset_id.as_str(), "authority traded asset") {
        Err(e) => {
            return Err(e);
        },
        Ok(v) => v,
    };
    let cash_asset_id = match parse32(wire.cash_asset_id.as_str(), "authority cash asset") {
        Err(e) => {
            return Err(e);
        },
        Ok(v) => v,
    };
    let identity_scope = match read_raw(wire.identity_scope.as_str(), "authority identity scope is malformed") {
        Err(e) => {
            return Err(e);
        },
        Ok(v) => v,
    };
    let identity_evidence_digest = match parse32(wire.identity_evidence_digest.as_str(), "external identity evidence") {
        Err(e) => {
            return Err(e);
        },
        Ok(v) => v,
    };
    let registry = match wire.registry.into_value(&by.issuers) {
        Err(e) => {
            return Err(e);
        },
        Ok(v) => v,
    };
    assert(authority_begun(*wire, width as nat, *by));
    let admission = match &wire.admission {
        None => None,
        Some(w) => match admission_from_wire(w, width, &by.accepts, &by.known, &by.verify) {
            Err(e) => {
                return Err(e);
            },
            Ok(admission) => {
                assert(admission_read(*w, admission, width as nat, by.accepts, by.known, by.verify));
                Some(admission)
            },
        },
    };
    let settlement_verifier = match settlement_verifier_from_wire(&wire.settlement_verifier, &by.package,
        &by.validates) {
        Err(e) => {
            return Err(e);
        },
        Ok(v) => v,
    };
    let value = PretradeAuthorityBundle {
        created_at: wire.created_at,
        venue_id,
        defmi_id,
        traded_asset_id,
        cash_asset_id,
        identity_scope,
        required_cohort: copy_text(&wire.required_cohort),
        identity_provider: copy_text(&wire.identity_provider),
        identity_evidence_digest,
        registry,
        admission,
        settlement_verifier,
        makers,
        takers,
    };
    assert(wire.says(value));
    match value.check() {
        Err(e) => {
            assert(authority_undone(*wire, value, width as nat, *by, e@));
            Err(e)
        },
        Ok(_) => Ok(value),
    }
}

/// The exchanged form of a bundle has the header that is read, and what is read
/// has the fields of the bundle and is not refused.
pub proof fn authority_round_trip(
    value: PretradeAuthorityBundle,
    wire: WireAuthorityBundle,
    read: PretradeAuthorityBundle,
)
    requires
        value.refusal() is None,
        wire.writes(value),
        wire.says(read),
    ensures
        wire.headed(),
        read.refusal() is None,
        read.created_at == value.created_at,
        read.venue_id@ == value.venue_id@,
        read.defmi_id@ == value.defmi_id@,
        read.traded_asset_id@ == value.traded_asset_id@,
        read.cash_asset_id@ == value.cash_asset_id@,
        read.identity_scope@ == value.identity_scope@,
        read.required_cohort@ == value.required_cohort@,
        read.identity_provider@ == value.identity_provider@,
        read.identity_evidence_digest@ == value.identity_evidence_digest@,
        read.settlement_verifier.quote_registry_digest@ == value.settlement_verifier.quote_registry_digest@,
        read.settlement_verifier.frost_public@ == value.settlement_verifier.frost_public@,
        read.settlement_verifier.pq_committee@ == value.settlement_verifier.pq_committee@,
        wire.settlement_verifier.numbers(value.settlement_verifier) && wire.settlement_verifier.numbers(
            read.settlement_verifier,
        ),
        read.makers@.len() == value.makers@.len(),
        read.takers@.len() == value.takers@.len(),
{
    hex_round_trip(value.venue_id@);
    hex_round_trip(value.defmi_id@);
    hex_round_trip(value.traded_asset_id@);
    hex_round_trip(value.cash_asset_id@);
    hex_round_trip(value.identity_scope@);
    hex_round_trip(value.identity_evidence_digest@);
    hex_round_trip(value.settlement_verifier.quote_registry_digest@);
    hex_round_trip(value.settlement_verifier.frost_public@);
}

} // verus!
