//! The exchanged forms of the parts of a pre-trade authority: the cohort
//! registry, the identity presentations, and the signed mandates.

use vstd::prelude::*;
use vstd::string::StringExecFns;
use crate::application_crypto::Signature;
use crate::fields::{either, unless};
use crate::group::{is_point, is_scalar, Point, Scalar};
use crate::oracle::{ask, decides, judges, objection, yes};
use crate::pretrade::direction;
use crate::pretrade_wire::{
    hex_is_ascii, hex_text_refusal, parse32, parse_signature, point, point_text_refusal, scalar, scalar_text_refusal,
    signature_refusal,
};
use crate::proof_mandate::Direction;
use crate::text::{about, decimal, decimal_text, hex_bytes, hex_decode, hex_encode, hex_round_trip, hex_text, is_hex};

verus! {

/// Why a text is not hexadecimal, in given words.
pub open spec fn raw_refusal(text: Seq<char>, complaint: Seq<char>) -> Option<Seq<char>> {
    unless(is_hex(text), complaint)
}

/// Reads bytes from their hexadecimal text, or complains in given words.
pub fn read_raw(text: &str, complaint: &str) -> (r: Result<Vec<u8>, String>)
    ensures
        match r {
            Ok(bytes) => raw_refusal(text@, complaint@) is None && bytes@ == hex_bytes(text@),
            Err(e) => raw_refusal(text@, complaint@) == Some(e@),
        },
{
    match hex_decode(text) {
        None => Err(complaint.to_owned()),
        Some(bytes) => Ok(bytes),
    }
}

/// The text of a string.
pub fn copy_text(text: &String) -> (copy: String)
    ensures
        copy@ == text@,
{
    text.as_str().to_owned()
}

/// Why one of the first `count` texts is no point. Each is named by its place.
pub open spec fn points_text_refusal(texts: Seq<String>, name: Seq<char>, count: nat) -> Option<Seq<char>>
    decreases count,
{
    if count == 0 {
        None
    } else {
        either(
            points_text_refusal(texts, name, (count - 1) as nat),
            point_text_refusal(texts[count - 1]@, name + decimal((count - 1) as nat)),
        )
    }
}

proof fn points_refused(texts: Seq<String>, name: Seq<char>, few: nat, count: nat)
    requires
        few <= count,
        points_text_refusal(texts, name, few) is Some,
    ensures
        points_text_refusal(texts, name, count) == points_text_refusal(texts, name, few),
    decreases count,
{
    if few < count {
        points_refused(texts, name, few, (count - 1) as nat);
    }
}

/// Whether points are those that texts write.
pub open spec fn points_written(texts: Seq<String>, values: Seq<Point>) -> bool {
    &&& texts.len() == values.len()
    &&& forall|i: int| 0 <= i < values.len() ==> (#[trigger] values[i])@ == hex_bytes(texts[i]@) && is_point(values[i]@)
}

/// Whether texts are the forms of points.
pub open spec fn points_texts(texts: Seq<String>, values: Seq<Point>) -> bool {
    &&& texts.len() == values.len()
    &&& forall|i: int| 0 <= i < values.len() ==> (#[trigger] texts[i])@ == hex_text(values[i]@)
}

/// Reads points from their hexadecimal texts.
pub fn read_points(texts: &Vec<String>, name: &str) -> (r: Result<Vec<Point>, String>)
    ensures
        match r {
            Ok(values) => points_text_refusal(texts@, name@, texts@.len()) is None && points_written(texts@, values@),
            Err(e) => points_text_refusal(texts@, name@, texts@.len()) == Some(e@),
        },
{
    let mut values: Vec<Point> = Vec::new();
    let mut i: usize = 0;
    while i < texts.len()
        invariant
            i <= texts@.len(),
            values@.len() == i,
            points_text_refusal(texts@, name@, i as nat) is None,
            forall|j: int| 0 <= j < i ==> (#[trigger] values@[j])@ == hex_bytes(texts@[j]@) && is_point(values@[j]@),
        decreases texts@.len() - i,
    {
        let label = about(name, decimal_text(i as u64).as_str());
        match point(texts[i].as_str(), label.as_str()) {
            Err(e) => {
                proof {
                    assert(points_text_refusal(texts@, name@, (i + 1) as nat) == Some(e@));
                    points_refused(texts@, name@, (i + 1) as nat, texts@.len());
                }
                return Err(e);
            },
            Ok(value) => {
                assert(value@ == hex_bytes(texts@[i as int]@));
                values.push(value);
            },
        }
        i = i + 1;
    }
    Ok(values)
}

/// The hexadecimal texts of points.
pub fn write_points(values: &Vec<Point>) -> (texts: Vec<String>)
    ensures
        points_texts(texts@, values@),
{
    let mut texts: Vec<String> = Vec::new();
    let mut i: usize = 0;
    while i < values.len()
        invariant
            i <= values@.len(),
            texts@.len() == i,
            forall|j: int| 0 <= j < i ==> (#[trigger] texts@[j])@ == hex_text(values@[j]@),
        decreases values@.len() - i,
    {
        texts.push(hex_encode(values[i].bytes.as_slice()));
        i = i + 1;
    }
    texts
}

/// Points that were written are read back.
pub proof fn points_round_trip(texts: Seq<String>, values: Seq<Point>, name: Seq<char>, count: nat)
    requires
        points_texts(texts, values),
        forall|i: int| 0 <= i < values.len() ==> is_point((#[trigger] values[i])@),
        count <= texts.len(),
    ensures
        points_text_refusal(texts, name, count) is None,
        forall|i: int| 0 <= i < count ==> hex_bytes((#[trigger] texts[i])@) == values[i]@,
    decreases count,
{
    if count > 0 {
        points_round_trip(texts, values, name, (count - 1) as nat);
        hex_round_trip(values[count - 1]@);
        assert(is_point(values[count - 1]@));
        assert(texts[count - 1]@ == hex_text(values[count - 1]@));
    }
}

/// Why one of the first `count` texts is no scalar. Each is named by its place.
pub open spec fn scalars_text_refusal(texts: Seq<String>, name: Seq<char>, count: nat) -> Option<Seq<char>>
    decreases count,
{
    if count == 0 {
        None
    } else {
        either(
            scalars_text_refusal(texts, name, (count - 1) as nat),
            scalar_text_refusal(texts[count - 1]@, name + decimal((count - 1) as nat)),
        )
    }
}

proof fn scalars_refused(texts: Seq<String>, name: Seq<char>, few: nat, count: nat)
    requires
        few <= count,
        scalars_text_refusal(texts, name, few) is Some,
    ensures
        scalars_text_refusal(texts, name, count) == scalars_text_refusal(texts, name, few),
    decreases count,
{
    if few < count {
        scalars_refused(texts, name, few, (count - 1) as nat);
    }
}

/// Whether scalars are those that texts write.
pub open spec fn scalars_written(texts: Seq<String>, values: Seq<Scalar>) -> bool {
    &&& texts.len() == values.len()
    &&& forall|i: int| 0 <= i < values.len() ==> (#[trigger] values[i])@ == hex_bytes(texts[i]@)
        && is_scalar(values[i]@)
}

/// Whether texts are the forms of scalars.
pub open spec fn scalars_texts(texts: Seq<String>, values: Seq<Scalar>) -> bool {
    &&& texts.len() == values.len()
    &&& forall|i: int| 0 <= i < values.len() ==> (#[trigger] texts[i])@ == hex_text(values[i]@)
}

/// Reads scalars from their hexadecimal texts.
pub fn read_scalars(texts: &Vec<String>, name: &str) -> (r: Result<Vec<Scalar>, String>)
    ensures
        match r {
            Ok(values) => scalars_text_refusal(texts@, name@, texts@.len()) is None && scalars_written(texts@, values@),
            Err(e) => scalars_text_refusal(texts@, name@, texts@.len()) == Some(e@),
        },
{
    let mut values: Vec<Scalar> = Vec::new();
    let mut i: usize = 0;
    while i < texts.len()
        invariant
            i <= texts@.len(),
            values@.len() == i,
            scalars_text_refusal(texts@, name@, i as nat) is None,
            forall|j: int| 0 <= j < i ==> (#[trigger] values@[j])@ == hex_bytes(texts@[j]@) && is_scalar(values@[j]@),
        decreases texts@.len() - i,
    {
        let label = about(name, decimal_text(i as u64).as_str());
        match scalar(texts[i].as_str(), label.as_str()) {
            Err(e) => {
                proof {
                    assert(scalars_text_refusal(texts@, name@, (i + 1) as nat) == Some(e@));
                    scalars_refused(texts@, name@, (i + 1) as nat, texts@.len());
                }
                return Err(e);
            },
            Ok(value) => {
                assert(value@ == hex_bytes(texts@[i as int]@));
                values.push(value);
            },
        }
        i = i + 1;
    }
    Ok(values)
}

/// The hexadecimal texts of scalars.
pub fn write_scalars(values: &Vec<Scalar>) -> (texts: Vec<String>)
    ensures
        scalars_texts(texts@, values@),
{
    let mut texts: Vec<String> = Vec::new();
    let mut i: usize = 0;
    while i < values.len()
        invariant
            i <= values@.len(),
            texts@.len() == i,
            forall|j: int| 0 <= j < i ==> (#[trigger] texts@[j])@ == hex_text(values@[j]@),
        decreases values@.len() - i,
    {
        texts.push(hex_encode(values[i].bytes.as_slice()));
        i = i + 1;
    }
    texts
}

/// Scalars that were written are read back.
pub proof fn scalars_round_trip(texts: Seq<String>, values: Seq<Scalar>, name: Seq<char>, count: nat)
    requires
        scalars_texts(texts, values),
        forall|i: int| 0 <= i < values.len() ==> is_scalar((#[trigger] values[i])@),
        count <= texts.len(),
    ensures
        scalars_text_refusal(texts, name, count) is None,
        forall|i: int| 0 <= i < count ==> hex_bytes((#[trigger] texts[i])@) == values[i]@,
    decreases count,
{
    if count > 0 {
        scalars_round_trip(texts, values, name, (count - 1) as nat);
        hex_round_trip(values[count - 1]@);
        assert(is_scalar(values[count - 1]@));
        assert(texts[count - 1]@ == hex_text(values[count - 1]@));
    }
}

/// The signed registry of a cohort.
#[derive(Debug)]
pub struct SignedCohortRegistry {
    pub cohort: String,
    pub registry_epoch: u64,
    pub expires_at: u64,
    pub points: Vec<Point>,
    pub issuer: Vec<u8>,
    pub registry_id: [u8; 32],
    pub signature: Vec<u8>,
}

/// The exchanged form of a registry.
#[derive(Debug)]
pub struct WireRegistry {
    pub cohort: String,
    pub registry_epoch: u64,
    pub expires_at: u64,
    pub points: Vec<String>,
    pub issuer: String,
    pub registry_id: String,
    pub signature: String,
}

impl WireRegistry {
    /// Why an exchanged registry is refused, where `known` tells the issuer keys that exist.
    pub open spec fn refusal<K: Fn(&Vec<u8>) -> bool>(self, known: K) -> Option<Seq<char>> {
        either(
            points_text_refusal(self.points@, "registry point "@, self.points@.len()),
            either(
                raw_refusal(self.issuer@, "malformed registry issuer"@),
                either(
                    unless(yes(known, hex_bytes(self.issuer@)), "registry issuer is malformed"@),
                    either(
                        hex_text_refusal(self.registry_id@, "registry id"@),
                        raw_refusal(self.signature@, "malformed registry signature"@),
                    ),
                ),
            ),
        )
    }

    /// Whether a registry is the one that is exchanged.
    pub open spec fn says(self, registry: SignedCohortRegistry) -> bool {
        &&& registry.cohort@ == self.cohort@
        &&& registry.registry_epoch == self.registry_epoch
        &&& registry.expires_at == self.expires_at
        &&& points_written(self.points@, registry.points@)
        &&& registry.issuer@ == hex_bytes(self.issuer@)
        &&& registry.registry_id@ == hex_bytes(self.registry_id@)
        &&& registry.signature@ == hex_bytes(self.signature@)
    }

    /// Whether this is the exchanged form of a registry.
    pub open spec fn writes(self, registry: SignedCohortRegistry) -> bool {
        &&& registry.cohort@ == self.cohort@
        &&& registry.registry_epoch == self.registry_epoch
        &&& registry.expires_at == self.expires_at
        &&& points_texts(self.points@, registry.points@)
        &&& self.issuer@ == hex_text(registry.issuer@)
        &&& self.registry_id@ == hex_text(registry.registry_id@)
        &&& self.signature@ == hex_text(registry.signature@)
    }

    /// The exchanged form of a registry.
    pub fn from_value(value: &SignedCohortRegistry) -> (wire: WireRegistry)
        ensures
            wire.writes(*value),
    {
        WireRegistry {
            cohort: copy_text(&value.cohort),
            registry_epoch: value.registry_epoch,
            expires_at: value.expires_at,
            points: write_points(&value.points),
            issuer: hex_encode(value.issuer.as_slice()),
            registry_id: hex_encode(value.registry_id.as_slice()),
            signature: hex_encode(value.signature.as_slice()),
        }
    }

    /// Reads an exchanged registry.
    pub fn into_value<K: Fn(&Vec<u8>) -> bool>(&self, known: &K) -> (r: Result<SignedCohortRegistry, String>)
        requires
            decides(*known),
        ensures
            match r {
                Ok(registry) => self.refusal(*known) is None && self.says(registry),
                Err(e) => self.refusal(*known) == Some(e@),
            },
    {
        let points = match read_points(&self.points, "registry point ") {
            Err(e) => {
                return Err(e);
            },
            Ok(v) => v,
        };
        let issuer = match read_raw(self.issuer.as_str(), "malformed registry issuer") {
            Err(e) => {
                return Err(e);
            },
            Ok(v) => v,
        };
        if !ask(known, &issuer) {
            return Err("registry issuer is malformed".to_owned());
        }
        let registry_id = match parse32(self.registry_id.as_str(), "registry id") {
            Err(e) => {
                return Err(e);
            },
            Ok(v) => v,
        };
        let signature = match read_raw(self.signature.as_str(), "malformed registry signature") {
            Err(e) => {
                return Err(e);
            },
            Ok(v) => v,
        };
        Ok(
            SignedCohortRegistry {
                cohort: copy_text(&self.cohort),
                registry_epoch: self.registry_epoch,
                expires_at: self.expires_at,
                points,
                issuer,
                registry_id,
                signature,
            },
        )
    }
}

/// An anonymous proof that a legal entity is a member of a cohort.
#[derive(Debug)]
pub struct KybPresentation {
    pub cohort: String,
    pub registry_id: [u8; 32],
    pub scope: Vec<u8>,
    pub context_hash: [u8; 32],
    pub nullifier: Point,
    pub challenges: Vec<Scalar>,
    pub responses: Vec<Scalar>,
}

/// The exchanged form of a presentation.
#[derive(Debug)]
pub struct WirePresentation {
    pub cohort: String,
    pub registry_id: String,
    pub scope: String,
    pub context_hash: String,
    pub nullifier: String,
    pub challenges: Vec<String>,
    pub responses: Vec<String>,
}

impl WirePresentation {
    /// Why an exchanged presentation is refused.
    pub open spec fn refusal(self) -> Option<Seq<char>> {
        either(
            scalars_text_refusal(self.challenges@, "membership challenge "@, self.challenges@.len()),
            either(
                scalars_text_refusal(self.responses@, "membership response "@, self.responses@.len()),
                either(
                    unless(
                        self.challenges@.len() > 0 && self.challenges@.len() == self.responses@.len(),
                        "membership proof response population is invalid"@,
                    ),
                    either(
                        hex_text_refusal(self.registry_id@, "presentation registry id"@),
                        either(
                            raw_refusal(self.scope@, "presentation scope is malformed"@),
                            either(
                                hex_text_refusal(self.context_hash@, "presentation context"@),
                                point_text_refusal(self.nullifier@, "presentation nullifier"@),
                            ),
                        ),
                    ),
                ),
            ),
        )
    }

    /// Whether a presentation is the one that is exchanged.
    pub open spec fn says(self, presentation: KybPresentation) -> bool {
        &&& presentation.cohort@ == self.cohort@
        &&& presentation.registry_id@ == hex_bytes(self.registry_id@)
        &&& presentation.scope@ == hex_bytes(self.scope@)
        &&& presentation.context_hash@ == hex_bytes(self.context_hash@)
        &&& presentation.nullifier@ == hex_bytes(self.nullifier@)
        &&& scalars_written(self.challenges@, presentation.challenges@)
        &&& scalars_written(self.responses@, presentation.responses@)
    }

    /// Whether this is the exchanged form of a presentation.
    pub open spec fn writes(self, presentation: KybPresentation) -> bool {
        &&& presentation.cohort@ == self.cohort@
        &&& self.registry_id@ == hex_text(presentation.registry_id@)
        &&& self.scope@ == hex_text(presentation.scope@)
        &&& self.context_hash@ == hex_text(presentation.context_hash@)
        &&& self.nullifier@ == hex_text(presentation.nullifier@)
        &&& scalars_texts(self.challenges@, presentation.challenges@)
        &&& scalars_texts(self.responses@, presentation.responses@)
    }

    /// The exchanged form of a presentation.
    pub fn from_value(value: &KybPresentation) -> (wire: WirePresentation)
        ensures
            wire.writes(*value),
    {
        WirePresentation {
            cohort: copy_text(&value.cohort),
            registry_id: hex_encode(value.registry_id.as_slice()),
            scope: hex_encode(value.scope.as_slice()),
            context_hash: hex_encode(value.context_hash.as_slice()),
            nullifier: hex_encode(value.nullifier.bytes.as_slice()),
            challenges: write_scalars(&value.challenges),
            responses: write_scalars(&value.responses),
        }
    }

    /// Reads an exchanged presentation.
    pub fn into_value(&self) -> (r: Result<KybPresentation, String>)
        ensures
            match r {
                Ok(presentation) => self.refusal() is None && self.says(presentation),
                Err(e) => self.refusal() == Some(e@),
            },
    {
        let challenges = match read_scalars(&self.challenges, "membership challenge ") {
            Err(e) => {
                return Err(e);
            },
            Ok(v) => v,
        };
        let responses = match read_scalars(&self.responses, "membership response ") {
            Err(e) => {
                return Err(e);
            },
            Ok(v) => v,
        };
        if challenges.len() == 0 || challenges.len() != responses.len() {
            return Err("membership proof response population is invalid".to_owned());
        }
        let registry_id = match parse32(self.registry_id.as_str(), "presentation registry id") {
            Err(e) => {
                return Err(e);
            },
            Ok(v) => v,
        };
        let scope = match read_raw(self.scope.as_str(), "presentation scope is malformed") {
            Err(e) => {
                return Err(e);
            },
            Ok(v) => v,
        };
        let context_hash = match parse32(self.context_hash.as_str(), "presentation context") {
            Err(e) => {
                return Err(e);
            },
            Ok(v) => v,
        };
        let nullifier = match point(self.nullifier.as_str(), "presentation nullifier") {
            Err(e) => {
                return Err(e);
            },
            Ok(v) => v,
        };
        Ok(
            KybPresentation {
                cohort: copy_text(&self.cohort),
                registry_id,
                scope,
                context_hash,
                nullifier,
                challenges,
                responses,
            },
        )
    }
}

/// The signed mandate of a Maker.
#[derive(Debug)]
pub struct SignedMakerMandate {
    pub venue_id: [u8; 32],
    pub defmi_id: [u8; 32],
    pub policy_digest: [u8; 32],
    pub policy_version: u64,
    pub asset_id: [u8; 32],
    pub direction: Direction,
    pub reserve_id: [u8; 32],
    pub maximum_amount_commitment: [u8; 32],
    pub maker_handle: [u8; 32],
    pub entity_commitment: [u8; 32],
    pub kyb_presentation_digest: [u8; 32],
    pub valid_from: u64,
    pub valid_until: u64,
    pub auto_execute: bool,
    pub maker_public: [u8; 32],
    pub signature: Signature,
}

/// The exchanged form of the mandate of a Maker.
#[derive(Debug)]
pub struct WireMakerMandate {
    pub venue_id: String,
    pub defmi_id: String,
    pub policy_digest: String,
    pub policy_version: u64,
    pub asset_id: String,
    pub direction: u8,
    pub reserve_id: String,
    pub maximum_amount_commitment: String,
    pub maker_handle: String,
    pub entity_commitment: String,
    pub kyb_presentation_digest: String,
    pub valid_from: u64,
    pub valid_until: u64,
    pub auto_execute: bool,
    pub maker_public: String,
    pub signature: String,
}

impl WireMakerMandate {
    /// Why the fields of an exchanged mandate cannot be read.
    pub open spec fn refusal<J: Fn(&Vec<u8>) -> Result<(), String>>(self, width: nat, accepts: J) -> Option<Seq<char>> {
        either(
            hex_text_refusal(self.venue_id@, "Maker venue"@),
            either(
                hex_text_refusal(self.defmi_id@, "Maker DeFMI"@),
                either(
                    hex_text_refusal(self.policy_digest@, "Maker policy"@),
                    either(
                        hex_text_refusal(self.asset_id@, "Maker asset"@),
                        either(
                            unless(self.direction == 1 || self.direction == 2, "pre-trade direction is invalid"@),
                            either(
                                hex_text_refusal(self.reserve_id@, "Maker reserve"@),
                                either(
                                    hex_text_refusal(self.maximum_amount_commitment@, "Maker maximum amount"@),
                                    either(
                                        hex_text_refusal(self.maker_handle@, "Maker handle"@),
                                        either(
                                            hex_text_refusal(self.entity_commitment@, "Maker entity"@),
                                            either(
                                                hex_text_refusal(self.kyb_presentation_digest@,
                                                    "Maker KYB presentation"@),
                                                either(
                                                hex_text_refusal(self.maker_public@, "Maker public key"@),
                                                signature_refusal(self.signature@, "Maker signature"@, width, accepts),
                                                ),
                                            ),
                                        ),
                                    ),
                                ),
                            ),
                        ),
                    ),
                ),
            ),
        )
    }

    /// Whether a mandate is the one that is exchanged.
    pub open spec fn says(self, mandate: SignedMakerMandate) -> bool {
        &&& mandate.venue_id@ == hex_bytes(self.venue_id@)
        &&& mandate.defmi_id@ == hex_bytes(self.defmi_id@)
        &&& mandate.policy_digest@ == hex_bytes(self.policy_digest@)
        &&& mandate.policy_version == self.policy_version
        &&& mandate.asset_id@ == hex_bytes(self.asset_id@)
        &&& mandate.direction.code() == self.direction
        &&& mandate.reserve_id@ == hex_bytes(self.reserve_id@)
        &&& mandate.maximum_amount_commitment@ == hex_bytes(self.maximum_amount_commitment@)
        &&& mandate.maker_handle@ == hex_bytes(self.maker_handle@)
        &&& mandate.entity_commitment@ == hex_bytes(self.entity_commitment@)
        &&& mandate.kyb_presentation_digest@ == hex_bytes(self.kyb_presentation_digest@)
        &&& mandate.valid_from == self.valid_from
        &&& mandate.valid_until == self.valid_until
        &&& mandate.auto_execute == self.auto_execute
        &&& mandate.maker_public@ == hex_bytes(self.maker_public@)
        &&& mandate.signature@ == hex_bytes(self.signature@)
    }

    /// Whether this is the exchanged form of a mandate.
    pub open spec fn writes(self, mandate: SignedMakerMandate) -> bool {
        &&& self.venue_id@ == hex_text(mandate.venue_id@)
        &&& self.defmi_id@ == hex_text(mandate.defmi_id@)
        &&& self.policy_digest@ == hex_text(mandate.policy_digest@)
        &&& mandate.policy_version == self.policy_version
        &&& self.asset_id@ == hex_text(mandate.asset_id@)
        &&& mandate.direction.code() == self.direction
        &&& self.reserve_id@ == hex_text(mandate.reserve_id@)
        &&& self.maximum_amount_commitment@ == hex_text(mandate.maximum_amount_commitment@)
        &&& self.maker_handle@ == hex_text(mandate.maker_handle@)
        &&& self.entity_commitment@ == hex_text(mandate.entity_commitment@)
        &&& self.kyb_presentation_digest@ == hex_text(mandate.kyb_presentation_digest@)
        &&& mandate.valid_from == self.valid_from
        &&& mandate.valid_until == self.valid_until
        &&& mandate.auto_execute == self.auto_execute
        &&& self.maker_public@ == hex_text(mandate.maker_public@)
        &&& self.signature@ == hex_text(mandate.signature@)
    }

    /// The exchanged form of a mandate.
    pub fn from_value(value: &SignedMakerMandate) -> (wire: WireMakerMandate)
        ensures
            wire.writes(*value),
    {
        WireMakerMandate {
            venue_id: hex_encode(value.venue_id.as_slice()),
            defmi_id: hex_encode(value.defmi_id.as_slice()),
            policy_digest: hex_encode(value.policy_digest.as_slice()),
            policy_version: value.policy_version,
            asset_id: hex_encode(value.asset_id.as_slice()),
            direction: value.direction.to_byte(),
            reserve_id: hex_encode(value.reserve_id.as_slice()),
            maximum_amount_commitment: hex_encode(value.maximum_amount_commitment.as_slice()),
            maker_handle: hex_encode(value.maker_handle.as_slice()),
            entity_commitment: hex_encode(value.entity_commitment.as_slice()),
            kyb_presentation_digest: hex_encode(value.kyb_presentation_digest.as_slice()),
            valid_from: value.valid_from,
            valid_until: value.valid_until,
            auto_execute: value.auto_execute,
            maker_public: hex_encode(value.maker_public.as_slice()),
            signature: hex_encode(value.signature.bytes.as_slice()),
        }
    }

    /// Reads the fields of an exchanged mandate. Signature envelopes are `width` bytes.
    pub fn into_value<J: Fn(&Vec<u8>) -> Result<(), String>>(&self, width: usize, accepts: &J) -> (r: Result<
        SignedMakerMandate,
        String,
    >)
        requires
            judges(*accepts),
        ensures
            match r {
                Ok(mandate) => self.refusal(width as nat, *accepts) is None && self.says(mandate),
                Err(e) => self.refusal(width as nat, *accepts) == Some(e@),
            },
    {
        let venue_id = match parse32(self.venue_id.as_str(), "Maker venue") {
            Err(e) => {
                return Err(e);
            },
            Ok(v) => v,
        };
        let defmi_id = match parse32(self.defmi_id.as_str(), "Maker DeFMI") {
            Err(e) => {
                return Err(e);
            },
            Ok(v) => v,
        };
        let policy_digest = match parse32(self.policy_digest.as_str(), "Maker policy") {
            Err(e) => {
                return Err(e);
            },
            Ok(v) => v,
        };
        let asset_id = match parse32(self.asset_id.as_str(), "Maker asset") {
            Err(e) => {
                return Err(e);
            },
            Ok(v) => v,
        };
        let side = match direction(self.direction) {
            Err(e) => {
                return Err(e);
            },
            Ok(v) => v,
        };
        let reserve_id = match parse32(self.reserve_id.as_str(), "Maker reserve") {
            Err(e) => {
                return Err(e);
            },
            Ok(v) => v,
        };
        let maximum_amount_commitment = match parse32(self.maximum_amount_commitment.as_str(), "Maker maximum amount") {
            Err(e) => {
                return Err(e);
            },
            Ok(v) => v,
        };
        let maker_handle = match parse32(self.maker_handle.as_str(), "Maker handle") {
            Err(e) => {
                return Err(e);
            },
            Ok(v) => v,
        };
        let entity_commitment = match parse32(self.entity_commitment.as_str(), "Maker entity") {
            Err(e) => {
                return Err(e);
            },
            Ok(v) => v,
        };
        let kyb_presentation_digest = match parse32(self.kyb_presentation_digest.as_str(), "Maker KYB presentation") {
            Err(e) => {
                return Err(e);
            },
            Ok(v) => v,
        };
        let maker_public = match parse32(self.maker_public.as_str(), "Maker public key") {
            Err(e) => {
                return Err(e);
            },
            Ok(v) => v,
        };
        let raw = match parse_signature(self.signature.as_str(), "Maker signature", width, accepts) {
            Err(e) => {
                return Err(e);
            },
            Ok(v) => v,
        };
        Ok(
            SignedMakerMandate {
                venue_id,
                defmi_id,
                policy_digest,
                policy_version: self.policy_version,
                asset_id,
                direction: side,
                reserve_id,
                maximum_amount_commitment,
                maker_handle,
                entity_commitment,
                kyb_presentation_digest,
                valid_from: self.valid_from,
                valid_until: self.valid_until,
                auto_execute: self.auto_execute,
                maker_public,
                signature: Signature { bytes: raw },
            },
        )
    }
}

/// The exchanged form of a mandate is read back as it was.
pub proof fn maker_mandate_round_trip<J: Fn(&Vec<u8>) -> Result<(), String>>(
    mandate: SignedMakerMandate,
    wire: WireMakerMandate,
    read: SignedMakerMandate,
    width: nat,
    accepts: J,
)
    requires
        wire.writes(mandate),
        wire.says(read),
        mandate.signature@.len() == width,
        objection(accepts, mandate.signature@) is None,
    ensures
        wire.refusal(width, accepts) is None,
        read.venue_id@ == mandate.venue_id@,
        read.defmi_id@ == mandate.defmi_id@,
        read.policy_digest@ == mandate.policy_digest@,
        read.policy_version == mandate.policy_version,
        read.asset_id@ == mandate.asset_id@,
        read.direction == mandate.direction,
        read.reserve_id@ == mandate.reserve_id@,
        read.maximum_amount_commitment@ == mandate.maximum_amount_commitment@,
        read.maker_handle@ == mandate.maker_handle@,
        read.entity_commitment@ == mandate.entity_commitment@,
        read.kyb_presentation_digest@ == mandate.kyb_presentation_digest@,
        read.valid_from == mandate.valid_from,
        read.valid_until == mandate.valid_until,
        read.auto_execute == mandate.auto_execute,
        read.maker_public@ == mandate.maker_public@,
        read.signature@ == mandate.signature@,
{
    hex_round_trip(mandate.venue_id@);
    hex_round_trip(mandate.defmi_id@);
    hex_round_trip(mandate.policy_digest@);
    hex_round_trip(mandate.asset_id@);
    hex_round_trip(mandate.reserve_id@);
    hex_round_trip(mandate.maximum_amount_commitment@);
    hex_round_trip(mandate.maker_handle@);
    hex_round_trip(mandate.entity_commitment@);
    hex_round_trip(mandate.kyb_presentation_digest@);
    hex_round_trip(mandate.maker_public@);
    hex_round_trip(mandate.signature@);
    hex_is_ascii(mandate.signature@);
}

/// The signed mandate of a Taker.
#[derive(Debug)]
pub struct SignedTakerMandate {
    pub venue_id: [u8; 32],
    pub defmi_id: [u8; 32],
    pub rfq_nullifier: [u8; 32],
    pub asset_id: [u8; 32],
    pub reserve_asset_id: [u8; 32],
    pub direction: Direction,
    pub quantity_commitment: [u8; 32],
    pub limit_price_commitment: [u8; 32],
    pub maximum_fee_commitment: [u8; 32],
    pub maximum_amount_commitment: [u8; 32],
    pub reserve_id: [u8; 32],
    pub taker_handle: [u8; 32],
    pub entity_commitment: [u8; 32],
    pub kyb_presentation_digest: [u8; 32],
    pub admission_ticket_id: [u8; 32],
    pub admission_slot: u64,
    pub fill_mask_commitment: [u8; 32],
    pub deadline: u64,
    pub allow_partial: bool,
    pub auto_settle: bool,
    pub taker_public: [u8; 32],
    pub signature: Signature,
}

/// The exchanged form of the mandate of a Taker.
#[derive(Debug)]
pub struct WireTakerMandate {
    pub venue_id: String,
    pub defmi_id: String,
    pub rfq_nullifier: String,
    pub asset_id: String,
    pub reserve_asset_id: String,
    pub direction: u8,
    pub quantity_commitment: String,
    pub limit_price_commitment: String,
    pub maximum_fee_commitment: String,
    pub maximum_amount_commitment: String,
    pub reserve_id: String,
    pub taker_handle: String,
    pub entity_commitment: String,
    pub kyb_presentation_digest: String,
    pub admission_ticket_id: String,
    pub admission_slot: u64,
    pub fill_mask_commitment: String,
    pub deadline: u64,
    pub allow_partial: bool,
    pub auto_settle: bool,
    pub taker_public: String,
    pub signature: String,
}

impl WireTakerMandate {
    /// Why the fields of an exchanged mandate cannot be read.
    pub open spec fn refusal<J: Fn(&Vec<u8>) -> Result<(), String>>(self, width: nat, accepts: J) -> Option<Seq<char>> {
        either(
            hex_text_refusal(self.venue_id@, "Taker venue"@),
            either(
                hex_text_refusal(self.defmi_id@, "Taker DeFMI"@),
                either(
                    hex_text_refusal(self.rfq_nullifier@, "Taker RFQ"@),
                    either(
                        hex_text_refusal(self.asset_id@, "Taker asset"@),
                        either(
                            hex_text_refusal(self.reserve_asset_id@, "Taker reserve asset"@),
                            either(
                                unless(self.direction == 1 || self.direction == 2, "pre-trade direction is invalid"@),
                                either(
                                    hex_text_refusal(self.quantity_commitment@, "Taker quantity"@),
                                    either(
                                        hex_text_refusal(self.limit_price_commitment@, "Taker limit"@),
                                        either(
                                            hex_text_refusal(self.maximum_fee_commitment@, "Taker fee"@),
                                            either(
                                                hex_text_refusal(self.maximum_amount_commitment@,
                                                    "Taker maximum amount"@),
                                                either(
                                                hex_text_refusal(self.reserve_id@, "Taker reserve"@),
                                                either(
                                                hex_text_refusal(self.taker_handle@, "Taker handle"@),
                                                either(
                                                hex_text_refusal(self.entity_commitment@, "Taker entity"@),
                                                either(
                                                hex_text_refusal(self.kyb_presentation_digest@,
                                                    "Taker KYB presentation"@),
                                                either(
                                                hex_text_refusal(self.admission_ticket_id@, "Taker ticket"@),
                                                either(
                                                hex_text_refusal(self.fill_mask_commitment@,
                                                    "Taker fill mask commitment"@),
                                                either(
                                                hex_text_refusal(self.taker_public@, "Taker public key"@),
                                                signature_refusal(self.signature@, "Taker signature"@, width, accepts),
                                                ),
                                                ),
                                                ),
                                                ),
                                                ),
                                                ),
                                                ),
                                            ),
                                        ),
                                    ),
                                ),
                            ),
                        ),
                    ),
                ),
            ),
        )
    }

    /// Whether a mandate is the one that is exchanged.
    pub open spec fn says(self, mandate: SignedTakerMandate) -> bool {
        &&& mandate.venue_id@ == hex_bytes(self.venue_id@)
        &&& mandate.defmi_id@ == hex_bytes(self.defmi_id@)
        &&& mandate.rfq_nullifier@ == hex_bytes(self.rfq_nullifier@)
        &&& mandate.asset_id@ == hex_bytes(self.asset_id@)
        &&& mandate.reserve_asset_id@ == hex_bytes(self.reserve_asset_id@)
        &&& mandate.direction.code() == self.direction
        &&& mandate.quantity_commitment@ == hex_bytes(self.quantity_commitment@)
        &&& mandate.limit_price_commitment@ == hex_bytes(self.limit_price_commitment@)
        &&& mandate.maximum_fee_commitment@ == hex_bytes(self.maximum_fee_commitment@)
        &&& mandate.maximum_amount_commitment@ == hex_bytes(self.maximum_amount_commitment@)
        &&& mandate.reserve_id@ == hex_bytes(self.reserve_id@)
        &&& mandate.taker_handle@ == hex_bytes(self.taker_handle@)
        &&& mandate.entity_commitment@ == hex_bytes(self.entity_commitment@)
        &&& mandate.kyb_presentation_digest@ == hex_bytes(self.kyb_presentation_digest@)
        &&& mandate.admission_ticket_id@ == hex_bytes(self.admission_ticket_id@)
        &&& mandate.admission_slot == self.admission_slot
        &&& mandate.fill_mask_commitment@ == hex_bytes(self.fill_mask_commitment@)
        &&& mandate.deadline == self.deadline
        &&& mandate.allow_partial == self.allow_partial
        &&& mandate.auto_settle == self.auto_settle
        &&& mandate.taker_public@ == hex_bytes(self.taker_public@)
        &&& mandate.signature@ == hex_bytes(self.signature@)
    }

    /// Whether this is the exchanged form of a mandate.
    pub open spec fn writes(self, mandate: SignedTakerMandate) -> bool {
        &&& self.venue_id@ == hex_text(mandate.venue_id@)
        &&& self.defmi_id@ == hex_text(mandate.defmi_id@)
        &&& self.rfq_nullifier@ == hex_text(mandate.rfq_nullifier@)
        &&& self.asset_id@ == hex_text(mandate.asset_id@)
        &&& self.reserve_asset_id@ == hex_text(mandate.reserve_asset_id@)
        &&& mandate.direction.code() == self.direction
        &&& self.quantity_commitment@ == hex_text(mandate.quantity_commitment@)
        &&& self.limit_price_commitment@ == hex_text(mandate.limit_price_commitment@)
        &&& self.maximum_fee_commitment@ == hex_text(mandate.maximum_fee_commitment@)
        &&& self.maximum_amount_commitment@ == hex_text(mandate.maximum_amount_commitment@)
        &&& self.reserve_id@ == hex_text(mandate.reserve_id@)
        &&& self.taker_handle@ == hex_text(mandate.taker_handle@)
        &&& self.entity_commitment@ == hex_text(mandate.entity_commitment@)
        &&& self.kyb_presentation_digest@ == hex_text(mandate.kyb_presentation_digest@)
        &&& self.admission_ticket_id@ == hex_text(mandate.admission_ticket_id@)
        &&& mandate.admission_slot == self.admission_slot
        &&& self.fill_mask_commitment@ == hex_text(mandate.fill_mask_commitment@)
        &&& mandate.deadline == self.deadline
        &&& mandate.allow_partial == self.allow_partial
        &&& mandate.auto_settle == self.auto_settle
        &&& self.taker_public@ == hex_text(mandate.taker_public@)
        &&& self.signature@ == hex_text(mandate.signature@)
    }

    /// The exchanged form of a mandate.
    pub fn from_value(value: &SignedTakerMandate) -> (wire: WireTakerMandate)
        ensures
            wire.writes(*value),
    {
        WireTakerMandate {
            venue_id: hex_encode(value.venue_id.as_slice()),
            defmi_id: hex_encode(value.defmi_id.as_slice()),
            rfq_nullifier: hex_encode(value.rfq_nullifier.as_slice()),
            asset_id: hex_encode(value.asset_id.as_slice()),
            reserve_asset_id: hex_encode(value.reserve_asset_id.as_slice()),
            direction: value.direction.to_byte(),
            quantity_commitment: hex_encode(value.quantity_commitment.as_slice()),
            limit_price_commitment: hex_encode(value.limit_price_commitment.as_slice()),
            maximum_fee_commitment: hex_encode(value.maximum_fee_commitment.as_slice()),
            maximum_amount_commitment: hex_encode(value.maximum_amount_commitment.as_slice()),
            reserve_id: hex_encode(value.reserve_id.as_slice()),
            taker_handle: hex_encode(value.taker_handle.as_slice()),
            entity_commitment: hex_encode(value.entity_commitment.as_slice()),
            kyb_presentation_digest: hex_encode(value.kyb_presentation_digest.as_slice()),
            admission_ticket_id: hex_encode(value.admission_ticket_id.as_slice()),
            admission_slot: value.admission_slot,
            fill_mask_commitment: hex_encode(value.fill_mask_commitment.as_slice()),
            deadline: value.deadline,
            allow_partial: value.allow_partial,
            auto_settle: value.auto_settle,
            taker_public: hex_encode(value.taker_public.as_slice()),
            signature: hex_encode(value.signature.bytes.as_slice()),
        }
    }

    /// Reads the fields of an exchanged mandate. Signature envelopes are `width` bytes.
    pub fn into_value<J: Fn(&Vec<u8>) -> Result<(), String>>(&self, width: usize, accepts: &J) -> (r: Result<
        SignedTakerMandate,
        String,
    >)
        requires
            judges(*accepts),
        ensures
            match r {
                Ok(mandate) => self.refusal(width as nat, *accepts) is None && self.says(mandate),
                Err(e) => self.refusal(width as nat, *accepts) == Some(e@),
            },
    {
        let venue_id = match parse32(self.venue_id.as_str(), "Taker venue") {
            Err(e) => {
                return Err(e);
            },
            Ok(v) => v,
        };
        let defmi_id = match parse32(self.defmi_id.as_str(), "Taker DeFMI") {
            Err(e) => {
                return Err(e);
            },
            Ok(v) => v,
        };
        let rfq_nullifier = match parse32(self.rfq_nullifier.as_str(), "Taker RFQ") {
            Err(e) => {
                return Err(e);
            },
            Ok(v) => v,
        };
        let asset_id = match parse32(self.asset_id.as_str(), "Taker asset") {
            Err(e) => {
                return Err(e);
            },
            Ok(v) => v,
        };
        let reserve_asset_id = match parse32(self.reserve_asset_id.as_str(), "Taker reserve asset") {
            Err(e) => {
                return Err(e);
            },
            Ok(v) => v,
        };
        let side = match direction(self.direction) {
            Err(e) => {
                return Err(e);
            },
            Ok(v) => v,
        };
        let quantity_commitment = match parse32(self.quantity_commitment.as_str(), "Taker quantity") {
            Err(e) => {
                return Err(e);
            },
            Ok(v) => v,
        };
        let limit_price_commitment = match parse32(self.limit_price_commitment.as_str(), "Taker limit") {
            Err(e) => {
                return Err(e);
            },
            Ok(v) => v,
        };
        let maximum_fee_commitment = match parse32(self.maximum_fee_commitment.as_str(), "Taker fee") {
            Err(e) => {
                return Err(e);
            },
            Ok(v) => v,
        };
        let maximum_amount_commitment = match parse32(self.maximum_amount_commitment.as_str(), "Taker maximum amount") {
            Err(e) => {
                return Err(e);
            },
            Ok(v) => v,
        };
        let reserve_id = match parse32(self.reserve_id.as_str(), "Taker reserve") {
            Err(e) => {
                return Err(e);
            },
            Ok(v) => v,
        };
        let taker_handle = match parse32(self.taker_handle.as_str(), "Taker handle") {
            Err(e) => {
                return Err(e);
            },
            Ok(v) => v,
        };
        let entity_commitment = match parse32(self.entity_commitment.as_str(), "Taker entity") {
            Err(e) => {
                return Err(e);
            },
            Ok(v) => v,
        };
        let kyb_presentation_digest = match parse32(self.kyb_presentation_digest.as_str(), "Taker KYB presentation") {
            Err(e) => {
                return Err(e);
            },
            Ok(v) => v,
        };
        let admission_ticket_id = match parse32(self.admission_ticket_id.as_str(), "Taker ticket") {
            Err(e) => {
                return Err(e);
            },
            Ok(v) => v,
        };
        let fill_mask_commitment = match parse32(self.fill_mask_commitment.as_str(), "Taker fill mask commitment") {
            Err(e) => {
                return Err(e);
            },
            Ok(v) => v,
        };
        let taker_public = match parse32(self.taker_public.as_str(), "Taker public key") {
            Err(e) => {
                return Err(e);
            },
            Ok(v) => v,
        };
        let raw = match parse_signature(self.signature.as_str(), "Taker signature", width, accepts) {
            Err(e) => {
                return Err(e);
            },
            Ok(v) => v,
        };
        Ok(
            SignedTakerMandate {
                venue_id,
                defmi_id,
                rfq_nullifier,
                asset_id,
                reserve_asset_id,
                direction: side,
                quantity_commitment,
                limit_price_commitment,
                maximum_fee_commitment,
                maximum_amount_commitment,
                reserve_id,
                taker_handle,
                entity_commitment,
                kyb_presentation_digest,
                admission_ticket_id,
                admission_slot: self.admission_slot,
                fill_mask_commitment,
                deadline: self.deadline,
                allow_partial: self.allow_partial,
                auto_settle: self.auto_settle,
                taker_public,
                signature: Signature { bytes: raw },
            },
        )
    }
}

/// The exchanged form of a mandate is read back as it was.
pub proof fn taker_mandate_round_trip<J: Fn(&Vec<u8>) -> Result<(), String>>(
    mandate: SignedTakerMandate,
    wire: WireTakerMandate,
    read: SignedTakerMandate,
    width: nat,
    accepts: J,
)
    requires
        wire.writes(mandate),
        wire.says(read),
        mandate.signature@.len() == width,
        objection(accepts, mandate.signature@) is None,
    ensures
        wire.refusal(width, accepts) is None,
        read.venue_id@ == mandate.venue_id@,
        read.defmi_id@ == mandate.defmi_id@,
        read.rfq_nullifier@ == mandate.rfq_nullifier@,
        read.asset_id@ == mandate.asset_id@,
        read.reserve_asset_id@ == mandate.reserve_asset_id@,
        read.direction == mandate.direction,
        read.quantity_commitment@ == mandate.quantity_commitment@,
        read.limit_price_commitment@ == mandate.limit_price_commitment@,
        read.maximum_fee_commitment@ == mandate.maximum_fee_commitment@,
        read.maximum_amount_commitment@ == mandate.maximum_amount_commitment@,
        read.reserve_id@ == mandate.reserve_id@,
        read.taker_handle@ == mandate.taker_handle@,
        read.entity_commitment@ == mandate.entity_commitment@,
        read.kyb_presentation_digest@ == mandate.kyb_presentation_digest@,
        read.admission_ticket_id@ == mandate.admission_ticket_id@,
        read.admission_slot == mandate.admission_slot,
        read.fill_mask_commitment@ == mandate.fill_mask_commitment@,
        read.deadline == mandate.deadline,
        read.allow_partial == mandate.allow_partial,
        read.auto_settle == mandate.auto_settle,
        read.taker_public@ == mandate.taker_public@,
        read.signature@ == mandate.signature@,
{
    hex_round_trip(mandate.venue_id@);
    hex_round_trip(mandate.defmi_id@);
    hex_round_trip(mandate.rfq_nullifier@);
    hex_round_trip(mandate.asset_id@);
    hex_round_trip(mandate.reserve_asset_id@);
    hex_round_trip(mandate.quantity_commitment@);
    hex_round_trip(mandate.limit_price_commitment@);
    hex_round_trip(mandate.maximum_fee_commitment@);
    hex_round_trip(mandate.maximum_amount_commitment@);
    hex_round_trip(mandate.reserve_id@);
    hex_round_trip(mandate.taker_handle@);
    hex_round_trip(mandate.entity_commitment@);
    hex_round_trip(mandate.kyb_presentation_digest@);
    hex_round_trip(mandate.admission_ticket_id@);
    hex_round_trip(mandate.fill_mask_commitment@);
    hex_round_trip(mandate.taker_public@);
    hex_round_trip(mandate.signature@);
    hex_is_ascii(mandate.signature@);
}

/// The exchanged form of a registry is read back as it was.
pub proof fn registry_round_trip<K: Fn(&Vec<u8>) -> bool>(
    registry: SignedCohortRegistry,
    wire: WireRegistry,
    read: SignedCohortRegistry,
    known: K,
)
    requires
        wire.writes(registry),
        wire.says(read),
        yes(known, registry.issuer@),
        forall|i: int| 0 <= i < registry.points@.len() ==> is_point((#[trigger] registry.points@[i])@),
    ensures
        wire.refusal(known) is None,
        read.cohort@ == registry.cohort@,
        read.registry_epoch == registry.registry_epoch,
        read.expires_at == registry.expires_at,
        read.points@.len() == registry.points@.len(),
        forall|i: int| 0 <= i < read.points@.len() ==> (#[trigger] read.points@[i])@ == registry.points@[i]@,
        read.issuer@ == registry.issuer@,
        read.registry_id@ == registry.registry_id@,
        read.signature@ == registry.signature@,
{
    points_round_trip(wire.points@, registry.points@, "registry point "@, wire.points@.len());
    hex_round_trip(registry.issuer@);
    hex_round_trip(registry.registry_id@);
    hex_round_trip(registry.signature@);
    assert forall|i: int| 0 <= i < read.points@.len() implies (#[trigger] read.points@[i])@ == registry.points@[i]@ by {
        assert(hex_bytes(wire.points@[i]@) == registry.points@[i]@);
    }
}

/// The exchanged form of a presentation is read back as it was.
pub proof fn presentation_round_trip(presentation: KybPresentation, wire: WirePresentation, read: KybPresentation)
    requires
        wire.writes(presentation),
        wire.says(read),
        is_point(presentation.nullifier@),
        0 < presentation.challenges@.len() == presentation.responses@.len(),
        forall|i: int| 0 <= i < presentation.challenges@.len() ==> is_scalar((#[trigger] presentation.challenges@[i])@),
        forall|i: int| 0 <= i < presentation.responses@.len() ==> is_scalar((#[trigger] presentation.responses@[i])@),
    ensures
        wire.refusal() is None,
        read.cohort@ == presentation.cohort@,
        read.registry_id@ == presentation.registry_id@,
        read.scope@ == presentation.scope@,
        read.context_hash@ == presentation.context_hash@,
        read.nullifier@ == presentation.nullifier@,
        read.challenges@.len() == presentation.challenges@.len(),
        forall|i: int| 0 <= i < read.challenges@.len() ==> (#[trigger] read.challenges@[i])@
            == presentation.challenges@[i]@,
        read.responses@.len() == presentation.responses@.len(),
        forall|i: int| 0 <= i < read.responses@.len() ==> (#[trigger] read.responses@[i])@
            == presentation.responses@[i]@,
{
    scalars_round_trip(
        wire.challenges@,
        presentation.challenges@,
        "membership challenge "@,
        wire.challenges@.len(),
    );
    scalars_round_trip(wire.responses@, presentation.responses@, "membership response "@, wire.responses@.len());
    hex_round_trip(presentation.registry_id@);
    hex_round_trip(presentation.scope@);
    hex_round_trip(presentation.context_hash@);
    hex_round_trip(presentation.nullifier@);
    assert forall|i: int| 0 <= i < read.challenges@.len() implies (#[trigger] read.challenges@[i])@
        == presentation.challenges@[i]@ by {
        assert(hex_bytes(wire.challenges@[i]@) == presentation.challenges@[i]@);
    }
    assert forall|i: int| 0 <= i < read.responses@.len() implies (#[trigger] read.responses@[i])@
        == presentation.responses@[i]@ by {
        assert(hex_bytes(wire.responses@[i]@) == presentation.responses@[i]@);
    }
}

} // verus!
