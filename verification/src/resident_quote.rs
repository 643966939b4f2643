//! Requests to the resident quote service: their fields, the shape of the
//! circuit that they need, and the circuits that were approved.

use vstd::prelude::*;
use vstd::string::StringExecFns;
use crate::bytes::text_bytes;
use crate::fields::{either, unless};
use crate::json::{array_in, elements_at, json_document, parse_json, said, text_in, unsigned_in, Json, Value};
use crate::json::{as_array, as_text, as_unsigned};
use crate::numbers::{parse_signed, signed_number};
use crate::quote_messages::{array, entries_said, object, object_json};
use crate::text::{about, decimal, decimal_text, same_text};

verus! {

/// What a request asks for: a quote, a two-sided market or a price stream.
#[derive(Clone, Copy, Debug, PartialEq, Eq, Structural)]
pub enum Mode {
    Rfq,
    Rfm,
    Rfs,
}

impl Mode {
    /// The name of a mode.
    pub open spec fn name(self) -> Seq<char> {
        match self {
            Mode::Rfq => "rfq"@,
            Mode::Rfm => "rfm"@,
            Mode::Rfs => "rfs"@,
        }
    }

    /// The name of a mode.
    pub fn as_str(&self) -> (text: &'static str)
        ensures
            text@ == self.name(),
    {
        match self {
            Mode::Rfq => "rfq",
            Mode::Rfm => "rfm",
            Mode::Rfs => "rfs",
        }
    }

    /// The mode of a name.
    pub fn parse(text: &str) -> (mode: Option<Mode>)
        ensures
            match mode {
                Some(m) => text@ == m.name(),
                None => forall|m: Mode| text@ != #[trigger] m.name(),
            },
    {
        if same_text(text, "rfq") {
            Some(Mode::Rfq)
        } else if same_text(text, "rfm") {
            Some(Mode::Rfm)
        } else if same_text(text, "rfs") {
            Some(Mode::Rfs)
        } else {
            None
        }
    }
}

/// What of a price is disclosed.
#[derive(Clone, Copy, Debug, PartialEq, Eq, Structural)]
pub enum Disclosure {
    Nothing,
    Threshold,
}

impl Disclosure {
    /// The name of a disclosure.
    pub open spec fn name(self) -> Seq<char> {
        match self {
            Disclosure::Nothing => "none"@,
            Disclosure::Threshold => "threshold"@,
        }
    }

    /// The name of a disclosure.
    pub fn as_str(&self) -> (text: &'static str)
        ensures
            text@ == self.name(),
    {
        match self {
            Disclosure::Nothing => "none",
            Disclosure::Threshold => "threshold",
        }
    }

    /// The disclosure of a name.
    pub fn parse(text: &str) -> (disclosure: Option<Disclosure>)
        ensures
            match disclosure {
                Some(d) => text@ == d.name(),
                None => forall|d: Disclosure| text@ != #[trigger] d.name(),
            },
    {
        if same_text(text, "none") {
            Some(Disclosure::Nothing)
        } else if same_text(text, "threshold") {
            Some(Disclosure::Threshold)
        } else {
            None
        }
    }
}

/// Two modes have two names.
pub proof fn mode_names_differ(a: Mode, b: Mode)
    ensures
        a.name() == b.name() ==> a == b,
{
    reveal_strlit("rfq");
    reveal_strlit("rfm");
    reveal_strlit("rfs");
    assert("rfq"@[2] == 'q' && "rfm"@[2] == 'm' && "rfs"@[2] == 's');
}

/// Two disclosures have two names.
pub proof fn disclosure_names_differ(a: Disclosure, b: Disclosure)
    ensures
        a.name() == b.name() ==> a == b,
{
    reveal_strlit("none");
    reveal_strlit("threshold");
    assert("none"@.len() != "threshold"@.len());
}

/// The program configuration that a request falls back on.
#[derive(Clone, Copy, Debug)]
pub struct ProgramDefaults {
    pub n_mm: usize,
    pub n_parties: usize,
    pub mode: Mode,
    pub rfs_steps: usize,
    pub disclose: Disclosure,
    pub argmin_arity: usize,
    pub n_assets: usize,
    pub n_requests: usize,
    pub edabit: bool,
    pub audit_gates: bool,
    pub public_maker_assets: bool,
    pub ref_mid: i128,
}

/// A request. The delay of the network between the parties stays with the
/// document: it is no integer.
#[derive(Debug)]
pub struct Request {
    pub n_mm: usize,
    pub n_parties: usize,
    pub mode: Mode,
    pub rfs_steps: usize,
    pub disclose: Disclosure,
    pub bit_length: u32,
    pub argmin_arity: usize,
    pub n_assets: usize,
    pub n_requests: usize,
    pub edabit: bool,
    pub audit_gates: bool,
    pub public_maker_assets: bool,
    pub threshold: usize,
    pub user_qty: i128,
    pub user_dir: i128,
    pub user_asset: usize,
    pub seed: i128,
    pub is_real: i128,
    pub input_check: bool,
    pub policies: Option<Value>,
    pub ref_table: Option<Vec<i128>>,
}

/// The text of a field, or its default.
pub open spec fn text_field(value: Json, key: Seq<char>, default: Seq<char>) -> Seq<char> {
    match value.field(key) {
        None => default,
        Some(v) => text_in(Some(v))->0,
    }
}

/// Why a field is no text.
pub open spec fn text_refusal(value: Json, key: Seq<char>) -> Option<Seq<char>> {
    unless(value.field(key) is None || text_in(value.field(key)) is Some, key + " must be a string"@)
}

fn read_text(value: &Value, key: &str, default: &str) -> (r: Result<String, String>)
    ensures
        match r {
            Ok(text) => text_refusal(value@, key@) is None && text@ == text_field(value@, key@, default@),
            Err(e) => text_refusal(value@, key@) == Some(e@),
        },
{
    match value.get(key) {
        None => Ok(default.to_owned()),
        Some(v) => match as_text(Some(v)) {
            Some(text) => Ok(text.to_owned()),
            None => Err(about(key, " must be a string")),
        },
    }
}

/// The number of a field, or its default.
pub open spec fn size_field(value: Json, key: Seq<char>, default: nat) -> nat {
    match value.field(key) {
        None => default,
        Some(v) => unsigned_in(Some(v))->0,
    }
}

/// Whether a field is absent or an unsigned number up to a bound.
pub open spec fn size_within(value: Json, key: Seq<char>, bound: nat) -> bool {
    value.field(key) is None || (unsigned_in(value.field(key)) is Some && unsigned_in(value.field(key))->0 <= bound)
}

/// Why a field is no size.
pub open spec fn size_refusal(value: Json, key: Seq<char>) -> Option<Seq<char>> {
    unless(size_within(value, key, usize::MAX as nat), key + " must be a non-negative integer"@)
}

fn read_size(value: &Value, key: &str, default: usize) -> (r: Result<usize, String>)
    ensures
        match r {
            Ok(size) => size_refusal(value@, key@) is None && size == size_field(value@, key@, default as nat),
            Err(e) => size_refusal(value@, key@) == Some(e@),
        },
{
    match value.get(key) {
        None => Ok(default),
        Some(v) => match as_unsigned(Some(v)) {
            None => Err(about(key, " must be a non-negative integer")),
            Some(number) => if number as u128 > usize::MAX as u128 {
                Err(about(key, " must be a non-negative integer"))
            } else {
                Ok(number as usize)
            },
        },
    }
}

/// Why a field is no number of thirty-two bits.
pub open spec fn short_refusal(value: Json, key: Seq<char>) -> Option<Seq<char>> {
    unless(size_within(value, key, u32::MAX as nat), key + " must be a non-negative 32-bit integer"@)
}

fn read_short(value: &Value, key: &str, default: u32) -> (r: Result<u32, String>)
    ensures
        match r {
            Ok(size) => short_refusal(value@, key@) is None && size == size_field(value@, key@, default as nat),
            Err(e) => short_refusal(value@, key@) == Some(e@),
        },
{
    match value.get(key) {
        None => Ok(default),
        Some(v) => match as_unsigned(Some(v)) {
            None => Err(about(key, " must be a non-negative 32-bit integer")),
            Some(number) => if number > u32::MAX as u64 {
                Err(about(key, " must be a non-negative 32-bit integer"))
            } else {
                Ok(number as u32)
            },
        },
    }
}

/// The integer that a document is: a number of sixty-four bits with or without
/// a sign, or a text that writes one.
pub open spec fn wide_in(value: Option<Json>) -> Option<int> {
    match value {
        Some(Json::Integer(i)) => if i64::MIN <= i <= u64::MAX {
            Some(i)
        } else {
            None
        },
        Some(Json::Text(t)) => signed_number(text_bytes(t)),
        _ => None,
    }
}

/// Reads an integer.
pub fn json_i128(value: &Value) -> (r: Option<i128>)
    ensures
        match r {
            Some(number) => wide_in(Some(value@)) == Some(number as int),
            None => wide_in(Some(value@)) is None,
        },
{
    match value {
        Value::Integer(i) => if -0x8000_0000_0000_0000 <= *i && *i <= 0xffff_ffff_ffff_ffff {
            Some(*i)
        } else {
            None
        },
        Value::Text(t) => parse_signed(t.as_str().as_bytes()),
        _ => None,
    }
}

/// The integer of a field, or its default.
pub open spec fn wide_field(value: Json, key: Seq<char>, default: int) -> int {
    match value.field(key) {
        None => default,
        Some(v) => wide_in(Some(v))->0,
    }
}

/// Why a field is no integer.
pub open spec fn wide_refusal(value: Json, key: Seq<char>) -> Option<Seq<char>> {
    unless(value.field(key) is None || wide_in(value.field(key)) is Some, key + " must be an integer"@)
}

fn read_wide(value: &Value, key: &str, default: i128) -> (r: Result<i128, String>)
    ensures
        match r {
            Ok(number) => wide_refusal(value@, key@) is None && number == wide_field(value@, key@, default as int),
            Err(e) => wide_refusal(value@, key@) == Some(e@),
        },
{
    match value.get(key) {
        None => Ok(default),
        Some(v) => match json_i128(v) {
            Some(number) => Ok(number),
            None => Err(about(key, " must be an integer")),
        },
    }
}

/// The flag of a field, or its default.
pub open spec fn flag_field(value: Json, key: Seq<char>, default: bool) -> bool {
    match value.field(key) {
        Some(Json::Bool(b)) => b,
        _ => default,
    }
}

/// Why a field is no flag.
pub open spec fn flag_refusal(value: Json, key: Seq<char>) -> Option<Seq<char>> {
    unless(value.field(key) is None || value.field(key)->0 is Bool, key + " must be a boolean"@)
}

fn read_flag(value: &Value, key: &str, default: bool) -> (r: Result<bool, String>)
    ensures
        match r {
            Ok(flag) => flag_refusal(value@, key@) is None && flag == flag_field(value@, key@, default),
            Err(e) => flag_refusal(value@, key@) == Some(e@),
        },
{
    match value.get(key) {
        None => Ok(default),
        Some(v) => match v {
            Value::Bool(b) => Ok(*b),
            _ => Err(about(key, " must be a boolean")),
        },
    }
}

/// Why a field is no number. Every number of a JSON document is finite.
pub open spec fn number_refusal(value: Json, key: Seq<char>) -> Option<Seq<char>> {
    unless(
        value.field(key) is None || value.field(key)->0 is Integer || value.field(key)->0 is Fraction,
        key + " must be a finite number"@,
    )
}

fn check_number(value: &Value, key: &str) -> (r: Result<(), String>)
    ensures
        match r {
            Ok(_) => number_refusal(value@, key@) is None,
            Err(e) => number_refusal(value@, key@) == Some(e@),
        },
{
    match value.get(key) {
        None => Ok(()),
        Some(v) => match v {
            Value::Integer(_) => Ok(()),
            Value::Fraction => Ok(()),
            _ => Err(about(key, " must be a finite number")),
        },
    }
}

/// Whether every element of a list is an integer.
pub open spec fn all_wide(values: Seq<Json>) -> bool {
    forall|i: int| 0 <= i < values.len() ==> wide_in(Some(#[trigger] values[i])) is Some
}

/// Why a document is no table of reference prices.
pub open spec fn table_refusal(value: Option<Json>) -> Option<Seq<char>> {
    match value {
        None => None,
        Some(Json::Null) => None,
        Some(Json::Array(values)) => unless(all_wide(values), "ref_table values must be integers"@),
        Some(_) => Some("ref_table must be an array or null"@),
    }
}

/// The table of reference prices that a document is.
pub open spec fn table_in(value: Option<Json>) -> Option<Seq<int>> {
    match value {
        Some(Json::Array(values)) => Some(values.map_values(|v: Json| wide_in(Some(v))->0)),
        _ => None,
    }
}

/// The integers of a table.
pub open spec fn table_said(table: Option<Vec<i128>>) -> Option<Seq<int>> {
    match table {
        None => None,
        Some(values) => Some(values@.map_values(|v: i128| v as int)),
    }
}

fn read_table(value: Option<&Value>) -> (r: Result<Option<Vec<i128>>, String>)
    ensures
        match r {
            Ok(table) => table_refusal(said(value)) is None && table_said(table) == table_in(said(value)),
            Err(e) => table_refusal(said(value)) == Some(e@),
        },
{
    match value {
        None => Ok(None),
        Some(v) => match v {
            Value::Null => Ok(None),
            Value::Array(values) => {
                proof {
                    elements_at(*values, values@.len());
                }
                let ghost all = array_in(said(value))->0;
                let mut table: Vec<i128> = Vec::new();
                let mut i: usize = 0;
                #[verifier::loop_isolation(false)]
                while i < values.len()
                    invariant
                        i <= values@.len(),
                        table@.len() == i,
                        forall|j: int| 0 <= j < i ==> wide_in(Some(#[trigger] all[j])) == Some(table@[j] as int),
                    decreases values@.len() - i,
                {
                    assert(all[i as int] == values@[i as int]@);
                    match json_i128(&values[i]) {
                        None => {
                            assert(!all_wide(all));
                            return Err("ref_table values must be integers".to_owned());
                        },
                        Some(number) => {
                            table.push(number);
                        },
                    }
                    i = i + 1;
                }
                assert(table_said(Some(table))->0 =~= table_in(said(value))->0);
                Ok(Some(table))
            },
            _ => Err("ref_table must be an array or null".to_owned()),
        },
    }
}

/// The policies that a request brings, unless it brings none.
pub open spec fn policies_in(value: Json) -> Option<Json> {
    match value.field("policies"@) {
        Some(Json::Null) => None,
        other => other,
    }
}

/// What policies say.
pub open spec fn policies_said(policies: Option<Value>) -> Option<Json> {
    match policies {
        None => None,
        Some(v) => Some(v@),
    }
}

/// Why the name of a mode is refused.
pub open spec fn mode_refusal(name: Seq<char>) -> Option<Seq<char>> {
    unless(exists|m: Mode| #[trigger] m.name() == name, "mode must be rfq, rfm, or rfs"@)
}

/// Why the name of a disclosure is refused.
pub open spec fn disclosure_refusal(name: Seq<char>) -> Option<Seq<char>> {
    unless(exists|d: Disclosure| #[trigger] d.name() == name, "disclose must be none or threshold"@)
}

fn read_mode(name: &str) -> (r: Result<Mode, String>)
    ensures
        match r {
            Ok(mode) => mode_refusal(name@) is None && mode.name() == name@,
            Err(e) => mode_refusal(name@) == Some(e@),
        },
{
    match Mode::parse(name) {
        Some(mode) => {
            assert(mode.name() == name@);
            Ok(mode)
        },
        None => Err("mode must be rfq, rfm, or rfs".to_owned()),
    }
}

fn read_disclosure(name: &str) -> (r: Result<Disclosure, String>)
    ensures
        match r {
            Ok(disclosure) => disclosure_refusal(name@) is None && disclosure.name() == name@,
            Err(e) => disclosure_refusal(name@) == Some(e@),
        },
{
    match Disclosure::parse(name) {
        Some(disclosure) => {
            assert(disclosure.name() == name@);
            Ok(disclosure)
        },
        None => Err("disclose must be none or threshold".to_owned()),
    }
}

/// Why a request is refused for one of its first fields.
pub open spec fn header_refusal(value: Json) -> Option<Seq<char>> {
    either(
        unless(value is Object, "request must be a JSON object"@),
        either(
            text_refusal(value, "mode"@),
            either(
                text_refusal(value, "disclose"@),
                either(
                    flag_refusal(value, "input_check"@),
                    unless(
                        flag_field(value, "input_check"@, true),
                        "resident quote service refuses unchecked MPC inputs; use the measurement harness for unchecked experiments"@,
                    ),
                ),
            ),
        ),
    )
}

/// Why a request is refused for one of the fields of its circuit.
pub open spec fn circuit_refusal(value: Json, defaults: ProgramDefaults) -> Option<Seq<char>> {
    either(
        size_refusal(value, "n_mm"@),
        either(
            size_refusal(value, "n_parties"@),
            either(
                mode_refusal(text_field(value, "mode"@, defaults.mode.name())),
                either(
                    size_refusal(value, "rfs_steps"@),
                    either(
                        disclosure_refusal(text_field(value, "disclose"@, defaults.disclose.name())),
                        either(
                            short_refusal(value, "bit_length"@),
                            either(
                                size_refusal(value, "argmin_arity"@),
                                either(
                                    size_refusal(value, "n_assets"@),
                                    either(
                                        size_refusal(value, "n_requests"@),
                                        either(
                                            flag_refusal(value, "edabit"@),
                                            either(
                                                flag_refusal(value, "audit_gates"@),
                                                flag_refusal(value, "public_maker_assets"@),
                                            ),
                                        ),
                                    ),
                                ),
                            ),
                        ),
                    ),
                ),
            ),
        ),
    )
}

/// Why a request is refused for one of its inputs.
pub open spec fn input_refusal(value: Json) -> Option<Seq<char>> {
    either(
        size_refusal(value, "threshold"@),
        either(
            wide_refusal(value, "user_qty"@),
            either(
                wide_refusal(value, "user_dir"@),
                either(
                    size_refusal(value, "user_asset"@),
                    either(
                        wide_refusal(value, "seed"@),
                        either(
                            wide_refusal(value, "is_real"@),
                            either(
                                number_refusal(value, "delay_ms"@),
                                table_refusal(value.field("ref_table"@)),
                            ),
                        ),
                    ),
                ),
            ),
        ),
    )
}

/// Why a request is refused: the first of its complaints.
pub open spec fn request_refusal(value: Json, defaults: ProgramDefaults) -> Option<Seq<char>> {
    either(header_refusal(value), either(circuit_refusal(value, defaults), input_refusal(value)))
}

impl Request {
    /// Whether the request is the one that a document writes.
    pub open spec fn written(self, value: Json, defaults: ProgramDefaults) -> bool {
        &&& self.n_mm == size_field(value, "n_mm"@, defaults.n_mm as nat)
        &&& self.n_parties == size_field(value, "n_parties"@, defaults.n_parties as nat)
        &&& self.mode.name() == text_field(value, "mode"@, defaults.mode.name())
        &&& self.rfs_steps == size_field(value, "rfs_steps"@, defaults.rfs_steps as nat)
        &&& self.disclose.name() == text_field(value, "disclose"@, defaults.disclose.name())
        &&& self.bit_length == size_field(value, "bit_length"@, 31)
        &&& self.argmin_arity == size_field(value, "argmin_arity"@, defaults.argmin_arity as nat)
        &&& self.n_assets == size_field(value, "n_assets"@, defaults.n_assets as nat)
        &&& self.n_requests == size_field(value, "n_requests"@, defaults.n_requests as nat)
        &&& self.edabit == flag_field(value, "edabit"@, defaults.edabit)
        &&& self.audit_gates == flag_field(value, "audit_gates"@, defaults.audit_gates)
        &&& self.public_maker_assets == flag_field(value, "public_maker_assets"@, defaults.public_maker_assets)
        &&& self.threshold == size_field(value, "threshold"@, 2)
        &&& self.user_qty == wide_field(value, "user_qty"@, 100)
        &&& self.user_dir == wide_field(value, "user_dir"@, 0)
        &&& self.user_asset == size_field(value, "user_asset"@, 0)
        &&& self.seed == wide_field(value, "seed"@, 7)
        &&& self.is_real == wide_field(value, "is_real"@, 1)
        &&& self.input_check
        &&& policies_said(self.policies) == policies_in(value)
        &&& table_said(self.ref_table) == table_in(value.field("ref_table"@))
    }

    /// Reads a request. Unchecked inputs are refused.
    pub fn from_value(value: &Value, defaults: &ProgramDefaults) -> (r: Result<Request, String>)
        ensures
            match r {
                Ok(request) => request_refusal(value@, *defaults) is None && request.written(value@, *defaults),
                Err(e) => request_refusal(value@, *defaults) == Some(e@),
            },
    {
        match value {
            Value::Object(_) => {},
            _ => {
                return Err("request must be a JSON object".to_owned());
            },
        }
        let mode_name = match read_text(value, "mode", defaults.mode.as_str()) {
            Err(e) => {
                return Err(e);
            },
            Ok(v) => v,
        };
        let disclose_name = match read_text(value, "disclose", defaults.disclose.as_str()) {
            Err(e) => {
                return Err(e);
            },
            Ok(v) => v,
        };
        let input_check: bool = match read_flag(value, "input_check", true) {
            Err(e) => {
                return Err(e);
            },
            Ok(v) => v,
        };
        if !input_check {
            return Err(
                "resident quote service refuses unchecked MPC inputs; use the measurement harness for unchecked experiments".to_owned(),
            );
        }
        assert(header_refusal(value@) is None);
        let n_mm: usize = match read_size(value, "n_mm", defaults.n_mm) {
            Err(e) => {
                return Err(e);
            },
            Ok(v) => v,
        };
        let n_parties: usize = match read_size(value, "n_parties", defaults.n_parties) {
            Err(e) => {
                return Err(e);
            },
            Ok(v) => v,
        };
        let mode = match read_mode(mode_name.as_str()) {
            Err(e) => {
                return Err(e);
            },
            Ok(v) => v,
        };
        let rfs_steps: usize = match read_size(value, "rfs_steps", defaults.rfs_steps) {
            Err(e) => {
                return Err(e);
            },
            Ok(v) => v,
        };
        let disclose = match read_disclosure(disclose_name.as_str()) {
            Err(e) => {
                return Err(e);
            },
            Ok(v) => v,
        };
        let bit_length: u32 = match read_short(value, "bit_length", 31) {
            Err(e) => {
                return Err(e);
            },
            Ok(v) => v,
        };
        let argmin_arity: usize = match read_size(value, "argmin_arity", defaults.argmin_arity) {
            Err(e) => {
                return Err(e);
            },
            Ok(v) => v,
        };
        let n_assets: usize = match read_size(value, "n_assets", defaults.n_assets) {
            Err(e) => {
                return Err(e);
            },
            Ok(v) => v,
        };
        let n_requests: usize = match read_size(value, "n_requests", defaults.n_requests) {
            Err(e) => {
                return Err(e);
            },
            Ok(v) => v,
        };
        let edabit: bool = match read_flag(value, "edabit", defaults.edabit) {
            Err(e) => {
                return Err(e);
            },
            Ok(v) => v,
        };
        let audit_gates: bool = match read_flag(value, "audit_gates", defaults.audit_gates) {
            Err(e) => {
                return Err(e);
            },
            Ok(v) => v,
        };
        let public_maker_assets: bool = match read_flag(value, "public_maker_assets", defaults.public_maker_assets) {
            Err(e) => {
                return Err(e);
            },
            Ok(v) => v,
        };
        assert(circuit_refusal(value@, *defaults) is None);
        let threshold: usize = match read_size(value, "threshold", 2) {
            Err(e) => {
                return Err(e);
            },
            Ok(v) => v,
        };
        let user_qty: i128 = match read_wide(value, "user_qty", 100) {
            Err(e) => {
                return Err(e);
            },
            Ok(v) => v,
        };
        let user_dir: i128 = match read_wide(value, "user_dir", 0) {
            Err(e) => {
                return Err(e);
            },
            Ok(v) => v,
        };
        let user_asset: usize = match read_size(value, "user_asset", 0) {
            Err(e) => {
                return Err(e);
            },
            Ok(v) => v,
        };
        let seed: i128 = match read_wide(value, "seed", 7) {
            Err(e) => {
                return Err(e);
            },
            Ok(v) => v,
        };
        let is_real: i128 = match read_wide(value, "is_real", 1) {
            Err(e) => {
                return Err(e);
            },
            Ok(v) => v,
        };
        if let Err(e) = check_number(value, "delay_ms") {
            return Err(e);
        }
        let policies = match value.get("policies") {
            None => None,
            Some(v) => match v {
                Value::Null => None,
                _ => Some(v.copy()),
            },
        };
        let ref_table = match read_table(value.get("ref_table")) {
            Err(e) => {
                return Err(e);
            },
            Ok(v) => v,
        };
        Ok(
            Request {
                n_mm,
                n_parties,
                mode,
                rfs_steps,
                disclose,
                bit_length,
                argmin_arity,
                n_assets,
                n_requests,
                edabit,
                audit_gates,
                public_maker_assets,
                threshold,
                user_qty,
                user_dir,
                user_asset,
                seed,
                is_real,
                input_check,
                policies,
                ref_table,
            },
        )
    }

    /// Whether every reference price is a number that a document can hold.
    pub open spec fn printable(self) -> bool {
        table_said(self.ref_table) matches Some(table) ==> forall|i: int|
            0 <= i < table.len() ==> i64::MIN <= #[trigger] table[i] <= u64::MAX
    }

    /// Whether every reference price is a number that a document can hold.
    pub fn is_printable(&self) -> (r: bool)
        ensures
            r == self.printable(),
    {
        match &self.ref_table {
            None => true,
            Some(values) => {
                let ghost table = table_said(self.ref_table)->0;
                let mut i: usize = 0;
                #[verifier::loop_isolation(false)]
                while i < values.len()
                    invariant
                        i <= values@.len(),
                        forall|j: int| 0 <= j < i ==> i64::MIN <= #[trigger] table[j] <= u64::MAX,
                    decreases values@.len() - i,
                {
                    let value: i128 = values[i];
                    assert(table[i as int] == value);
                    if value < -0x8000_0000_0000_0000 || value > 0xffff_ffff_ffff_ffff {
                        return false;
                    }
                    i = i + 1;
                }
                true
            },
        }
    }

    /// The shape of the circuit that the request needs: a list of pairs of a name
    /// and a value.
    pub open spec fn shape_json(self) -> Json {
        Json::Array(
            seq![
                pair_json("n_mm"@, Json::Integer(self.n_mm as int)),
                pair_json("n_parties"@, Json::Integer(self.n_parties as int)),
                pair_json("mode"@, Json::Text(self.mode.name())),
                pair_json("rfs_steps"@, Json::Integer(self.rfs_steps as int)),
                pair_json("disclose"@, Json::Text(self.disclose.name())),
                pair_json("bit_length"@, Json::Integer(self.bit_length as int)),
                pair_json("argmin_arity"@, Json::Integer(self.argmin_arity as int)),
                pair_json("n_assets"@, Json::Integer(self.n_assets as int)),
                pair_json("n_requests"@, Json::Integer(self.n_requests as int)),
                pair_json("edabit"@, Json::Bool(self.edabit)),
                pair_json("audit_gates"@, Json::Bool(self.audit_gates)),
                pair_json("public_maker_assets"@, Json::Bool(self.public_maker_assets)),
                pair_json("input_check"@, Json::Bool(self.input_check)),
                pair_json("threshold"@, Json::Integer(self.threshold as int)),
                pair_json("ref_table"@, table_json(table_said(self.ref_table))),
            ],
        )
    }

    /// The shape of the circuit that the request needs.
    pub fn shape(&self) -> (value: Value)
        requires
            self.printable(),
        ensures
            value@ == self.shape_json(),
    {
        let mut pairs: Vec<Value> = Vec::new();
        pairs.push(pair("n_mm", Value::Integer(self.n_mm as i128)));
        pairs.push(pair("n_parties", Value::Integer(self.n_parties as i128)));
        pairs.push(pair("mode", Value::Text(self.mode.as_str().to_owned())));
        pairs.push(pair("rfs_steps", Value::Integer(self.rfs_steps as i128)));
        pairs.push(pair("disclose", Value::Text(self.disclose.as_str().to_owned())));
        pairs.push(pair("bit_length", Value::Integer(self.bit_length as i128)));
        pairs.push(pair("argmin_arity", Value::Integer(self.argmin_arity as i128)));
        pairs.push(pair("n_assets", Value::Integer(self.n_assets as i128)));
        pairs.push(pair("n_requests", Value::Integer(self.n_requests as i128)));
        pairs.push(pair("edabit", Value::Bool(self.edabit)));
        pairs.push(pair("audit_gates", Value::Bool(self.audit_gates)));
        pairs.push(pair("public_maker_assets", Value::Bool(self.public_maker_assets)));
        pairs.push(pair("input_check", Value::Bool(self.input_check)));
        pairs.push(pair("threshold", Value::Integer(self.threshold as i128)));
        pairs.push(pair("ref_table", table_value(&self.ref_table)));
        let ghost all = pairs@.map_values(|v: Value| v@);
        let value = array(pairs);
        assert(all =~= self.shape_json()->Array_0);
        value
    }
}

/// A pair of a name and a value.
pub open spec fn pair_json(name: Seq<char>, value: Json) -> Json {
    Json::Array(seq![Json::Text(name), value])
}

fn pair(name: &str, value: Value) -> (pair: Value)
    ensures
        pair@ == pair_json(name@, value@),
{
    let ghost said = value@;
    let mut parts: Vec<Value> = Vec::new();
    parts.push(Value::Text(name.to_owned()));
    parts.push(value);
    assert(parts@.map_values(|v: Value| v@) =~= seq![Json::Text(name@), said]);
    array(parts)
}

/// The document of a table of reference prices.
pub open spec fn table_json(table: Option<Seq<int>>) -> Json {
    match table {
        None => Json::Null,
        Some(values) => Json::Array(values.map_values(|v: int| Json::Integer(v))),
    }
}

fn table_value(table: &Option<Vec<i128>>) -> (value: Value)
    ensures
        value@ == table_json(table_said(*table)),
{
    match table {
        None => Value::Null,
        Some(values) => {
            let mut documents: Vec<Value> = Vec::new();
            let mut i: usize = 0;
            while i < values.len()
                invariant
                    i <= values@.len(),
                    documents@.len() == i,
                    forall|j: int| 0 <= j < i ==> (#[trigger] documents@[j])@ == Json::Integer(values@[j] as int),
                decreases values@.len() - i,
            {
                documents.push(Value::Integer(values[i]));
                i = i + 1;
            }
            let ghost all = documents@.map_values(|v: Value| v@);
            let value = array(documents);
            assert(all =~= table_json(table_said(*table))->Array_0);
            value
        },
    }
}

/// The shape of a request is that of its document without the fields that are
/// only inputs: two documents with the same circuit fields need one circuit.
pub proof fn shape_excludes_inputs(a: Request, b: Request, x: Json, y: Json, defaults: ProgramDefaults)
    requires
        a.written(x, defaults),
        b.written(y, defaults),
        x.field("n_mm"@) == y.field("n_mm"@),
        x.field("n_parties"@) == y.field("n_parties"@),
        x.field("mode"@) == y.field("mode"@),
        x.field("rfs_steps"@) == y.field("rfs_steps"@),
        x.field("disclose"@) == y.field("disclose"@),
        x.field("bit_length"@) == y.field("bit_length"@),
        x.field("argmin_arity"@) == y.field("argmin_arity"@),
        x.field("n_assets"@) == y.field("n_assets"@),
        x.field("n_requests"@) == y.field("n_requests"@),
        x.field("edabit"@) == y.field("edabit"@),
        x.field("audit_gates"@) == y.field("audit_gates"@),
        x.field("public_maker_assets"@) == y.field("public_maker_assets"@),
        x.field("threshold"@) == y.field("threshold"@),
        x.field("ref_table"@) == y.field("ref_table"@),
    ensures
        a.shape_json() == b.shape_json(),
{
    mode_names_differ(a.mode, b.mode);
    disclosure_names_differ(a.disclose, b.disclose);
}

/// A circuit that was approved: its name, the digest of its program and its shape.
#[derive(Debug)]
pub struct Approval {
    pub name: String,
    pub program_digest: String,
    pub shape: Value,
}

/// Why a document is no approval.
pub open spec fn approval_refusal(value: Json) -> Option<Seq<char>> {
    either(
        unless(value is Object, "each approved circuit must be an object"@),
        either(
            unless(text_in(value.field("name"@)) is Some, "name must be a string"@),
            either(
                unless(text_in(value.field("program_digest"@)) is Some, "program_digest must be a string"@),
                unless(value.field("shape"@) is Some, "approved circuit is missing shape"@),
            ),
        ),
    )
}

/// The document of an approval.
pub open spec fn approval_json(name: Seq<char>, program_digest: Seq<char>, shape: Json) -> Json {
    object_json(
        seq![
            ("name"@, Json::Text(name)),
            ("program_digest"@, Json::Text(program_digest)),
            ("shape"@, shape),
        ],
    )
}

impl Approval {
    /// Whether the approval is the one that a document writes.
    pub open spec fn written(self, value: Json) -> bool {
        &&& text_in(value.field("name"@)) == Some(self.name@)
        &&& text_in(value.field("program_digest"@)) == Some(self.program_digest@)
        &&& value.field("shape"@) == Some(self.shape@)
    }

    /// Reads an approval.
    pub fn from_json(value: &Value) -> (r: Result<Approval, String>)
        ensures
            match r {
                Ok(approval) => approval_refusal(value@) is None && approval.written(value@),
                Err(e) => approval_refusal(value@) == Some(e@),
            },
    {
        match value {
            Value::Object(_) => {},
            _ => {
                return Err("each approved circuit must be an object".to_owned());
            },
        }
        let name = match as_text(value.get("name")) {
            None => {
                return Err("name must be a string".to_owned());
            },
            Some(text) => text.to_owned(),
        };
        let program_digest = match as_text(value.get("program_digest")) {
            None => {
                return Err("program_digest must be a string".to_owned());
            },
            Some(text) => text.to_owned(),
        };
        match value.get("shape") {
            None => Err("approved circuit is missing shape".to_owned()),
            Some(shape) => Ok(Approval { name, program_digest, shape: shape.copy() }),
        }
    }
}

/// The document of the approval of one resident shape.
pub fn approval_entry(index: usize, program_digest: &str, shape: &Value) -> (value: Value)
    ensures
        value@ == approval_json("shape"@ + decimal(index as nat), program_digest@, shape@),
{
    let mut fields: Vec<(String, Value)> = Vec::new();
    fields.push(("name".to_owned(), Value::Text(about("shape", decimal_text(index as u64).as_str()))));
    fields.push(("program_digest".to_owned(), Value::Text(program_digest.to_owned())));
    fields.push(("shape".to_owned(), shape.copy()));
    let ghost all = entries_said(fields@);
    let value = object(fields);
    assert(all =~= seq![
        ("name"@, Json::Text("shape"@ + decimal(index as nat))),
        ("program_digest"@, Json::Text(program_digest@)),
        ("shape"@, shape@),
    ]);
    value
}

/// An approval that was written is read back as it was.
pub proof fn approval_round_trip(name: Seq<char>, program_digest: Seq<char>, shape: Json, approval: Approval)
    requires
        approval.written(approval_json(name, program_digest, shape)),
    ensures
        approval_refusal(approval_json(name, program_digest, shape)) is None,
        approval.name@ == name,
        approval.program_digest@ == program_digest,
        approval.shape@ == shape,
{
    reveal_strlit("name");
    reveal_strlit("program_digest");
    reveal_strlit("shape");
    reveal_with_fuel(crate::quote_messages::object_map, 5);
    assert("name"@.len() == 4 && "program_digest"@.len() == 14 && "shape"@.len() == 5);
}

/// Why a document is no list of approvals: the first complaint of its elements.
pub open spec fn approvals_refusal(value: Json) -> Option<Seq<char>> {
    match value {
        Json::Array(values) => crate::fields::first(values, |v: Json| approval_refusal(v)),
        _ => Some("approved file must contain a JSON array"@),
    }
}

/// Reads a list of approvals.
pub fn read_approvals(value: &Value) -> (r: Result<Vec<Approval>, String>)
    ensures
        match r {
            Ok(approvals) => {
                &&& approvals_refusal(value@) is None
                &&& approvals@.len() == value@->Array_0.len()
                &&& forall|i: int| 0 <= i < approvals@.len() ==> (#[trigger] approvals@[i]).written(value@->Array_0[i])
            },
            Err(e) => approvals_refusal(value@) == Some(e@),
        },
{
    let values = match as_array(Some(value)) {
        None => {
            return Err("approved file must contain a JSON array".to_owned());
        },
        Some(values) => values,
    };
    let ghost all = value@->Array_0;
    let ghost check = |v: Json| approval_refusal(v);
    let mut approvals: Vec<Approval> = Vec::new();
    let mut i: usize = 0;
    #[verifier::loop_isolation(false)]
    while i < values.len()
        invariant
            i <= values@.len(),
            approvals@.len() == i,
            crate::fields::first(all.take(i as int), check) is None,
            forall|j: int| 0 <= j < i ==> (#[trigger] approvals@[j]).written(all[j]),
        decreases values@.len() - i,
    {
        proof {
            crate::fields::first_at(all, check, i as int);
            assert(all[i as int] == values@[i as int]@);
        }
        match Approval::from_json(&values[i]) {
            Err(e) => {
                return Err(e);
            },
            Ok(approval) => {
                approvals.push(approval);
            },
        }
        i = i + 1;
    }
    assert(all.take(i as int) =~= all);
    Ok(approvals)
}

/// Reads the approved circuits of a file.
pub fn approvals_from_text(raw: &[u8]) -> (r: Result<Vec<Approval>, String>)
    ensures
        match json_document(raw@) {
            None => r matches Err(e) && e@ == "approved file is not JSON"@,
            Some(document) => match r {
                Ok(approvals) => {
                    &&& approvals_refusal(document) is None
                    &&& approvals@.len() == document->Array_0.len()
                    &&& forall|i: int|
                        0 <= i < approvals@.len() ==> (#[trigger] approvals@[i]).written(document->Array_0[i])
                },
                Err(e) => approvals_refusal(document) == Some(e@),
            },
        },
{
    match parse_json(raw) {
        None => Err("approved file is not JSON".to_owned()),
        Some(value) => read_approvals(&value),
    }
}

/// Why a line is no request.
#[derive(Debug)]
pub enum LineError {
    /// The line is not JSON.
    Syntax,
    /// The request is refused.
    Refused(String),
}

/// Reads the request of a line.
pub fn request_from_text(raw: &[u8], defaults: &ProgramDefaults) -> (r: Result<Request, LineError>)
    ensures
        match json_document(raw@) {
            None => r is Err && r->Err_0 is Syntax,
            Some(document) => match r {
                Ok(request) => request_refusal(document, *defaults) is None && request.written(document, *defaults),
                Err(LineError::Refused(e)) => request_refusal(document, *defaults) == Some(e@),
                Err(LineError::Syntax) => false,
            },
        },
{
    match parse_json(raw) {
        None => Err(LineError::Syntax),
        Some(value) => match Request::from_value(&value, defaults) {
            Ok(request) => Ok(request),
            Err(e) => Err(LineError::Refused(e)),
        },
    }
}

/// Whether a document is made of lists, texts, flags, integers and nothing else.
pub open spec fn listed(value: Json, levels: nat) -> bool
    decreases levels,
{
    levels > 0 && match value {
        Json::Array(values) => forall|i: int|
            0 <= i < values.len() ==> listed(#[trigger] values[i], (levels - 1) as nat),
        Json::Object(_) => false,
        Json::Fraction => false,
        _ => true,
    }
}

/// Whether two documents say the same.
fn same_value(a: &Value, b: &Value, levels: usize) -> (r: bool)
    requires
        listed(a@, levels as nat),
    ensures
        r == (a@ == b@),
    decreases levels,
{
    match (a, b) {
        (Value::Null, Value::Null) => true,
        (Value::Bool(x), Value::Bool(y)) => *x == *y,
        (Value::Integer(x), Value::Integer(y)) => *x == *y,
        (Value::Text(x), Value::Text(y)) => same_text(x.as_str(), y.as_str()),
        (Value::Array(x), Value::Array(y)) => {
            let ghost left = a@->Array_0;
            let ghost right = b@->Array_0;
            proof {
                elements_at(*x, x@.len());
                elements_at(*y, y@.len());
            }
            if x.len() != y.len() {
                return false;
            }
            let mut i: usize = 0;
            #[verifier::loop_isolation(false)]
            while i < x.len()
                invariant
                    i <= x@.len(),
                    forall|j: int| 0 <= j < i ==> #[trigger] left[j] == right[j],
                decreases x@.len() - i,
            {
                assert(left[i as int] == x@[i as int]@ && right[i as int] == y@[i as int]@);
                assert(listed(left[i as int], (levels - 1) as nat));
                if !same_value(&x[i], &y[i], levels - 1) {
                    return false;
                }
                i = i + 1;
            }
            assert(left =~= right);
            true
        },
        _ => false,
    }
}

proof fn shape_listed(request: Request)
    ensures
        listed(request.shape_json(), 4),
{
    let shape = request.shape_json()->Array_0;
    let table = table_json(table_said(request.ref_table));
    reveal_with_fuel(listed, 5);
    assert forall|i: int| 0 <= i < shape.len() implies listed(#[trigger] shape[i], 3) by {
        let pair = shape[i]->Array_0;
        assert forall|j: int| 0 <= j < pair.len() implies listed(#[trigger] pair[j], 2) by {
        }
    }
}

/// Why a circuit is not compiled.
#[derive(Debug)]
pub enum CompileRefusal {
    /// No circuit of this shape was approved.
    NotApproved,
    /// The program is another than the one that was approved.
    Mismatch { name: String, approved: String },
}

/// Where the first approval of a shape stands, if one does.
pub open spec fn approved_at(approvals: Seq<Approval>, shape: Json) -> Option<int>
    decreases approvals.len(),
{
    if approvals.len() == 0 {
        None
    } else {
        match approved_at(approvals.drop_last(), shape) {
            Some(at) => Some(at),
            None => if approvals.last().shape@ == shape {
                Some(approvals.len() - 1)
            } else {
                None
            },
        }
    }
}

proof fn first_approved(approvals: Seq<Approval>, shape: Json, at: int)
    requires
        0 <= at <= approvals.len(),
        forall|i: int| 0 <= i < at ==> (#[trigger] approvals[i]).shape@ != shape,
        at < approvals.len() ==> approvals[at].shape@ == shape,
    ensures
        approved_at(approvals, shape) == if at < approvals.len() {
            Some(at)
        } else {
            None
        },
    decreases approvals.len(),
{
    if approvals.len() > 0 {
        if at < approvals.len() {
            first_approved(approvals.drop_last(), shape, at);
        } else {
            first_approved(approvals.drop_last(), shape, at - 1);
        }
    }
}

impl Request {
    /// Whether the program for the request may be compiled: without a list of
    /// approvals every program may, with one only the program whose digest the
    /// first approval of its shape holds.
    pub open spec fn compile_refusal(self, approvals: Option<Seq<Approval>>, program_digest: Seq<char>) -> Option<
        Option<int>,
    > {
        match approvals {
            None => None,
            Some(list) => match approved_at(list, self.shape_json()) {
                None => Some(None),
                Some(at) => if list[at].program_digest@ == program_digest {
                    None
                } else {
                    Some(Some(at))
                },
            },
        }
    }

    /// Refuses to compile a program that was not approved.
    pub fn check_approved(&self, approvals: Option<&Vec<Approval>>, program_digest: &str) -> (r: Result<
        (),
        CompileRefusal,
    >)
        requires
            self.printable(),
        ensures
            ({
                let list = match approvals {
                    None => None,
                    Some(a) => Some(a@),
                };
                match r {
                    Ok(_) => self.compile_refusal(list, program_digest@) is None,
                    Err(CompileRefusal::NotApproved) => self.compile_refusal(list, program_digest@)
                        == Some(None::<int>),
                    Err(CompileRefusal::Mismatch { name, approved }) => {
                        &&& self.compile_refusal(list, program_digest@) matches Some(Some(at)) && name@
                            == list->0[at].name@ && approved@ == list->0[at].program_digest@
                    },
                }
            }),
    {
        let list = match approvals {
            None => {
                return Ok(());
            },
            Some(list) => list,
        };
        let shape = self.shape();
        proof {
            shape_listed(*self);
        }
        let mut i: usize = 0;
        #[verifier::loop_isolation(false)]
        while i < list.len()
            invariant
                i <= list@.len(),
                shape@ == self.shape_json(),
                forall|j: int| 0 <= j < i ==> (#[trigger] list@[j]).shape@ != self.shape_json(),
            decreases list@.len() - i,
        {
            if same_value(&shape, &list[i].shape, 4) {
                proof {
                    first_approved(list@, self.shape_json(), i as int);
                }
                if same_text(list[i].program_digest.as_str(), program_digest) {
                    return Ok(());
                }
                return Err(
                    CompileRefusal::Mismatch {
                        name: list[i].name.as_str().to_owned(),
                        approved: list[i].program_digest.as_str().to_owned(),
                    },
                );
            }
            i = i + 1;
        }
        proof {
            first_approved(list@, self.shape_json(), i as int);
        }
        Err(CompileRefusal::NotApproved)
    }

    /// Where a circuit of the shape of this request stands among the resident ones.
    pub fn resident_at(&self, shapes: &Vec<Value>) -> (r: Option<usize>)
        requires
            self.printable(),
        ensures
            match r {
                Some(at) => {
                    &&& at < shapes@.len()
                    &&& shapes@[at as int]@ == self.shape_json()
                    &&& forall|i: int| 0 <= i < at ==> (#[trigger] shapes@[i])@ != self.shape_json()
                },
                None => forall|i: int| 0 <= i < shapes@.len() ==> (#[trigger] shapes@[i])@ != self.shape_json(),
            },
    {
        let shape = self.shape();
        proof {
            shape_listed(*self);
        }
        let mut i: usize = 0;
        while i < shapes.len()
            invariant
                i <= shapes@.len(),
                shape@ == self.shape_json(),
                listed(shape@, 4),
                forall|j: int| 0 <= j < i ==> (#[trigger] shapes@[j])@ != self.shape_json(),
            decreases shapes@.len() - i,
        {
            if same_value(&shape, &shapes[i], 4) {
                return Some(i);
            }
            i = i + 1;
        }
        None
    }
}

} // verus!
