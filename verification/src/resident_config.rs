//! What a resident node may run: its approved circuit, engine and artifacts.

use vstd::prelude::*;
use crate::bytes::{same, text_bytes};
use crate::digest::{hash, sha256};
use crate::fields::either;
use crate::paths::{absolute, component_count, is_absolute, is_safe_relative, one_component, safe_relative};
use crate::resident_state::{is_digest, is_digest_text};
use crate::text::{about, decimal, decimal_text, hex_encode, hex_text, same_text};
use vstd::string::StringExecFns;

verus! {

/// A file of a deployment and the digest that it must have.
#[derive(Debug)]
pub struct Artifact {
    pub name: String,
    pub sha256: String,
}

/// What looking at a file gave: whether it is a regular file and its mode, and
/// its contents.
#[derive(Debug)]
pub struct FileFacts {
    pub metadata: Result<(bool, u32), String>,
    pub contents: Result<Vec<u8>, String>,
}

/// What looking at a deployment gave.
#[derive(Debug)]
pub struct DeploymentFacts {
    /// Whether the configured timeout is positive and at most an hour.
    pub timeout_in_range: bool,
    /// The engine's own policy check.
    pub engine_policy: Result<(), String>,
    /// Whether the configured binary is the engine's.
    pub binary_is_engine: Result<bool, String>,
    /// Whether the configured library is the engine's.
    pub library_is_engine: Result<bool, String>,
    pub host_file: FileFacts,
    pub party_binary: FileFacts,
    pub library: FileFacts,
    pub passphrase_file: Result<(bool, u32), String>,
    pub state_store: Result<(bool, u32), String>,
    /// One for each program artifact.
    pub programs: Vec<FileFacts>,
    /// One for each player-data artifact.
    pub players: Vec<FileFacts>,
}

/// The configuration of a resident node. Artifacts are listed in order of name.
#[derive(Debug)]
pub struct ResidentMpcConfig {
    pub version: u8,
    pub node: u16,
    pub n_parties: u16,
    pub threshold: u16,
    pub n_mm: usize,
    pub mp_spdz_root: String,
    /// Node-local transport directory. It contains every party's public
    /// certificate but only this node's private key.
    pub player_data_root: String,
    pub run_root: String,
    pub program: String,
    pub source_sha256: String,
    pub host_file: String,
    pub host_file_sha256: String,
    pub party_binary: String,
    pub party_binary_sha256: String,
    pub library: String,
    pub library_sha256: String,
    /// Certificates, private keys, and subject-hash links used by the party
    /// transport. Keys remain node-local files.
    pub player_data_artifacts: Vec<Artifact>,
    /// Paths, below the engine's root, of the source, the schedule and every
    /// bytecode tape accepted by this deployment.
    pub program_artifacts: Vec<Artifact>,
    pub state_store: String,
    pub passphrase_file: String,
    pub prime: String,
}

/// Whether a byte may stand in a program's name.
pub open spec fn is_name_byte(byte: u8) -> bool {
    0x30 <= byte <= 0x39 || 0x41 <= byte <= 0x5a || 0x61 <= byte <= 0x7a || byte == 0x5f || byte == 0x2d
}

/// Whether a text is a program's name.
pub open spec fn is_program_name(text: Seq<u8>) -> bool {
    &&& 0 < text.len() <= 128
    &&& forall|i: int| 0 <= i < text.len() ==> is_name_byte(#[trigger] text[i])
}

/// Whether a text is a program's name.
pub fn valid_program_name(value: &str) -> (r: bool)
    ensures
        r == is_program_name(text_bytes(value@)),
{
    let bytes = value.as_bytes();
    if bytes.len() == 0 || bytes.len() > 128 {
        return false;
    }
    let mut i: usize = 0;
    while i < bytes.len()
        invariant
            i <= bytes@.len(),
            bytes@ == text_bytes(value@),
            forall|j: int| 0 <= j < i ==> is_name_byte(#[trigger] bytes@[j]),
        decreases bytes@.len() - i,
    {
        let b: u8 = bytes[i];
        if !(0x30 <= b && b <= 0x39 || 0x41 <= b && b <= 0x5a || 0x61 <= b && b <= 0x7a || b == 0x5f || b == 0x2d) {
            assert(!is_name_byte(bytes@[i as int]));
            return false;
        }
        i = i + 1;
    }
    true
}

/// Whether a text starts with another.
pub open spec fn starts(text: Seq<u8>, head: Seq<u8>) -> bool {
    head.len() <= text.len() && text.take(head.len() as int) == head
}

/// Whether a text ends with another.
pub open spec fn ends(text: Seq<u8>, tail: Seq<u8>) -> bool {
    tail.len() <= text.len() && text.skip(text.len() - tail.len()) == tail
}

fn starts_with(text: &str, head: &str) -> (r: bool)
    ensures
        r == starts(text_bytes(text@), text_bytes(head@)),
{
    let a = text.as_bytes();
    let b = head.as_bytes();
    if b.len() > a.len() {
        return false;
    }
    assert(a@.subrange(0, b@.len() as int) =~= a@.take(b@.len() as int));
    same(&a[0..b.len()], b)
}

fn ends_with(text: &str, tail: &str) -> (r: bool)
    ensures
        r == ends(text_bytes(text@), text_bytes(tail@)),
{
    let a = text.as_bytes();
    let b = tail.as_bytes();
    if b.len() > a.len() {
        return false;
    }
    assert(a@.subrange(a@.len() - b@.len(), a@.len() as int) =~= a@.skip(a@.len() - b@.len()));
    same(&a[a.len() - b.len()..a.len()], b)
}

/// A path below a directory.
pub open spec fn below(root: Seq<char>, name: Seq<char>) -> Seq<char> {
    if root.len() > 0 && root.last() == '/' {
        root + name
    } else {
        root + "/"@ + name
    }
}

fn join_path(root: &str, name: &str) -> (path: String)
    ensures
        path@ == below(root@, name@),
{
    let n: usize = root.unicode_len();
    if n > 0 && root.get_char(n - 1) == '/' {
        root.to_owned().concat(name)
    } else {
        root.to_owned().concat("/").concat(name)
    }
}

/// Why a file of a deployment is refused.
pub open spec fn artifact_refusal(path: Seq<char>, expected: Seq<char>, executable: bool, facts: FileFacts) -> Option<
    Seq<char>,
> {
    if !is_digest_text(text_bytes(expected)) {
        Some("invalid SHA-256 for "@ + path)
    } else {
        match facts.metadata {
            Err(e) => Some(e@),
            Ok((is_file, mode)) => if !is_file || (executable && mode & 0o111 == 0) {
                Some("runtime artifact is missing or has the wrong type: "@ + path)
            } else {
                match facts.contents {
                    Err(e) => Some(e@),
                    Ok(bytes) => if hex_text(sha256(bytes@)) != expected {
                        Some("runtime artifact digest changed: "@ + path)
                    } else {
                        None
                    },
                }
            },
        }
    }
}

/// Checks a file of a deployment.
pub fn verify_digest_file(path: &str, expected: &str, executable: bool, facts: &FileFacts) -> (r: Result<(), String>)
    ensures
        match r {
            Ok(_) => artifact_refusal(path@, expected@, executable, *facts) is None,
            Err(e) => artifact_refusal(path@, expected@, executable, *facts) == Some(e@),
        },
{
    if !is_digest(expected) {
        return Err(about("invalid SHA-256 for ", path));
    }
    match &facts.metadata {
        Err(e) => {
            return Err(e.clone());
        },
        Ok((is_file, mode)) => {
            if !*is_file || (executable && *mode & 0o111 == 0) {
                return Err(about("runtime artifact is missing or has the wrong type: ", path));
            }
        },
    }
    match &facts.contents {
        Err(e) => Err(e.clone()),
        Ok(bytes) => {
            let digest = hash(bytes.as_slice());
            let actual = hex_encode(digest.as_slice());
            if !same_text(actual.as_str(), expected) {
                return Err(about("runtime artifact digest changed: ", path));
            }
            Ok(())
        },
    }
}

/// Why a secret file is refused.
pub open spec fn protected_refusal(path: Seq<char>, name: Seq<char>, metadata: Result<(bool, u32), String>) -> Option<
    Seq<char>,
> {
    match metadata {
        Err(e) => Some(e@),
        Ok((is_file, mode)) => if !is_file || mode & 0o077 != 0 {
            Some(name + " "@ + path + " must be a mode-600 file"@)
        } else {
            None
        },
    }
}

/// Checks that a secret file is a regular file that only its owner can use.
pub fn protected_file(path: &str, name: &str, metadata: &Result<(bool, u32), String>) -> (r: Result<(), String>)
    ensures
        match r {
            Ok(_) => protected_refusal(path@, name@, *metadata) is None,
            Err(e) => protected_refusal(path@, name@, *metadata) == Some(e@),
        },
{
    match metadata {
        Err(e) => Err(e.clone()),
        Ok((is_file, mode)) => {
            if !*is_file || *mode & 0o077 != 0 {
                return Err(about(name, " ").concat(path).concat(" must be a mode-600 file"));
            }
            Ok(())
        },
    }
}

/// The digest that a list gives for a name.
pub open spec fn listed(artifacts: Seq<Artifact>, name: Seq<char>) -> Option<Seq<char>>
    decreases artifacts.len(),
{
    if artifacts.len() == 0 {
        None
    } else if artifacts.last().name@ == name {
        Some(artifacts.last().sha256@)
    } else {
        listed(artifacts.drop_last(), name)
    }
}

fn find_artifact<'a>(artifacts: &'a Vec<Artifact>, name: &str) -> (r: Option<&'a String>)
    ensures
        match r {
            Some(digest) => listed(artifacts@, name@) == Some(digest@),
            None => listed(artifacts@, name@) is None,
        },
{
    let mut left: usize = artifacts.len();
    assert(artifacts@.take(left as int) =~= artifacts@);
    while left > 0
        invariant
            left <= artifacts@.len(),
            listed(artifacts@, name@) == listed(artifacts@.take(left as int), name@),
        decreases left,
    {
        assert(artifacts@.take(left as int).drop_last() =~= artifacts@.take(left - 1));
        if same_text(artifacts[left - 1].name.as_str(), name) {
            return Some(&artifacts[left - 1].sha256);
        }
        left = left - 1;
    }
    None
}

/// Whether a list names something with a given start.
pub open spec fn lists_start(artifacts: Seq<Artifact>, head: Seq<u8>) -> bool {
    exists|i: int| 0 <= i < artifacts.len() && starts(text_bytes((#[trigger] artifacts[i]).name@), head)
}

/// How many names of a list have a given end.
pub open spec fn count_ends(artifacts: Seq<Artifact>, tail: Seq<u8>) -> nat
    decreases artifacts.len(),
{
    if artifacts.len() == 0 {
        0
    } else {
        count_ends(artifacts.drop_last(), tail) + if ends(text_bytes(artifacts.last().name@), tail) {
            1nat
        } else {
            0nat
        }
    }
}

fn has_start(artifacts: &Vec<Artifact>, head: &str) -> (r: bool)
    ensures
        r == lists_start(artifacts@, text_bytes(head@)),
{
    let mut i: usize = 0;
    while i < artifacts.len()
        invariant
            i <= artifacts@.len(),
            forall|j: int| 0 <= j < i ==> !starts(text_bytes((#[trigger] artifacts@[j]).name@), text_bytes(head@)),
        decreases artifacts@.len() - i,
    {
        if starts_with(artifacts[i].name.as_str(), head) {
            return true;
        }
        i = i + 1;
    }
    false
}

fn tally_ends(artifacts: &Vec<Artifact>, tail: &str) -> (count: usize)
    ensures
        count == count_ends(artifacts@, text_bytes(tail@)),
{
    let mut count: usize = 0;
    let mut i: usize = 0;
    while i < artifacts.len()
        invariant
            i <= artifacts@.len(),
            count <= i,
            count == count_ends(artifacts@.take(i as int), text_bytes(tail@)),
        decreases artifacts@.len() - i,
    {
        assert(artifacts@.take(i as int + 1).drop_last() =~= artifacts@.take(i as int));
        if ends_with(artifacts[i].name.as_str(), tail) {
            count = count + 1;
        }
        i = i + 1;
    }
    assert(artifacts@.take(i as int) =~= artifacts@);
    count
}

/// The order of the scalar field, in decimal.
pub open spec fn field_order_text() -> Seq<char> {
    "7237005577332262213973186563042994240857116359379907606001950938285454250989"@
}

/// Why the first program artifact that is refused is refused.
pub open spec fn programs_refusal(root: Seq<char>, artifacts: Seq<Artifact>, facts: Seq<FileFacts>) -> Option<Seq<char>>
    decreases artifacts.len(),
{
    if artifacts.len() == 0 {
        None
    } else {
        either(
            programs_refusal(root, artifacts.drop_last(), facts),
            if !is_safe_relative(text_bytes(artifacts.last().name@)) {
                Some("resident MPC artifact path is not a safe relative path"@)
            } else {
                artifact_refusal(
                    below(root, artifacts.last().name@),
                    artifacts.last().sha256@,
                    false,
                    facts[artifacts.len() - 1],
                )
            },
        )
    }
}

/// Whether a name may stand among the player data.
pub open spec fn is_player_name(name: Seq<char>) -> bool {
    let bytes = text_bytes(name);
    &&& component_count(bytes) == 1
    &&& (starts(bytes, text_bytes("P"@)) && (ends(bytes, text_bytes(".key"@)) || ends(bytes, text_bytes(".pem"@)))) || (
    bytes.len() == 10 && ends(bytes, text_bytes(".0"@)))
}

/// Why the first player artifact that is refused is refused.
pub open spec fn players_refusal(root: Seq<char>, artifacts: Seq<Artifact>, facts: Seq<FileFacts>) -> Option<Seq<char>>
    decreases artifacts.len(),
{
    if artifacts.len() == 0 {
        None
    } else {
        either(
            players_refusal(root, artifacts.drop_last(), facts),
            if !is_player_name(artifacts.last().name@) {
                Some("resident MPC TLS manifest contains an unsafe file name"@)
            } else {
                artifact_refusal(
                    below(root, artifacts.last().name@),
                    artifacts.last().sha256@,
                    false,
                    facts[artifacts.len() - 1],
                )
            },
        )
    }
}

/// The name of a party's certificate.
pub open spec fn certificate_name(party: nat) -> Seq<char> {
    "P"@ + decimal(party) + ".pem"@
}

/// Why the first of the certificates that is missing is missed.
pub open spec fn certificates_refusal(artifacts: Seq<Artifact>, parties: nat) -> Option<Seq<char>>
    decreases parties,
{
    if parties == 0 {
        None
    } else {
        either(
            certificates_refusal(artifacts, (parties - 1) as nat),
            if listed(artifacts, certificate_name((parties - 1) as nat)) is None {
                Some("resident MPC TLS manifest omits "@ + certificate_name((parties - 1) as nat))
            } else {
                None
            },
        )
    }
}

/// Why a path that must start at the root is refused.
pub open spec fn absolute_refusal(path: Seq<char>) -> Option<Seq<char>> {
    if is_absolute(text_bytes(path)) {
        None
    } else {
        Some("resident MPC path must be absolute: "@ + path)
    }
}

fn check_absolute(path: &str) -> (r: Result<(), String>)
    ensures
        match r {
            Ok(_) => absolute_refusal(path@) is None,
            Err(e) => absolute_refusal(path@) == Some(e@),
        },
{
    if !absolute(path) {
        return Err(about("resident MPC path must be absolute: ", path));
    }
    Ok(())
}

/// Why the engine is refused.
pub open spec fn engine_refusal(matches: Result<bool, String>) -> Option<Seq<char>> {
    match matches {
        Err(e) => Some(e@),
        Ok(same) => if same {
            None
        } else {
            Some("resident MPC must execute the receipt-bound hybrid engine"@)
        },
    }
}

fn check_engine(matches: &Result<bool, String>) -> (r: Result<(), String>)
    ensures
        match r {
            Ok(_) => engine_refusal(*matches) is None,
            Err(e) => engine_refusal(*matches) == Some(e@),
        },
{
    match matches {
        Err(e) => Err(e.clone()),
        Ok(same_file) => if *same_file {
            Ok(())
        } else {
            Err("resident MPC must execute the receipt-bound hybrid engine".to_owned())
        },
    }
}

impl ResidentMpcConfig {
    /// The circuit and the quorum are the supported ones.
    pub open spec fn supported(self, expected_source: Seq<char>, timeout_in_range: bool) -> bool {
        &&& self.version == 1
        &&& self.n_parties == 7
        &&& self.threshold == 2
        &&& self.node < self.n_parties
        &&& self.n_mm != 0
        &&& self.n_mm & ((self.n_mm - 1) as usize) == 0
        &&& self.prime@ == field_order_text()
        &&& self.source_sha256@ == expected_source
        &&& is_digest_text(text_bytes(self.source_sha256@))
        &&& timeout_in_range
        &&& is_program_name(text_bytes(self.program@))
    }

    /// Why a path of the configuration is refused.
    pub open spec fn paths_refusal(self) -> Option<Seq<char>> {
        either(
            absolute_refusal(self.mp_spdz_root@),
            either(
                absolute_refusal(self.player_data_root@),
                either(
                    absolute_refusal(self.run_root@),
                    either(
                        absolute_refusal(self.host_file@),
                        either(
                            absolute_refusal(self.party_binary@),
                            either(
                                absolute_refusal(self.library@),
                                either(absolute_refusal(self.state_store@), absolute_refusal(self.passphrase_file@)),
                            ),
                        ),
                    ),
                ),
            ),
        )
    }

    /// Why a fixed file of the deployment is refused.
    pub open spec fn files_refusal(self, facts: DeploymentFacts) -> Option<Seq<char>> {
        either(
            artifact_refusal(self.host_file@, self.host_file_sha256@, false, facts.host_file),
            either(
                artifact_refusal(self.party_binary@, self.party_binary_sha256@, true, facts.party_binary),
                either(
                    artifact_refusal(self.library@, self.library_sha256@, false, facts.library),
                    either(
                        protected_refusal(
                            self.passphrase_file@,
                            "MPC-state passphrase"@,
                            facts.passphrase_file,
                        ),
                        protected_refusal(self.state_store@, "encrypted MPC state"@, facts.state_store),
                    ),
                ),
            ),
        )
    }

    /// Whether the manifest names the source, the schedule and the bytecode.
    pub open spec fn program_listed(self) -> bool {
        &&& listed(self.program_artifacts@, "Programs/Source/"@ + self.program@ + ".mpc"@) == Some(self.source_sha256@)
        &&& listed(self.program_artifacts@, "Programs/Schedules/"@ + self.program@ + ".sch"@) is Some
        &&& lists_start(
            self.program_artifacts@,
            text_bytes("Programs/Bytecode/"@ + self.program@ + "-"@),
        )
    }

    /// Whether the only private key among the player data is this node's.
    pub open spec fn only_own_key(self) -> bool {
        &&& count_ends(self.player_data_artifacts@, text_bytes(".key"@)) == 1
        &&& listed(self.player_data_artifacts@, "P"@ + decimal(self.node as nat) + ".key"@) is Some
    }

    /// Why the player data is refused.
    pub open spec fn player_refusal(self, facts: DeploymentFacts) -> Option<Seq<char>> {
        either(
            certificates_refusal(self.player_data_artifacts@, self.n_parties as nat),
            if !self.only_own_key() {
                Some("resident MPC TLS manifest must contain only this node's private key"@)
            } else if count_ends(self.player_data_artifacts@, text_bytes(".0"@)) < self.n_parties {
                Some("resident MPC TLS manifest omits certificate hash links"@)
            } else {
                players_refusal(self.player_data_root@, self.player_data_artifacts@, facts.players@)
            },
        )
    }

    /// Why the configuration is refused, given what looking at the deployment gave.
    pub open spec fn refusal(self, expected_source: Seq<char>, facts: DeploymentFacts) -> Option<Seq<char>> {
        if !self.supported(expected_source, facts.timeout_in_range) {
            Some("resident MPC configuration has an unsupported circuit or quorum"@)
        } else {
            either(
                self.paths_refusal(),
                either(
                    match facts.engine_policy {
                        Err(e) => Some(e@),
                        Ok(_) => None,
                    },
                    either(
                        engine_refusal(facts.binary_is_engine),
                        either(
                            engine_refusal(facts.library_is_engine),
                            either(
                                self.files_refusal(facts),
                                if !self.program_listed() {
                                    Some("resident MPC manifest omits source, schedule, or bytecode"@)
                                } else {
                                    either(
                                        programs_refusal(
                                            self.mp_spdz_root@,
                                            self.program_artifacts@,
                                            facts.programs@,
                                        ),
                                        self.player_refusal(facts),
                                    )
                                },
                            ),
                        ),
                    ),
                ),
            )
        }
    }

    fn check_supported(&self, expected_source: &str, timeout_in_range: bool) -> (r: bool)
        ensures
            r == self.supported(expected_source@, timeout_in_range),
    {
        self.version == 1 && self.n_parties == 7 && self.threshold == 2 && self.node < self.n_parties && self.n_mm != 0
            && self.n_mm & (self.n_mm - 1) == 0 && same_text(
            self.prime.as_str(),
            "7237005577332262213973186563042994240857116359379907606001950938285454250989",
        ) && same_text(self.source_sha256.as_str(), expected_source) && is_digest(self.source_sha256.as_str())
            && timeout_in_range && valid_program_name(self.program.as_str())
    }

    fn check_paths(&self) -> (r: Result<(), String>)
        ensures
            match r {
                Ok(_) => self.paths_refusal() is None,
                Err(e) => self.paths_refusal() == Some(e@),
            },
    {
        match check_absolute(self.mp_spdz_root.as_str()) {
            Err(e) => {
                return Err(e);
            },
            Ok(_) => {},
        }
        match check_absolute(self.player_data_root.as_str()) {
            Err(e) => {
                return Err(e);
            },
            Ok(_) => {},
        }
        match check_absolute(self.run_root.as_str()) {
            Err(e) => {
                return Err(e);
            },
            Ok(_) => {},
        }
        match check_absolute(self.host_file.as_str()) {
            Err(e) => {
                return Err(e);
            },
            Ok(_) => {},
        }
        match check_absolute(self.party_binary.as_str()) {
            Err(e) => {
                return Err(e);
            },
            Ok(_) => {},
        }
        match check_absolute(self.library.as_str()) {
            Err(e) => {
                return Err(e);
            },
            Ok(_) => {},
        }
        match check_absolute(self.state_store.as_str()) {
            Err(e) => {
                return Err(e);
            },
            Ok(_) => {},
        }
        check_absolute(self.passphrase_file.as_str())
    }

    fn check_files(&self, facts: &DeploymentFacts) -> (r: Result<(), String>)
        ensures
            match r {
                Ok(_) => self.files_refusal(*facts) is None,
                Err(e) => self.files_refusal(*facts) == Some(e@),
            },
    {
        match verify_digest_file(self.host_file.as_str(), self.host_file_sha256.as_str(), false, &facts.host_file) {
            Err(e) => {
                return Err(e);
            },
            Ok(_) => {},
        }
        match verify_digest_file(
            self.party_binary.as_str(),
            self.party_binary_sha256.as_str(),
            true,
            &facts.party_binary,
        ) {
            Err(e) => {
                return Err(e);
            },
            Ok(_) => {},
        }
        match verify_digest_file(self.library.as_str(), self.library_sha256.as_str(), false, &facts.library) {
            Err(e) => {
                return Err(e);
            },
            Ok(_) => {},
        }
        match protected_file(self.passphrase_file.as_str(), "MPC-state passphrase", &facts.passphrase_file) {
            Err(e) => {
                return Err(e);
            },
            Ok(_) => {},
        }
        protected_file(self.state_store.as_str(), "encrypted MPC state", &facts.state_store)
    }

    fn check_program_listed(&self) -> (r: bool)
        ensures
            r == self.program_listed(),
    {
        let source = "Programs/Source/".to_owned().concat(self.program.as_str()).concat(".mpc");
        let schedule = "Programs/Schedules/".to_owned().concat(self.program.as_str()).concat(".sch");
        let bytecode = "Programs/Bytecode/".to_owned().concat(self.program.as_str()).concat("-");
        match find_artifact(&self.program_artifacts, source.as_str()) {
            None => {
                return false;
            },
            Some(digest) => {
                if !same_text(digest.as_str(), self.source_sha256.as_str()) {
                    return false;
                }
            },
        }
        find_artifact(&self.program_artifacts, schedule.as_str()).is_some() && has_start(
            &self.program_artifacts,
            bytecode.as_str(),
        )
    }

    fn check_programs(&self, facts: &Vec<FileFacts>) -> (r: Result<(), String>)
        requires
            facts@.len() == self.program_artifacts@.len(),
        ensures
            match r {
                Ok(_) => programs_refusal(self.mp_spdz_root@, self.program_artifacts@, facts@) is None,
                Err(e) => programs_refusal(self.mp_spdz_root@, self.program_artifacts@, facts@) == Some(e@),
            },
    {
        let ghost all = self.program_artifacts@;
        let mut i: usize = 0;
        while i < self.program_artifacts.len()
            invariant
                i <= all.len(),
                all == self.program_artifacts@,
                facts@.len() == all.len(),
                programs_refusal(self.mp_spdz_root@, all.take(i as int), facts@) is None,
            decreases all.len() - i,
        {
            let artifact = &self.program_artifacts[i];
            proof {
                programs_stop(self.mp_spdz_root@, all, facts@, i as int);
            }
            if !safe_relative(artifact.name.as_str()) {
                return Err("resident MPC artifact path is not a safe relative path".to_owned());
            }
            let path = join_path(self.mp_spdz_root.as_str(), artifact.name.as_str());
            match verify_digest_file(path.as_str(), artifact.sha256.as_str(), false, &facts[i]) {
                Err(e) => {
                    return Err(e);
                },
                Ok(_) => {},
            }
            i = i + 1;
        }
        assert(all.take(i as int) =~= all);
        Ok(())
    }

    fn check_certificates(&self) -> (r: Result<(), String>)
        ensures
            match r {
                Ok(_) => certificates_refusal(self.player_data_artifacts@, self.n_parties as nat) is None,
                Err(e) => certificates_refusal(self.player_data_artifacts@, self.n_parties as nat) == Some(e@),
            },
    {
        let mut party: u16 = 0;
        while party < self.n_parties
            invariant
                party <= self.n_parties,
                certificates_refusal(self.player_data_artifacts@, party as nat) is None,
            decreases self.n_parties - party,
        {
            let name = "P".to_owned().concat(decimal_text(party as u64).as_str()).concat(".pem");
            if find_artifact(&self.player_data_artifacts, name.as_str()).is_none() {
                proof {
                    certificates_stop(self.player_data_artifacts@, party as nat, self.n_parties as nat);
                }
                return Err(about("resident MPC TLS manifest omits ", name.as_str()));
            }
            party = party + 1;
        }
        Ok(())
    }

    fn check_players(&self, facts: &Vec<FileFacts>) -> (r: Result<(), String>)
        requires
            facts@.len() == self.player_data_artifacts@.len(),
        ensures
            match r {
                Ok(_) => players_refusal(self.player_data_root@, self.player_data_artifacts@, facts@) is None,
                Err(e) => players_refusal(self.player_data_root@, self.player_data_artifacts@, facts@) == Some(e@),
            },
    {
        let ghost all = self.player_data_artifacts@;
        let mut i: usize = 0;
        while i < self.player_data_artifacts.len()
            invariant
                i <= all.len(),
                all == self.player_data_artifacts@,
                facts@.len() == all.len(),
                players_refusal(self.player_data_root@, all.take(i as int), facts@) is None,
            decreases all.len() - i,
        {
            let artifact = &self.player_data_artifacts[i];
            proof {
                players_stop(self.player_data_root@, all, facts@, i as int);
            }
            let name = artifact.name.as_str();
            if !one_component(name) || !((starts_with(name, "P") && (ends_with(name, ".key")
                || ends_with(name, ".pem")))
                || (name.as_bytes().len() == 10 && ends_with(name, ".0"))) {
                return Err("resident MPC TLS manifest contains an unsafe file name".to_owned());
            }
            let path = join_path(self.player_data_root.as_str(), name);
            match verify_digest_file(path.as_str(), artifact.sha256.as_str(), false, &facts[i]) {
                Err(e) => {
                    return Err(e);
                },
                Ok(_) => {},
            }
            i = i + 1;
        }
        assert(all.take(i as int) =~= all);
        Ok(())
    }

    /// Checks the configuration against what looking at the deployment gave.
    pub fn verify(&self, expected_source: &str, facts: &DeploymentFacts) -> (r: Result<(), String>)
        requires
            facts.programs@.len() == self.program_artifacts@.len(),
            facts.players@.len() == self.player_data_artifacts@.len(),
        ensures
            match r {
                Ok(_) => self.refusal(expected_source@, *facts) is None,
                Err(e) => self.refusal(expected_source@, *facts) == Some(e@),
            },
    {
        if !self.check_supported(expected_source, facts.timeout_in_range) {
            return Err("resident MPC configuration has an unsupported circuit or quorum".to_owned());
        }
        match self.check_paths() {
            Err(e) => {
                return Err(e);
            },
            Ok(_) => {},
        }
        match &facts.engine_policy {
            Err(e) => {
                return Err(e.clone());
            },
            Ok(_) => {},
        }
        match check_engine(&facts.binary_is_engine) {
            Err(e) => {
                return Err(e);
            },
            Ok(_) => {},
        }
        match check_engine(&facts.library_is_engine) {
            Err(e) => {
                return Err(e);
            },
            Ok(_) => {},
        }
        match self.check_files(facts) {
            Err(e) => {
                return Err(e);
            },
            Ok(_) => {},
        }
        if !self.check_program_listed() {
            return Err("resident MPC manifest omits source, schedule, or bytecode".to_owned());
        }
        match self.check_programs(&facts.programs) {
            Err(e) => {
                return Err(e);
            },
            Ok(_) => {},
        }
        match self.check_certificates() {
            Err(e) => {
                return Err(e);
            },
            Ok(_) => {},
        }
        let own_key = "P".to_owned().concat(decimal_text(self.node as u64).as_str()).concat(".key");
        if tally_ends(&self.player_data_artifacts, ".key") != 1 || find_artifact(
            &self.player_data_artifacts,
            own_key.as_str(),
        ).is_none() {
            return Err("resident MPC TLS manifest must contain only this node's private key".to_owned());
        }
        if tally_ends(&self.player_data_artifacts, ".0") < self.n_parties as usize {
            return Err("resident MPC TLS manifest omits certificate hash links".to_owned());
        }
        self.check_players(&facts.players)
    }
}

proof fn programs_stop(root: Seq<char>, artifacts: Seq<Artifact>, facts: Seq<FileFacts>, at: int)
    requires
        0 <= at < artifacts.len(),
        programs_refusal(root, artifacts.take(at), facts) is None,
    ensures
        programs_refusal(root, artifacts.take(at + 1), facts) is Some ==> programs_refusal(root, artifacts, facts)
            == programs_refusal(root, artifacts.take(at + 1), facts),
        programs_refusal(root, artifacts.take(at + 1), facts) == if !is_safe_relative(
            text_bytes(artifacts[at].name@),
        ) {
            Some("resident MPC artifact path is not a safe relative path"@)
        } else {
            artifact_refusal(below(root, artifacts[at].name@), artifacts[at].sha256@, false, facts[at])
        },
    decreases artifacts.len(),
{
    assert(artifacts.take(at + 1).drop_last() =~= artifacts.take(at));
    if at < artifacts.len() - 1 {
        assert(artifacts.drop_last().take(at) =~= artifacts.take(at));
        assert(artifacts.drop_last().take(at + 1) =~= artifacts.take(at + 1));
        programs_stop(root, artifacts.drop_last(), facts, at);
    } else {
        assert(artifacts.take(at + 1) =~= artifacts);
    }
}

proof fn players_stop(root: Seq<char>, artifacts: Seq<Artifact>, facts: Seq<FileFacts>, at: int)
    requires
        0 <= at < artifacts.len(),
        players_refusal(root, artifacts.take(at), facts) is None,
    ensures
        players_refusal(root, artifacts.take(at + 1), facts) is Some ==> players_refusal(root, artifacts, facts)
            == players_refusal(root, artifacts.take(at + 1), facts),
        players_refusal(root, artifacts.take(at + 1), facts) == if !is_player_name(artifacts[at].name@) {
            Some("resident MPC TLS manifest contains an unsafe file name"@)
        } else {
            artifact_refusal(below(root, artifacts[at].name@), artifacts[at].sha256@, false, facts[at])
        },
    decreases artifacts.len(),
{
    assert(artifacts.take(at + 1).drop_last() =~= artifacts.take(at));
    if at < artifacts.len() - 1 {
        assert(artifacts.drop_last().take(at) =~= artifacts.take(at));
        assert(artifacts.drop_last().take(at + 1) =~= artifacts.take(at + 1));
        players_stop(root, artifacts.drop_last(), facts, at);
    } else {
        assert(artifacts.take(at + 1) =~= artifacts);
    }
}

proof fn certificates_stop(artifacts: Seq<Artifact>, done: nat, parties: nat)
    requires
        done < parties,
        certificates_refusal(artifacts, done + 1) is Some,
    ensures
        certificates_refusal(artifacts, parties) == certificates_refusal(artifacts, done + 1),
    decreases parties,
{
    if parties > done + 1 {
        certificates_stop(artifacts, done, (parties - 1) as nat);
    }
}

} // verus!
