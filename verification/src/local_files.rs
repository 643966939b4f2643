//! Which of its local files a node opens.
//!
//! The file system is asked elsewhere; here is what is made of its answers.

use vstd::prelude::*;
use vstd::string::StringExecFns;
use crate::bytes::text_bytes;
use crate::fields::{either, unless};
use crate::paths::{climbs, is_absolute, safe_below};
use crate::resident_mpc::{persistence_file_name, persistence_name};
use crate::text::{decimal, decimal_text, digit, digit_text, same_text};

verus! {

/// The most bytes of a node's publication evidence.
pub const MAX_EVIDENCE_BYTES: u64 = 65536;

/// What the file system says of a file, its links followed.
#[derive(Debug)]
pub struct LocalFile {
    pub below_root: bool,
    pub name: Option<String>,
    pub is_file: bool,
    pub length: u64,
    pub mode: u32,
}

impl LocalFile {
    /// Whether the file stands below the node's root under a name.
    pub open spec fn is_own(self, name: Seq<char>) -> bool {
        self.below_root && self.name is Some && (self.name->0)@ == name
    }

    /// Whether the file is a regular one that has something in it and that only its owner opens.
    pub open spec fn is_private(self) -> bool {
        self.is_file && self.length > 0 && self.mode & 0o077 == 0
    }

    fn check_own(&self, name: &str) -> (r: bool)
        ensures
            r == self.is_own(name@),
    {
        self.below_root && match &self.name {
            Some(found) => same_text(found.as_str(), name),
            None => false,
        }
    }
}

/// Why the path of a local file is refused, in given words.
pub open spec fn path_refusal(path: Seq<char>, complaint: Seq<char>) -> Option<Seq<char>> {
    unless(!is_absolute(text_bytes(path)) && text_bytes(path).len() > 0 && !climbs(text_bytes(path)), complaint)
}

/// Why a node does not open a file as its persistence.
pub open spec fn persistence_refusal(node: nat, file: LocalFile) -> Option<Seq<char>> {
    either(
        unless(
            file.is_own(persistence_name(node)),
            "proof party may open only its own MP-SPDZ persistence file"@,
        ),
        unless(file.is_private(), "node-local persistence must be a non-empty private file"@),
    )
}

/// Whether a node opens a file as its persistence: its own, private and not empty.
pub fn check_persistence(node: u16, file: &LocalFile) -> (r: Result<(), String>)
    ensures
        match r {
            Ok(_) => persistence_refusal(node as nat, *file) is None,
            Err(e) => persistence_refusal(node as nat, *file) == Some(e@),
        },
{
    let name = persistence_file_name(node);
    if !file.check_own(name.as_str()) {
        return Err("proof party may open only its own MP-SPDZ persistence file".to_owned());
    }
    if !file.is_file || file.length == 0 || file.mode & 0o077 != 0 {
        return Err("node-local persistence must be a non-empty private file".to_owned());
    }
    Ok(())
}

/// The name of a node's publication evidence.
pub open spec fn evidence_name(node: nat) -> Seq<char> {
    "dp-publication-P"@ + decimal(node) + ".json"@
}

/// Why a node does not open a file as its publication evidence.
pub open spec fn evidence_refusal(node: nat, file: LocalFile) -> Option<Seq<char>> {
    either(
        unless(
            file.is_own(evidence_name(node)),
            "proof party may open only its own DP publication evidence"@,
        ),
        unless(
            file.is_private() && file.length <= MAX_EVIDENCE_BYTES,
            "node-local publication evidence must be a bounded private file"@,
        ),
    )
}

/// Whether a node opens a file as its publication evidence: its own, private and bounded.
pub fn check_evidence(node: u16, file: &LocalFile) -> (r: Result<(), String>)
    ensures
        match r {
            Ok(_) => evidence_refusal(node as nat, *file) is None,
            Err(e) => evidence_refusal(node as nat, *file) == Some(e@),
        },
{
    let name = "dp-publication-P".to_owned().concat(decimal_text(node as u64).as_str()).concat(".json");
    if !file.check_own(name.as_str()) {
        return Err("proof party may open only its own DP publication evidence".to_owned());
    }
    if !file.is_file || file.length == 0 || file.length > MAX_EVIDENCE_BYTES || file.mode & 0o077 != 0 {
        return Err("node-local publication evidence must be a bounded private file".to_owned());
    }
    Ok(())
}

/// Whether a path names publication evidence below the node's root.
pub fn check_evidence_path(path: &str) -> (r: Result<(), String>)
    ensures
        match r {
            Ok(_) => path_refusal(path@, "publication evidence path must be a safe relative path"@) is None,
            Err(e) => path_refusal(path@, "publication evidence path must be a safe relative path"@) == Some(e@),
        },
{
    if safe_below(path) {
        Ok(())
    } else {
        Err("publication evidence path must be a safe relative path".to_owned())
    }
}

/// Whether the directory of a node's state is one of its own: below its root,
/// private, and of the user that the process runs as.
pub fn check_state_directory(below_root: bool, is_dir: bool, mode: u32, owner: u32, user: u32) -> (r: Result<(),
    String>)
    ensures
        match r {
            Ok(_) => below_root && is_dir && mode & 0o077 == 0 && owner == user,
            Err(e) => {
                &&& !(below_root && is_dir && mode & 0o077 == 0 && owner == user)
                &&& e@ == "proof-party state parent must be a private directory below its node-local root"@
            },
        },
{
    if !below_root || !is_dir || mode & 0o077 != 0 || owner != user {
        return Err("proof-party state parent must be a private directory below its node-local root".to_owned());
    }
    Ok(())
}

/// The octal digits of a number.
pub open spec fn octal(value: nat) -> Seq<char>
    decreases value,
{
    if value < 8 {
        seq![digit(value)]
    } else {
        octal(value / 8).push(digit(value % 8))
    }
}

fn octal_text(value: u32) -> (text: String)
    ensures
        text@ == octal(value as nat),
    decreases value,
{
    let last = digit_text((value % 8) as u64);
    if value < 8 {
        last.to_owned()
    } else {
        let head = octal_text(value / 8);
        let text = head.concat(last);
        assert(text@ =~= octal(value as nat));
        text
    }
}

/// Whether the file of a resident state is one that only its owner opens.
pub fn check_state_mode(mode: u32) -> (r: Result<(), String>)
    ensures
        match r {
            Ok(_) => (mode & 0o777) & 0o077 == 0,
            Err(e) => {
                &&& (mode & 0o777) & 0o077 != 0
                &&& e@ == "refusing MPC secret state with mode "@ + octal((mode & 0o777) as nat) + "; expected 600"@
            },
        },
{
    let bits: u32 = mode & 0o777;
    if bits & 0o077 != 0 {
        return Err(
            "refusing MPC secret state with mode ".to_owned().concat(octal_text(bits).as_str()).concat("; expected 600"),
        );
    }
    Ok(())
}

/// Whether a party left a handoff: a regular file that is not empty.
pub fn check_handoff(is_file: bool, length: u64) -> (r: Result<(), String>)
    ensures
        match r {
            Ok(_) => is_file && length > 0,
            Err(e) => !(is_file && length > 0) && e@
                == "stock MP-SPDZ wrote an empty or non-file proof handoff"@,
        },
{
    if !is_file || length == 0 {
        return Err("stock MP-SPDZ wrote an empty or non-file proof handoff".to_owned());
    }
    Ok(())
}

} // verus!
