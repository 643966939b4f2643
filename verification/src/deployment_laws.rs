//! What a node runs on: which deployment it accepts, which files it opens, and which paths
//! are safe.

use vstd::prelude::*;
use crate::bytes::text_bytes;
use crate::digest::sha256;
use crate::lines::{has_newline, newline_at, record_of, record_too_long};
use crate::local_files::{evidence_refusal, path_refusal, persistence_refusal, LocalFile};
use crate::paths::{above, climbs, here, is_absolute, is_safe_relative, last_part, last_start, segments};
use crate::resident_config::{
    artifact_refusal, below, certificates_refusal, count_ends, ends, is_player_name, listed, players_refusal,
    programs_refusal, protected_refusal, starts, Artifact, DeploymentFacts, FileFacts, ResidentMpcConfig,
};
use crate::resident_run::{party_arguments, run_directories};
use crate::resident_state::is_digest_text;
use crate::sealed_file::{is_sealed, proof_state_refusal, state_path_refusal, trimmed};
use crate::text::{decimal, hex_text};

verus! {

/// An artifact is accepted exactly where its digest is written as one, it is a file, one
/// that may run where it has to, and its contents hash to that digest.
pub proof fn artifact_is_accepted_exactly(path: Seq<char>, expected: Seq<char>, executable: bool, facts: FileFacts)
    ensures
        artifact_refusal(path, expected, executable, facts) is None <==> {
            &&& is_digest_text(text_bytes(expected))
            &&& facts.metadata is Ok && (facts.metadata->Ok_0).0
            &&& executable ==> (facts.metadata->Ok_0).1 & 0o111 != 0
            &&& facts.contents is Ok
            &&& expected == hex_text(sha256((facts.contents->Ok_0)@))
        },
{
}

/// A protected file is accepted exactly where it is a file that nobody but its owner may
/// touch.
pub proof fn protected_file_is_its_owners(path: Seq<char>, name: Seq<char>, metadata: Result<(bool, u32), String>)
    ensures
        protected_refusal(path, name, metadata) is None <==> metadata is Ok && (metadata->Ok_0).0 && (
        metadata->Ok_0).1 & 0o077 == 0,
{
}

/// Every artifact of the program is below the root and accepted.
pub proof fn program_artifacts_are_accepted_exactly(
    root: Seq<char>,
    artifacts: Seq<Artifact>,
    facts: Seq<FileFacts>,
)
    ensures
        programs_refusal(root, artifacts, facts) is None <==> forall|i: int|
            #![trigger artifacts[i]]
            0 <= i < artifacts.len() ==> is_safe_relative(text_bytes(artifacts[i].name@)) && artifact_refusal(
                below(root, artifacts[i].name@),
                artifacts[i].sha256@,
                false,
                facts[i],
            ) is None,
    decreases artifacts.len(),
{
    if artifacts.len() > 0 {
        let fewer = artifacts.drop_last();
        program_artifacts_are_accepted_exactly(root, fewer, facts);
        let last = artifacts[artifacts.len() - 1];
        if programs_refusal(root, artifacts, facts) is None {
            assert forall|i: int| #![trigger artifacts[i]] 0 <= i < artifacts.len() implies is_safe_relative(
                text_bytes(artifacts[i].name@),
            ) && artifact_refusal(below(root, artifacts[i].name@), artifacts[i].sha256@, false, facts[i]) is None by {
                if i < fewer.len() {
                    assert(fewer[i] == artifacts[i]);
                }
            }
        } else if forall|i: int|
            #![trigger artifacts[i]]
            0 <= i < artifacts.len() ==> is_safe_relative(text_bytes(artifacts[i].name@)) && artifact_refusal(
                below(root, artifacts[i].name@),
                artifacts[i].sha256@,
                false,
                facts[i],
            ) is None {
            assert forall|i: int| #![trigger fewer[i]] 0 <= i < fewer.len() implies is_safe_relative(
                text_bytes(fewer[i].name@),
            ) && artifact_refusal(below(root, fewer[i].name@), fewer[i].sha256@, false, facts[i]) is None by {
                assert(fewer[i] == artifacts[i]);
            }
        }
    }
}

/// Every artifact of the players has a safe name and is accepted.
pub proof fn player_artifacts_are_accepted_exactly(root: Seq<char>, artifacts: Seq<Artifact>, facts: Seq<FileFacts>)
    ensures
        players_refusal(root, artifacts, facts) is None <==> forall|i: int|
            #![trigger artifacts[i]]
            0 <= i < artifacts.len() ==> is_player_name(artifacts[i].name@) && artifact_refusal(
                below(root, artifacts[i].name@),
                artifacts[i].sha256@,
                false,
                facts[i],
            ) is None,
    decreases artifacts.len(),
{
    if artifacts.len() > 0 {
        let fewer = artifacts.drop_last();
        player_artifacts_are_accepted_exactly(root, fewer, facts);
        let last = artifacts[artifacts.len() - 1];
        if players_refusal(root, artifacts, facts) is None {
            assert forall|i: int| #![trigger artifacts[i]] 0 <= i < artifacts.len() implies is_player_name(
                artifacts[i].name@,
            ) && artifact_refusal(below(root, artifacts[i].name@), artifacts[i].sha256@, false, facts[i]) is None by {
                if i < fewer.len() {
                    assert(fewer[i] == artifacts[i]);
                }
            }
        } else if forall|i: int|
            #![trigger artifacts[i]]
            0 <= i < artifacts.len() ==> is_player_name(artifacts[i].name@) && artifact_refusal(
                below(root, artifacts[i].name@),
                artifacts[i].sha256@,
                false,
                facts[i],
            ) is None {
            assert forall|i: int| #![trigger fewer[i]] 0 <= i < fewer.len() implies is_player_name(fewer[i].name@)
                && artifact_refusal(below(root, fewer[i].name@), fewer[i].sha256@, false, facts[i]) is None by {
                assert(fewer[i] == artifacts[i]);
            }
        }
    }
}

/// A digest that is found for a name is the one that a manifest lists under it, and none
/// is found only where no artifact has the name.
pub proof fn listed_digest_is_of_the_name(artifacts: Seq<Artifact>, name: Seq<char>)
    ensures
        listed(artifacts, name) matches Some(digest) ==> exists|i: int|
            0 <= i < artifacts.len() && (#[trigger] artifacts[i]).name@ == name && artifacts[i].sha256@ == digest
                && forall|j: int| i < j < artifacts.len() ==> (#[trigger] artifacts[j]).name@ != name,
        listed(artifacts, name) is None <==> forall|i: int|
            0 <= i < artifacts.len() ==> (#[trigger] artifacts[i]).name@ != name,
    decreases artifacts.len(),
{
    if artifacts.len() > 0 {
        let fewer = artifacts.drop_last();
        let end = artifacts.len() - 1;
        listed_digest_is_of_the_name(fewer, name);
        if artifacts[end].name@ != name {
            assert(forall|i: int| 0 <= i < end ==> fewer[i] == #[trigger] artifacts[i]);
            if let Some(digest) = listed(artifacts, name) {
                let i = choose|i: int|
                    0 <= i < fewer.len() && (#[trigger] fewer[i]).name@ == name && fewer[i].sha256@ == digest
                        && forall|j: int| i < j < fewer.len() ==> (#[trigger] fewer[j]).name@ != name;
                assert(artifacts[i].name@ == name);
                assert forall|j: int| i < j < artifacts.len() implies (#[trigger] artifacts[j]).name@ != name by {
                    if j < end {
                        assert(fewer[j] == artifacts[j]);
                    }
                }
            } else {
                assert forall|i: int| 0 <= i < artifacts.len() implies (#[trigger] artifacts[i]).name@ != name by {
                    if i < end {
                        assert(fewer[i] == artifacts[i]);
                    }
                }
            }
            if forall|i: int| 0 <= i < artifacts.len() ==> (#[trigger] artifacts[i]).name@ != name {
                assert forall|i: int| 0 <= i < fewer.len() implies (#[trigger] fewer[i]).name@ != name by {
                    assert(fewer[i] == artifacts[i]);
                }
            }
        } else {
            assert(artifacts[end].name@ == name);
        }
    }
}

/// Certificates are complete exactly where the manifest lists one of each party.
pub proof fn every_party_has_a_certificate(artifacts: Seq<Artifact>, parties: nat)
    ensures
        certificates_refusal(artifacts, parties) is None <==> forall|p: nat|
            p < parties ==> (#[trigger] listed(artifacts, "P"@ + decimal(p) + ".pem"@)) is Some,
    decreases parties,
{
    if parties > 0 {
        every_party_has_a_certificate(artifacts, (parties - 1) as nat);
        let last = listed(artifacts, "P"@ + decimal((parties - 1) as nat) + ".pem"@);
    }
}

proof fn counted_none(artifacts: Seq<Artifact>, tail: Seq<u8>)
    ensures
        count_ends(artifacts, tail) == 0 <==> forall|i: int|
            0 <= i < artifacts.len() ==> !ends(text_bytes((#[trigger] artifacts[i]).name@), tail),
    decreases artifacts.len(),
{
    if artifacts.len() > 0 {
        let fewer = artifacts.drop_last();
        counted_none(fewer, tail);
        let last = artifacts[artifacts.len() - 1];
        if count_ends(artifacts, tail) == 0 {
            assert forall|i: int| 0 <= i < artifacts.len() implies !ends(
                text_bytes((#[trigger] artifacts[i]).name@),
                tail,
            ) by {
                if i < fewer.len() {
                    assert(fewer[i] == artifacts[i]);
                }
            }
        } else if forall|i: int|
            0 <= i < artifacts.len() ==> !ends(text_bytes((#[trigger] artifacts[i]).name@), tail) {
            assert forall|i: int| 0 <= i < fewer.len() implies !ends(text_bytes((#[trigger] fewer[i]).name@), tail) by {
                assert(fewer[i] == artifacts[i]);
            }
        }
    }
}

/// Where one name is counted, no two artifacts have such a name.
pub proof fn one_is_counted_once(artifacts: Seq<Artifact>, tail: Seq<u8>, i: int, j: int)
    requires
        count_ends(artifacts, tail) == 1,
        0 <= i < artifacts.len(),
        0 <= j < artifacts.len(),
        ends(text_bytes(artifacts[i].name@), tail),
        ends(text_bytes(artifacts[j].name@), tail),
    ensures
        i == j,
    decreases artifacts.len(),
{
    let fewer = artifacts.drop_last();
    let end = artifacts.len() - 1;
    counted_none(fewer, tail);
    if i == end || j == end {
        if i != j {
            let k = if i == end {
                j
            } else {
                i
            };
            assert(fewer[k] == artifacts[k]);
        }
    } else if ends(text_bytes(artifacts[end].name@), tail) {
        assert(fewer[i] == artifacts[i]);
    } else {
        assert(fewer[i] == artifacts[i] && fewer[j] == artifacts[j]);
        one_is_counted_once(fewer, tail, i, j);
    }
}

proof fn texts_encode_in_turn(first: Seq<char>, second: Seq<char>)
    ensures
        text_bytes(first + second) == text_bytes(first) + text_bytes(second),
    decreases first.len(),
{
    if first.len() == 0 {
        assert(first + second =~= second);
        assert(text_bytes(first) + text_bytes(second) =~= text_bytes(second));
    } else {
        let all = first + second;
        assert(all.drop_first() =~= first.drop_first() + second);
        texts_encode_in_turn(first.drop_first(), second);
        assert(text_bytes(all) =~= text_bytes(first) + text_bytes(second));
    }
}

/// A node holds its own private key and no other's.
pub proof fn node_holds_its_own_key_alone(config: ResidentMpcConfig, i: int)
    requires
        config.only_own_key(),
        0 <= i < config.player_data_artifacts@.len(),
        ends(text_bytes(config.player_data_artifacts@[i].name@), text_bytes(".key"@)),
    ensures
        config.player_data_artifacts@[i].name@ == "P"@ + decimal(config.node as nat) + ".key"@,
{
    let name = "P"@ + decimal(config.node as nat) + ".key"@;
    let head = "P"@ + decimal(config.node as nat);
    texts_encode_in_turn(head, ".key"@);
    assert(text_bytes(name).skip(text_bytes(name).len() - text_bytes(".key"@).len()) =~= text_bytes(".key"@));
    listed_digest_is_of_the_name(config.player_data_artifacts@, name);
    let digest = listed(config.player_data_artifacts@, name)->0;
    let own = choose|own: int|
        0 <= own < config.player_data_artifacts@.len() && (
        #[trigger] config.player_data_artifacts@[own]).name@ == name && config.player_data_artifacts@[own].sha256@
            == digest;
    one_is_counted_once(config.player_data_artifacts@, text_bytes(".key"@), i, own);
}

/// A configuration is supported exactly for seven parties with a threshold of two, over
/// the group's own order, with a power of two of makers, the expected source, and a
/// program that is named plainly.
pub proof fn configuration_is_supported_exactly(config: ResidentMpcConfig, expected: Seq<char>, timely: bool)
    ensures
        config.supported(expected, timely) <==> {
            &&& config.version == 1 && config.n_parties == 7 && config.threshold == 2 && config.node < 7
            &&& config.n_mm > 0 && config.n_mm & ((config.n_mm - 1) as usize) == 0
            &&& config.prime@
                == "7237005577332262213973186563042994240857116359379907606001950938285454250989"@
            &&& config.source_sha256@ == expected && is_digest_text(text_bytes(expected))
            &&& timely
            &&& 0 < text_bytes(config.program@).len() <= 128
            &&& forall|i: int|
                0 <= i < text_bytes(config.program@).len() ==> {
                    let byte = #[trigger] text_bytes(config.program@)[i];
                    ||| 0x30 <= byte <= 0x39
                    ||| 0x41 <= byte <= 0x5a
                    ||| 0x61 <= byte <= 0x7a
                    ||| byte == 0x5f || byte == 0x2d
                }
        },
{
}

/// A deployment is accepted exactly where it is supported, every path is absolute, the
/// engine is the receipt-bound one, every file is as it was recorded, the two secret files
/// are the owner's alone, the program is listed whole, and the players' files are those of
/// this node.
pub proof fn deployment_is_accepted_exactly(
    config: ResidentMpcConfig,
    expected: Seq<char>,
    facts: DeploymentFacts,
)
    ensures
        config.refusal(expected, facts) is None <==> {
            &&& config.supported(expected, facts.timeout_in_range)
            &&& is_absolute(text_bytes(config.mp_spdz_root@)) && is_absolute(text_bytes(config.player_data_root@))
            &&& is_absolute(text_bytes(config.run_root@)) && is_absolute(text_bytes(config.host_file@))
            &&& is_absolute(text_bytes(config.party_binary@)) && is_absolute(text_bytes(config.library@))
            &&& is_absolute(text_bytes(config.state_store@)) && is_absolute(text_bytes(config.passphrase_file@))
            &&& facts.engine_policy is Ok
            &&& facts.binary_is_engine == Ok::<bool, String>(true)
            &&& facts.library_is_engine == Ok::<bool, String>(true)
            &&& artifact_refusal(config.host_file@, config.host_file_sha256@, false, facts.host_file) is None
            &&& artifact_refusal(config.party_binary@, config.party_binary_sha256@, true, facts.party_binary) is None
            &&& artifact_refusal(config.library@, config.library_sha256@, false, facts.library) is None
            &&& protected_refusal(config.passphrase_file@, "MPC-state passphrase"@, facts.passphrase_file) is None
            &&& protected_refusal(config.state_store@, "encrypted MPC state"@, facts.state_store) is None
            &&& listed(config.program_artifacts@, "Programs/Source/"@ + config.program@ + ".mpc"@) == Some(
                config.source_sha256@,
            )
            &&& listed(config.program_artifacts@, "Programs/Schedules/"@ + config.program@ + ".sch"@) is Some
            &&& exists|i: int|
                0 <= i < config.program_artifacts@.len() && starts(
                    text_bytes((#[trigger] config.program_artifacts@[i]).name@),
                    text_bytes("Programs/Bytecode/"@ + config.program@ + "-"@),
                )
            &&& programs_refusal(config.mp_spdz_root@, config.program_artifacts@, facts.programs@) is None
            &&& certificates_refusal(config.player_data_artifacts@, config.n_parties as nat) is None
            &&& config.only_own_key()
            &&& count_ends(config.player_data_artifacts@, text_bytes(".0"@)) >= config.n_parties
            &&& players_refusal(config.player_data_root@, config.player_data_artifacts@, facts.players@) is None
        },
{
    assert(facts.binary_is_engine matches Ok(same) ==> (same <==> facts.binary_is_engine == Ok::<bool, String>(true)));
    assert(facts.library_is_engine matches Ok(same) ==> (same <==> facts.library_is_engine == Ok::<bool, String>(
        true,
    )));
}

/// A node opens its own persistence and its own evidence, each below its root, not empty,
/// its owner's alone, and the evidence of at most sixty-four kibibytes.
pub proof fn node_opens_its_own_files(node: nat, file: LocalFile)
    ensures
        persistence_refusal(node, file) is None <==> {
            &&& file.below_root
            &&& file.name is Some && (file.name->0)@ == "Transactions-P"@ + decimal(node) + ".data"@
            &&& file.is_file && file.length > 0 && file.mode & 0o077 == 0
        },
        evidence_refusal(node, file) is None <==> {
            &&& file.below_root
            &&& file.name is Some && (file.name->0)@ == "dp-publication-P"@ + decimal(node) + ".json"@
            &&& file.is_file && 0 < file.length <= 0x1_0000 && file.mode & 0o077 == 0
        },
{
}

/// A path is taken exactly where it is relative, not empty, and never climbs.
pub proof fn path_is_taken_exactly(path: Seq<char>, complaint: Seq<char>)
    ensures
        path_refusal(path, complaint) is None <==> {
            &&& 0 < text_bytes(path).len() && text_bytes(path)[0] != 0x2f
            &&& forall|i: int|
                0 <= i < segments(text_bytes(path)).len() ==> #[trigger] segments(text_bytes(path))[i] != seq![
                    0x2eu8,
                    0x2eu8,
                ]
        },
{
    assert(above() =~= seq![0x2eu8, 0x2eu8]);
    assert(climbs(text_bytes(path)) <==> !(forall|i: int|
        0 <= i < segments(text_bytes(path)).len() ==> #[trigger] segments(text_bytes(path))[i] != above()));
}

/// A safe path is relative, does not start at a dot, and no part of it climbs.
pub proof fn safe_path_stays_below(path: Seq<u8>)
    ensures
        is_safe_relative(path) <==> {
            &&& path.len() == 0 || path[0] != 0x2f
            &&& segments(path)[0] != seq![0x2eu8]
            &&& forall|i: int| 0 <= i < segments(path).len() ==> #[trigger] segments(path)[i] != seq![0x2eu8, 0x2eu8]
        },
{
    assert(above() =~= seq![0x2eu8, 0x2eu8]);
    assert(here() =~= seq![0x2eu8]);
}

proof fn last_part_is_unbroken(path: Seq<u8>)
    ensures
        0 <= last_start(path) <= path.len(),
        forall|i: int| last_start(path) <= i < path.len() ==> path[i] != 0x2f,
        last_start(path) > 0 ==> path[last_start(path) - 1] == 0x2f,
    decreases path.len(),
{
    if path.len() > 0 && path.last() != 0x2f {
        let fewer = path.drop_last();
        last_part_is_unbroken(fewer);
        assert forall|i: int| last_start(path) <= i < path.len() implies path[i] != 0x2f by {
            if i < fewer.len() {
                assert(fewer[i] == path[i]);
            }
        }
    }
}

/// The parts of a path hold no separator, and joined by separators they give it again.
pub proof fn parts_make_up_the_path(path: Seq<u8>)
    ensures
        segments(path).len() > 0,
        forall|i: int, k: int|
            0 <= i < segments(path).len() && 0 <= k < segments(path)[i].len() ==> segments(path)[i][k] != 0x2f,
        joined_by(segments(path)) == path,
    decreases path.len(),
{
    let start = last_start(path);
    last_part_is_unbroken(path);
    if start > 0 {
        let head = path.take(start - 1);
        let tail = path.subrange(start, path.len() as int);
        parts_make_up_the_path(head);
        assert(segments(path).drop_last() =~= segments(head));
        assert(path =~= head + seq![0x2fu8] + tail);
        assert forall|i: int, k: int|
            0 <= i < segments(path).len() && 0 <= k < segments(path)[i].len() implies segments(path)[i][k] != 0x2f by {
            if i < segments(head).len() {
                assert(segments(path)[i] == segments(head)[i]);
            } else {
                assert(tail[k] == path[start + k]);
            }
        }
    } else {
        assert(segments(path)[0][0] == path[0] || path.len() == 0);
        assert(segments(path).len() == 1);
    }
}

/// Parts with a separator between each two.
pub open spec fn joined_by(parts: Seq<Seq<u8>>) -> Seq<u8>
    decreases parts.len(),
{
    if parts.len() == 0 {
        Seq::empty()
    } else if parts.len() == 1 {
        parts[0]
    } else {
        joined_by(parts.drop_last()) + seq![0x2fu8] + parts.last()
    }
}

proof fn newline_is_the_first(bytes: Seq<u8>)
    ensures
        0 <= newline_at(bytes) <= bytes.len(),
        forall|i: int| 0 <= i < newline_at(bytes) ==> bytes[i] != 0x0a,
        newline_at(bytes) < bytes.len() ==> bytes[newline_at(bytes)] == 0x0a,
    decreases bytes.len(),
{
    if bytes.len() > 0 && bytes[0] != 0x0a {
        let rest = bytes.skip(1);
        newline_is_the_first(rest);
        assert forall|i: int| 0 <= i < newline_at(bytes) implies bytes[i] != 0x0a by {
            if i > 0 {
                assert(rest[i - 1] == bytes[i]);
            }
        }
    }
}

/// A record is the bytes up to and with the first newline, where they are within the
/// limit; a stream is too long where they are not, or where it has no newline and is
/// longer than the limit.
pub proof fn record_ends_at_the_first_newline(stream: Seq<u8>, limit: nat)
    ensures
        record_of(stream, limit) matches Some(record) ==> {
            &&& 0 < record.len() <= limit
            &&& record.len() <= stream.len()
            &&& forall|i: int| 0 <= i < record.len() ==> record[i] == stream[i]
            &&& record[record.len() - 1] == 0x0a
            &&& forall|i: int| 0 <= i < record.len() - 1 ==> record[i] != 0x0a
        },
        record_of(stream, limit) is None ==> forall|i: int| 0 <= i < stream.len() && i < limit ==> stream[i] != 0x0a,
        record_too_long(stream, limit) <==> record_of(stream, limit) is None && stream.len() > limit,
{
    newline_is_the_first(stream);
    assert(has_newline(stream) <==> newline_at(stream) < stream.len());
}

/// A state that is opened starts with its mark, has room for a salt, a nonce and a tag,
/// and holds at most thirty-two mebibytes.
pub proof fn sealed_state_is_opened_exactly(raw: Seq<u8>, magic: Seq<char>)
    ensures
        is_sealed(magic, raw) <==> raw.len() >= text_bytes(magic).len() + 44 && raw.subrange(
            0,
            text_bytes(magic).len() as int,
        ) == text_bytes(magic),
        proof_state_refusal(raw) is None <==> raw.len() <= 0x200_0000 && is_sealed("QOMMPS01"@, raw),
{
    if raw.len() >= text_bytes(magic).len() {
        assert(raw.subrange(0, text_bytes(magic).len() as int) =~= raw.take(text_bytes(magic).len() as int));
    }
}

/// A run stands below directories of its source, its slot, its lane, its batch and its
/// node, in that order, and the party is started for its own number among as many as the
/// configuration names.
pub proof fn run_is_placed_by_what_it_runs(
    config: ResidentMpcConfig,
    source: Seq<char>,
    slot: nat,
    lane: nat,
    batch_digest: Seq<u8>,
    node: nat,
)
    ensures
        ({
            let places = run_directories(source, slot, lane, batch_digest, node);
            &&& places.len() == 5
            &&& source.len() >= 16 ==> places[0] == source.take(16)
            &&& source.len() < 16 ==> places[0] == source
            &&& places[1].take(5) == "slot-"@
            &&& places[2].take(5) == "lane-"@
            &&& places[3] == hex_text(batch_digest)
            &&& places[4] == "node-"@ + decimal(node)
        }),
        ({
            let given = party_arguments(config);
            &&& given.len() == 10
            &&& given[0] == decimal(config.node as nat)
            &&& given[1] == config.program@
            &&& given[2] == "-N"@ && given[3] == decimal(config.n_parties as nat)
            &&& given[4] == "-T"@ && given[5] == decimal(config.threshold as nat)
            &&& given[6] == "-ip"@ && given[7] == config.host_file@
            &&& given[8] == "-P"@ && given[9] == config.prime@
        }),
{
    reveal_strlit("slot-");
    reveal_strlit("lane-");
    let places = run_directories(source, slot, lane, batch_digest, node);
    assert(places[1].take(5) =~= "slot-"@);
    assert(places[2].take(5) =~= "lane-"@);
    if source.len() < 16 {
        assert(places[0] =~= source);
    }
}

/// A passphrase is the file's contents without the line ends at its end, and nothing else
/// is cut.
pub proof fn passphrase_loses_its_line_ends_alone(bytes: Seq<u8>)
    ensures
        trimmed(bytes).len() <= bytes.len(),
        forall|i: int| 0 <= i < trimmed(bytes).len() ==> trimmed(bytes)[i] == bytes[i],
        forall|i: int| trimmed(bytes).len() <= i < bytes.len() ==> bytes[i] == 10 || bytes[i] == 13,
        trimmed(bytes).len() > 0 ==> trimmed(bytes).last() != 10 && trimmed(bytes).last() != 13,
    decreases bytes.len(),
{
    if bytes.len() > 0 && (bytes.last() == 10 || bytes.last() == 13) {
        let fewer = bytes.drop_last();
        passphrase_loses_its_line_ends_alone(fewer);
        assert forall|i: int| 0 <= i < trimmed(bytes).len() implies trimmed(bytes)[i] == bytes[i] by {
            assert(trimmed(fewer)[i] == fewer[i]);
        }
        assert forall|i: int| trimmed(bytes).len() <= i < bytes.len() implies bytes[i] == 10 || bytes[i] == 13 by {
            if i < fewer.len() {
                assert(fewer[i] == bytes[i]);
            }
        }
    }
}

/// A state is kept at a path with a file name, absolute or safe below the root.
pub proof fn state_path_is_taken_exactly(path: Seq<char>)
    ensures
        state_path_refusal(path) is None <==> {
            let name = last_part(text_bytes(path));
            &&& name != text_bytes(""@) && name != text_bytes("."@) && name != text_bytes(".."@)
            &&& is_absolute(text_bytes(path)) || is_safe_relative(text_bytes(path))
        },
{
}

/// The last part of a path holds no separator.
pub proof fn last_part_holds_no_separator(path: Seq<u8>)
    ensures
        forall|i: int| 0 <= i < last_part(path).len() ==> last_part(path)[i] != 0x2f,
    decreases path.len(),
{
    last_part_is_unbroken(path);
    let start = last_start(path);
    if path.len() > 0 {
        if start == path.len() {
            last_part_holds_no_separator(path.drop_last());
            assert(last_part(path) == last_part(path.drop_last()));
        } else if start > 0 && path.subrange(start, path.len() as int) == here() {
            last_part_holds_no_separator(path.take(start - 1));
            assert(last_part(path) == last_part(path.take(start - 1)));
        } else {
            let tail = path.subrange(start, path.len() as int);
            assert(last_part(path) == tail);
            assert forall|i: int| 0 <= i < tail.len() implies tail[i] != 0x2f by {
                assert(tail[i] == path[start + i]);
            }
        }
    } else {
        assert(last_part(path).len() == 0);
    }
}

} // verus!
