//! What a proof party keeps on disk, as texts, and reading it back.

use vstd::prelude::*;
use crate::bytes::{array32, array64, copied, is_zero32, zero32};
use crate::digest_map::{DigestMap, DigestSet};
use crate::fields::{either, first, first_at, first_none, unless};
use crate::group::{is_point, Point};
use crate::proof_peers::is_hex_of;
use crate::proof_state::{CompletedProof, OpeningShares};
use crate::text::{about, hex_bytes, hex_decode, hex_encode, hex_round_trip, hex_text};

verus! {

/// A text under a name.
#[derive(Debug)]
pub struct TextPair {
    pub key: String,
    pub value: String,
}

/// What is kept of a completed proof.
#[derive(Debug)]
pub struct DurableCompletedProof {
    pub payment_digest: String,
    pub quote_digest: String,
    pub winning_policy_digest: Option<String>,
    pub typed_message_digest: Option<String>,
    pub maker_handle: Option<String>,
    pub taker_handle: Option<String>,
    pub maker_is_payer: Option<bool>,
    pub securities_reserve: Option<String>,
    pub cash_reserve: Option<String>,
    pub opening_shares: OpeningShares,
    pub application_action_digest: Option<String>,
}

/// What is kept of a completed proof, under the name of its job.
#[derive(Debug)]
pub struct DurableEvidence {
    pub job: String,
    pub completed: DurableCompletedProof,
}

/// Reads so many bytes from their hexadecimal text.
pub fn hex32_of(text: &str, complaint: &str) -> (r: Result<[u8; 32], String>)
    ensures
        match r {
            Ok(bytes) => is_hex_of(text@, 32) && bytes@ == hex_bytes(text@),
            Err(e) => !is_hex_of(text@, 32) && e@ == complaint@,
        },
{
    match hex_decode(text) {
        None => Err(complaint.to_owned()),
        Some(bytes) => if bytes.len() == 32 {
            assert(bytes@.subrange(0, 32) =~= bytes@);
            Ok(array32(bytes.as_slice(), 0))
        } else {
            Err(complaint.to_owned())
        },
    }
}

fn hex64_of(text: &str, complaint: &str) -> (r: Result<[u8; 64], String>)
    ensures
        match r {
            Ok(bytes) => is_hex_of(text@, 64) && bytes@ == hex_bytes(text@),
            Err(e) => !is_hex_of(text@, 64) && e@ == complaint@,
        },
{
    match hex_decode(text) {
        None => Err(complaint.to_owned()),
        Some(bytes) => if bytes.len() == 64 {
            assert(bytes@.subrange(0, 64) =~= bytes@);
            Ok(array64(bytes.as_slice(), 0))
        } else {
            Err(complaint.to_owned())
        },
    }
}

/// Why a digest that may be absent cannot be read.
pub open spec fn option_refusal(text: Option<String>, complaint: Seq<char>) -> Option<Seq<char>> {
    match text {
        None => None,
        Some(t) => unless(is_hex_of(t@, 32), complaint),
    }
}

/// Whether a digest that may be absent is the one of a text.
pub open spec fn option_said(text: Option<String>, digest: Option<[u8; 32]>) -> bool {
    match text {
        None => digest is None,
        Some(t) => digest is Some && (digest->0)@ == hex_bytes(t@),
    }
}

/// Whether a text that may be absent is the one of a digest.
pub open spec fn option_written(text: Option<String>, digest: Option<[u8; 32]>) -> bool {
    match digest {
        None => text is None,
        Some(d) => text is Some && (text->0)@ == hex_text(d@),
    }
}

/// Reads a digest that may be absent.
pub fn option_of(text: &Option<String>, complaint: &str) -> (r: Result<Option<[u8; 32]>, String>)
    ensures
        match r {
            Ok(digest) => option_refusal(*text, complaint@) is None && option_said(*text, digest),
            Err(e) => option_refusal(*text, complaint@) == Some(e@),
        },
{
    match text {
        None => Ok(None),
        Some(t) => match hex32_of(t.as_str(), complaint) {
            Err(e) => Err(e),
            Ok(digest) => Ok(Some(digest)),
        },
    }
}

/// The text of a digest that may be absent.
pub fn option_text(digest: &Option<[u8; 32]>) -> (text: Option<String>)
    ensures
        option_written(text, *digest),
{
    match digest {
        None => None,
        Some(d) => Some(hex_encode(d.as_slice())),
    }
}

/// Why a point that may be absent cannot be read.
pub open spec fn handle_option_refusal(text: Option<String>, name: Seq<char>) -> Option<Seq<char>> {
    match text {
        None => None,
        Some(t) => either(
            unless(is_hex_of(t@, 32), "stored "@ + name + " is malformed"@),
            unless(is_point(hex_bytes(t@)), "stored "@ + name + " is not canonical"@),
        ),
    }
}

fn handle_option_of(text: &Option<String>, name: &str) -> (r: Result<Option<[u8; 32]>, String>)
    ensures
        match r {
            Ok(digest) => handle_option_refusal(*text, name@) is None && option_said(*text, digest),
            Err(e) => handle_option_refusal(*text, name@) == Some(e@),
        },
{
    match text {
        None => Ok(None),
        Some(t) => {
            let stored = about("stored ", name);
            let malformed = about(stored.as_str(), " is malformed");
            match hex32_of(t.as_str(), malformed.as_str()) {
                Err(e) => Err(e),
                Ok(bytes) => if Point::from_canonical(bytes).is_none() {
                    Err(about(stored.as_str(), " is not canonical"))
                } else {
                    Ok(Some(bytes))
                },
            }
        },
    }
}

/// Why texts are not identifiers.
pub open spec fn ids_refusal(texts: Seq<String>, name: Seq<char>) -> Option<Seq<char>> {
    first(texts, |t: String| unless(is_hex_of(t@, 32), name + " contains a malformed identifier"@))
}

/// Whether the identifiers of texts are exactly those of a set.
pub open spec fn ids_said(texts: Seq<String>, ids: DigestSet) -> bool {
    &&& ids.sorted()
    &&& forall|i: int| 0 <= i < texts.len() ==> is_hex_of((#[trigger] texts[i])@, 32) && ids.has(hex_bytes(texts[i]@))
    &&& forall|k: Seq<u8>| #[trigger] ids.has(k) ==> listed(texts, k)
}

/// Whether a text of a list stands for a key.
pub open spec fn listed(texts: Seq<String>, key: Seq<u8>) -> bool {
    exists|i: int| 0 <= i < texts.len() && hex_bytes((#[trigger] texts[i])@) == key
}

/// Whether texts are those of a set, in its order.
pub open spec fn ids_written(texts: Seq<String>, ids: DigestSet) -> bool {
    &&& texts.len() == ids.entries@.len()
    &&& forall|i: int| 0 <= i < texts.len() ==> (#[trigger] texts[i])@ == hex_text(ids.entries@[i].key@)
}

/// Reads a set of identifiers.
#[verifier::loop_isolation(false)]
pub fn decode_set(texts: &Vec<String>, name: &str) -> (r: Result<DigestSet, String>)
    ensures
        match r {
            Ok(ids) => ids_refusal(texts@, name@) is None && ids_said(texts@, ids),
            Err(e) => ids_refusal(texts@, name@) == Some(e@),
        },
{
    let complaint = about(name, " contains a malformed identifier");
    let ghost check = |t: String| unless(is_hex_of(t@, 32), name@ + " contains a malformed identifier"@);
    let mut ids: DigestSet = DigestMap::new();
    let mut i: usize = 0;
    assert(texts@.take(0) =~= Seq::empty());
    while i < texts.len()
        invariant
            i <= texts@.len(),
            ids.sorted(),
            first(texts@.take(i as int), check) is None,
            forall|j: int|
                0 <= j < i ==> is_hex_of((#[trigger] texts@[j])@, 32) && ids.has(hex_bytes(texts@[j]@)),
            forall|k: Seq<u8>| #[trigger] ids.has(k) ==> listed(texts@.take(i as int), k),
        decreases texts@.len() - i,
    {
        proof {
            first_at(texts@, check, i as int);
        }
        match hex32_of(texts[i].as_str(), complaint.as_str()) {
            Err(e) => {
                return Err(e);
            },
            Ok(id) => {
                let ghost before = ids;
                ids.insert(id, ());
                proof {
                    let now = texts@.take(i + 1);
                    assert forall|j: int| 0 <= j < i + 1 implies is_hex_of((#[trigger] texts@[j])@, 32) && ids.has(
                        hex_bytes(texts@[j]@),
                    ) by {
                        let k = hex_bytes(texts@[j]@);
                        if k != id@ {
                            assert(before.has(k));
                            assert(ids.has(k) == before.has(k));
                        }
                    }
                    assert forall|k: Seq<u8>| #[trigger] ids.has(k) implies listed(now, k) by {
                        if k == id@ {
                            assert(hex_bytes(now[i as int]@) == k);
                        } else {
                            assert(before.has(k));
                            let j = choose|j: int|
                                0 <= j < i && hex_bytes((#[trigger] texts@.take(i as int)[j])@) == k;
                            assert(now[j] == texts@.take(i as int)[j]);
                            assert(hex_bytes(now[j]@) == k);
                        }
                    }
                }
            },
        }
        i = i + 1;
    }
    assert(texts@.take(i as int) =~= texts@);
    Ok(ids)
}

/// The texts of a set of identifiers.
pub fn encode_set(ids: &DigestSet) -> (texts: Vec<String>)
    ensures
        ids_written(texts@, *ids),
{
    let mut texts: Vec<String> = Vec::new();
    let mut i: usize = 0;
    while i < ids.entries.len()
        invariant
            i <= ids.entries@.len(),
            texts@.len() == i,
            forall|j: int| 0 <= j < i ==> (#[trigger] texts@[j])@ == hex_text(ids.entries@[j].key@),
        decreases ids.entries@.len() - i,
    {
        texts.push(hex_encode(ids.entries[i].key.as_slice()));
        i = i + 1;
    }
    texts
}

/// A set that was written and read back holds the same identifiers.
pub proof fn ids_round_trip(texts: Seq<String>, ids: DigestSet, read: DigestSet, name: Seq<char>)
    requires
        ids_written(texts, ids),
    ensures
        ids_refusal(texts, name) is None,
        ids_said(texts, read) ==> forall|k: Seq<u8>| #[trigger] read.has(k) == ids.has(k),
{
    let check = |t: String| unless(is_hex_of(t@, 32), name + " contains a malformed identifier"@);
    assert forall|i: int| 0 <= i < texts.len() implies check(#[trigger] texts[i]) is None && hex_bytes(texts[i]@)
        == ids.entries@[i].key@ by {
        hex_round_trip(ids.entries@[i].key@);
    }
    first_none(texts, check);
    if ids_said(texts, read) {
        assert forall|k: Seq<u8>| #[trigger] read.has(k) == ids.has(k) by {
            if read.has(k) {
                assert(listed(texts, k));
                let i = choose|i: int| 0 <= i < texts.len() && hex_bytes((#[trigger] texts[i])@) == k;
                assert(ids.entries@[i].key@ == k);
            }
            if ids.has(k) {
                let i = ids.place(k);
                assert(ids.entries@[i].key@ == k);
                assert(hex_bytes(texts[i]@) == k);
            }
        }
    }
}

/// How the pairs of a map are refused.
pub open spec fn pair_refusal(
    pair: TextPair,
    key_complaint: Seq<char>,
    value_complaint: Seq<char>,
    empty_complaint: Option<Seq<char>>,
) -> Option<Seq<char>> {
    either(
        unless(is_hex_of(pair.key@, 32), key_complaint),
        either(
            unless(is_hex_of(pair.value@, 32), value_complaint),
            if empty_complaint is Some && (hex_bytes(pair.key@) == zero32() || hex_bytes(pair.value@) == zero32()) {
                empty_complaint
            } else {
                None
            },
        ),
    )
}

/// Why texts are not the pairs of a map.
pub open spec fn pairs_refusal(
    pairs: Seq<TextPair>,
    key_complaint: Seq<char>,
    value_complaint: Seq<char>,
    empty_complaint: Option<Seq<char>>,
) -> Option<Seq<char>> {
    first(pairs, |p: TextPair| pair_refusal(p, key_complaint, value_complaint, empty_complaint))
}

/// What the first `count` pairs say. Of two pairs of one key the later counts.
pub open spec fn pairs_map(pairs: Seq<TextPair>, count: nat) -> Map<Seq<u8>, Seq<u8>>
    decreases count,
{
    if count == 0 || count > pairs.len() {
        Map::empty()
    } else {
        pairs_map(pairs, (count - 1) as nat).insert(
            hex_bytes(pairs[count - 1].key@),
            hex_bytes(pairs[count - 1].value@),
        )
    }
}

/// Whether a map of digests is a mathematical map.
pub open spec fn is_map(map: DigestMap<[u8; 32]>, model: Map<Seq<u8>, Seq<u8>>) -> bool {
    &&& map.sorted()
    &&& forall|k: Seq<u8>| #[trigger] map.has(k) == model.dom().contains(k)
    &&& forall|k: Seq<u8>| #[trigger] map.has(k) ==> map.at(k)@ == model[k]
}

/// Whether pairs are those of a map, in its order.
pub open spec fn pairs_written(pairs: Seq<TextPair>, map: DigestMap<[u8; 32]>) -> bool {
    &&& pairs.len() == map.entries@.len()
    &&& forall|i: int|
        #![trigger pairs[i]]
        0 <= i < pairs.len() ==> pairs[i].key@ == hex_text(map.entries@[i].key@) && pairs[i].value@ == hex_text(
            map.entries@[i].value@,
        )
}

/// The text of a complaint that may be absent.
pub open spec fn told_text(text: Option<&str>) -> Option<Seq<char>> {
    match text {
        Some(t) => Some(t@),
        None => None,
    }
}

/// Reads a map of digests.
#[verifier::loop_isolation(false)]
pub fn decode_pairs(
    pairs: &Vec<TextPair>,
    key_complaint: &str,
    value_complaint: &str,
    empty_complaint: Option<&str>,
) -> (r: Result<DigestMap<[u8; 32]>, String>)
    ensures
        match r {
            Ok(map) => {
                &&& pairs_refusal(pairs@, key_complaint@, value_complaint@, told_text(empty_complaint)) is None
                &&& is_map(map, pairs_map(pairs@, pairs@.len()))
            },
            Err(e) => pairs_refusal(pairs@, key_complaint@, value_complaint@, told_text(empty_complaint)) == Some(e@),
        },
{
    let ghost check = |p: TextPair| pair_refusal(p, key_complaint@, value_complaint@, told_text(empty_complaint));
    let mut map: DigestMap<[u8; 32]> = DigestMap::new();
    let mut i: usize = 0;
    assert(pairs@.take(0) =~= Seq::empty());
    while i < pairs.len()
        invariant
            i <= pairs@.len(),
            is_map(map, pairs_map(pairs@, i as nat)),
            first(pairs@.take(i as int), check) is None,
        decreases pairs@.len() - i,
    {
        proof {
            first_at(pairs@, check, i as int);
        }
        let key = match hex32_of(pairs[i].key.as_str(), key_complaint) {
            Err(e) => {
                return Err(e);
            },
            Ok(key) => key,
        };
        let value = match hex32_of(pairs[i].value.as_str(), value_complaint) {
            Err(e) => {
                return Err(e);
            },
            Ok(value) => value,
        };
        if let Some(complaint) = empty_complaint {
            if is_zero32(&key) || is_zero32(&value) {
                return Err(complaint.to_owned());
            }
        }
        let ghost before = map;
        map.insert(key, value);
        proof {
            assert forall|k: Seq<u8>| #[trigger] map.has(k) == pairs_map(pairs@, (i + 1) as nat).dom().contains(k) by {
                if k != key@ {
                    assert(map.has(k) == before.has(k));
                }
            }
            assert forall|k: Seq<u8>| #[trigger] map.has(k) implies map.at(k)@ == pairs_map(pairs@,
                (i + 1) as nat)[k] by {
                if k != key@ {
                    assert(before.has(k));
                }
            }
        }
        i = i + 1;
    }
    assert(pairs@.take(i as int) =~= pairs@);
    Ok(map)
}

/// The texts of a map of digests.
pub fn encode_pairs(map: &DigestMap<[u8; 32]>) -> (pairs: Vec<TextPair>)
    ensures
        pairs_written(pairs@, *map),
{
    let mut pairs: Vec<TextPair> = Vec::new();
    let mut i: usize = 0;
    while i < map.entries.len()
        invariant
            i <= map.entries@.len(),
            pairs@.len() == i,
            forall|j: int|
                #![trigger pairs@[j]]
                0 <= j < i ==> pairs@[j].key@ == hex_text(map.entries@[j].key@) && pairs@[j].value@ == hex_text(
                    map.entries@[j].value@,
                ),
        decreases map.entries@.len() - i,
    {
        pairs.push(
            TextPair {
                key: hex_encode(map.entries[i].key.as_slice()),
                value: hex_encode(map.entries[i].value.as_slice()),
            },
        );
        i = i + 1;
    }
    pairs
}

/// The pairs of a sorted map say what the map holds up to a place.
proof fn pairs_hold(pairs: Seq<TextPair>, map: DigestMap<[u8; 32]>, count: nat, k: Seq<u8>)
    requires
        map.sorted(),
        pairs_written(pairs, map),
        count <= pairs.len(),
    ensures
        pairs_map(pairs, count).dom().contains(k) == (map.has(k) && map.place(k) < count),
        map.has(k) && map.place(k) < count ==> pairs_map(pairs, count)[k] == map.at(k)@,
    decreases count,
{
    if count > 0 {
        let at = count - 1;
        pairs_hold(pairs, map, at as nat, k);
        let entry = map.entries@[at];
        hex_round_trip(entry.key@);
        hex_round_trip(entry.value@);
        map.only_place(entry.key@, at);
        assert(pairs[at].key@ == hex_text(entry.key@));
        let before = pairs_map(pairs, at as nat);
        assert(pairs_map(pairs, count) == before.insert(entry.key@, entry.value@));
        if k != entry.key@ && map.has(k) && map.place(k) == at {
            assert(map.entries@[map.place(k)].key@ == k);
        }
    }
}

/// Whether two maps hold the same digest under a key.
pub open spec fn same_digest(a: DigestMap<[u8; 32]>, b: DigestMap<[u8; 32]>, key: Seq<u8>) -> bool {
    &&& a.has(key) == b.has(key)
    &&& b.has(key) ==> a.at(key)@ == b.at(key)@
}

/// Whether two maps hold the same digests.
pub open spec fn same_digests(a: DigestMap<[u8; 32]>, b: DigestMap<[u8; 32]>) -> bool {
    forall|k: Seq<u8>| #![trigger a.has(k)] same_digest(a, b, k)
}

/// A map that was written and read back holds the same.
pub proof fn pairs_round_trip(
    pairs: Seq<TextPair>,
    map: DigestMap<[u8; 32]>,
    read: DigestMap<[u8; 32]>,
    key_complaint: Seq<char>,
    value_complaint: Seq<char>,
    empty_complaint: Option<Seq<char>>,
)
    requires
        map.sorted(),
        pairs_written(pairs, map),
        empty_complaint is Some ==> forall|k: Seq<u8>| #[trigger]
            map.has(k) ==> k != zero32() && map.at(k)@ != zero32(),
    ensures
        pairs_refusal(pairs, key_complaint, value_complaint, empty_complaint) is None,
        is_map(read, pairs_map(pairs, pairs.len())) ==> same_digests(read, map),
{
    let check = |p: TextPair| pair_refusal(p, key_complaint, value_complaint, empty_complaint);
    assert forall|i: int| 0 <= i < pairs.len() implies check(#[trigger] pairs[i]) is None by {
        let entry = map.entries@[i];
        hex_round_trip(entry.key@);
        hex_round_trip(entry.value@);
        map.only_place(entry.key@, i);
        assert(map.has(entry.key@));
        assert(map.at(entry.key@) == entry.value);
    }
    first_none(pairs, check);
    if is_map(read, pairs_map(pairs, pairs.len())) {
        assert forall|k: Seq<u8>| #![trigger read.has(k)] same_digest(read, map, k) by {
            pairs_hold(pairs, map, pairs.len(), k);
            let model = pairs_map(pairs, pairs.len());
            if map.has(k) {
                assert(map.entries@[map.place(k)].key@ == k);
                assert(0 <= map.place(k) < map.entries@.len());
                assert(model.dom().contains(k));
            }
            assert(read.has(k) == model.dom().contains(k));
            assert(read.has(k) == map.has(k));
            if read.has(k) {
                assert(read.at(k)@ == model[k]);
            }
        }
    }
}

/// A copy of the shares given out for a job.
pub fn copy_shares(shares: &OpeningShares) -> (copy: OpeningShares)
    ensures
        same_shares(copy, *shares),
{
    OpeningShares {
        securities_delivery: copy_share(&shares.securities_delivery),
        securities_refund: copy_share(&shares.securities_refund),
        cash_delivery: copy_share(&shares.cash_delivery),
        cash_refund: copy_share(&shares.cash_refund),
    }
}

fn copy_share(share: &Option<Vec<u8>>) -> (copy: Option<Vec<u8>>)
    ensures
        same_share(copy, *share),
{
    match share {
        None => None,
        Some(bytes) => Some(copied(bytes.as_slice())),
    }
}

/// Whether two shares that may be absent are the same bytes.
pub open spec fn same_share(a: Option<Vec<u8>>, b: Option<Vec<u8>>) -> bool {
    match b {
        None => a is None,
        Some(bytes) => a is Some && (a->0)@ == bytes@,
    }
}

/// Whether the same shares were given out.
pub open spec fn same_shares(a: OpeningShares, b: OpeningShares) -> bool {
    &&& same_share(a.securities_delivery, b.securities_delivery)
    &&& same_share(a.securities_refund, b.securities_refund)
    &&& same_share(a.cash_delivery, b.cash_delivery)
    &&& same_share(a.cash_refund, b.cash_refund)
}

impl DurableEvidence {
    /// Why what is kept of a completed proof cannot be read.
    pub open spec fn refusal(self) -> Option<Seq<char>> {
        let kept = self.completed;
        either(unless(is_hex_of(kept.payment_digest@, 64), "stored completed payment digest is malformed"@),
        either(unless(is_hex_of(kept.quote_digest@, 32), "stored completed quote digest is malformed"@),
        either(option_refusal(kept.typed_message_digest, "stored typed message digest is malformed"@),
        either(option_refusal(kept.winning_policy_digest, "stored winning policy digest is malformed"@),
        either(unless(is_hex_of(self.job@, 32), "stored completed proof job is malformed"@),
        either(handle_option_refusal(kept.maker_handle, "completed Maker handle"@),
        either(handle_option_refusal(kept.taker_handle, "completed Taker handle"@),
        either(handle_option_refusal(kept.securities_reserve, "completed securities reserve"@),
        either(handle_option_refusal(kept.cash_reserve, "completed cash reserve"@),
        option_refusal(kept.application_action_digest,
            "stored application action must be a 32-byte hexadecimal value"@))))))))))
    }

    /// Whether a completed proof is the one that is kept.
    pub open spec fn says(self, value: CompletedProof) -> bool {
        let kept = self.completed;
        &&& value.payment_digest@ == hex_bytes(kept.payment_digest@)
        &&& value.quote_digest@ == hex_bytes(kept.quote_digest@)
        &&& option_said(kept.winning_policy_digest, value.winning_policy_digest)
        &&& option_said(kept.typed_message_digest, value.typed_message_digest)
        &&& option_said(kept.maker_handle, value.maker_handle)
        &&& option_said(kept.taker_handle, value.taker_handle)
        &&& value.maker_is_payer == kept.maker_is_payer
        &&& option_said(kept.securities_reserve, value.securities_reserve)
        &&& option_said(kept.cash_reserve, value.cash_reserve)
        &&& same_shares(value.opening_shares, kept.opening_shares)
        &&& option_said(kept.application_action_digest, value.application_action_digest)
    }

    /// Whether this is what is kept of a completed proof.
    pub open spec fn writes(self, job: Seq<u8>, value: CompletedProof) -> bool {
        let kept = self.completed;
        &&& self.job@ == hex_text(job)
        &&& kept.payment_digest@ == hex_text(value.payment_digest@)
        &&& kept.quote_digest@ == hex_text(value.quote_digest@)
        &&& option_written(kept.winning_policy_digest, value.winning_policy_digest)
        &&& option_written(kept.typed_message_digest, value.typed_message_digest)
        &&& option_written(kept.maker_handle, value.maker_handle)
        &&& option_written(kept.taker_handle, value.taker_handle)
        &&& kept.maker_is_payer == value.maker_is_payer
        &&& option_written(kept.securities_reserve, value.securities_reserve)
        &&& option_written(kept.cash_reserve, value.cash_reserve)
        &&& same_shares(kept.opening_shares, value.opening_shares)
        &&& option_written(kept.application_action_digest, value.application_action_digest)
    }

    fn read(&self) -> (r: Result<([u8; 32], CompletedProof), String>)
        ensures
            match r {
                Ok((job, value)) => {
                    &&& self.refusal() is None
                    &&& job@ == hex_bytes(self.job@)
                    &&& self.says(value)
                },
                Err(e) => self.refusal() == Some(e@),
            },
    {
        let kept = &self.completed;
        let payment_digest = match hex64_of(kept.payment_digest.as_str(),
            "stored completed payment digest is malformed") {
            Err(e) => {
                return Err(e);
            },
            Ok(value) => value,
        };
        let quote_digest = match hex32_of(kept.quote_digest.as_str(), "stored completed quote digest is malformed") {
            Err(e) => {
                return Err(e);
            },
            Ok(value) => value,
        };
        let typed_message_digest = match option_of(&kept.typed_message_digest,
            "stored typed message digest is malformed") {
            Err(e) => {
                return Err(e);
            },
            Ok(value) => value,
        };
        let winning_policy_digest = match option_of(&kept.winning_policy_digest,
            "stored winning policy digest is malformed") {
            Err(e) => {
                return Err(e);
            },
            Ok(value) => value,
        };
        let job = match hex32_of(self.job.as_str(), "stored completed proof job is malformed") {
            Err(e) => {
                return Err(e);
            },
            Ok(value) => value,
        };
        let maker_handle = match handle_option_of(&kept.maker_handle, "completed Maker handle") {
            Err(e) => {
                return Err(e);
            },
            Ok(value) => value,
        };
        let taker_handle = match handle_option_of(&kept.taker_handle, "completed Taker handle") {
            Err(e) => {
                return Err(e);
            },
            Ok(value) => value,
        };
        let securities_reserve = match handle_option_of(&kept.securities_reserve, "completed securities reserve") {
            Err(e) => {
                return Err(e);
            },
            Ok(value) => value,
        };
        let cash_reserve = match handle_option_of(&kept.cash_reserve, "completed cash reserve") {
            Err(e) => {
                return Err(e);
            },
            Ok(value) => value,
        };
        let application_action_digest = match option_of(&kept.application_action_digest,
            "stored application action must be a 32-byte hexadecimal value") {
            Err(e) => {
                return Err(e);
            },
            Ok(value) => value,
        };
        Ok(
            (
                job,
                CompletedProof {
                    payment_digest,
                    quote_digest,
                    winning_policy_digest,
                    typed_message_digest,
                    maker_handle,
                    taker_handle,
                    maker_is_payer: kept.maker_is_payer,
                    securities_reserve,
                    cash_reserve,
                    opening_shares: copy_shares(&kept.opening_shares),
                    application_action_digest,
                },
            ),
        )
    }

    fn write(job: &[u8; 32], value: &CompletedProof) -> (evidence: DurableEvidence)
        ensures
            evidence.writes(job@, *value),
    {
        DurableEvidence {
            job: hex_encode(job.as_slice()),
            completed: DurableCompletedProof {
                payment_digest: hex_encode(value.payment_digest.as_slice()),
                quote_digest: hex_encode(value.quote_digest.as_slice()),
                winning_policy_digest: option_text(&value.winning_policy_digest),
                typed_message_digest: option_text(&value.typed_message_digest),
                maker_handle: option_text(&value.maker_handle),
                taker_handle: option_text(&value.taker_handle),
                maker_is_payer: value.maker_is_payer,
                securities_reserve: option_text(&value.securities_reserve),
                cash_reserve: option_text(&value.cash_reserve),
                opening_shares: copy_shares(&value.opening_shares),
                application_action_digest: option_text(&value.application_action_digest),
            },
        }
    }
}

/// Why what is kept of completed proofs cannot be read.
pub open spec fn evidence_refusal(kept: Seq<DurableEvidence>) -> Option<Seq<char>> {
    first(kept, |e: DurableEvidence| e.refusal())
}

/// Where the last record of a job stands among the first `count`, or minus one.
pub open spec fn last_of(kept: Seq<DurableEvidence>, job: Seq<u8>, count: nat) -> int
    decreases count,
{
    if count == 0 || count > kept.len() {
        -1
    } else if hex_bytes(kept[count - 1].job@) == job {
        count - 1
    } else {
        last_of(kept, job, (count - 1) as nat)
    }
}

/// Whether completed proofs are those that are kept. Of two records of one job
/// the later counts.
pub open spec fn evidence_said(kept: Seq<DurableEvidence>, count: nat, map: DigestMap<CompletedProof>) -> bool {
    &&& map.sorted()
    &&& forall|k: Seq<u8>| #[trigger] map.has(k) == (last_of(kept, k, count) >= 0)
    &&& forall|k: Seq<u8>| #[trigger] map.has(k) ==> kept[last_of(kept, k, count)].says(map.at(k))
}

/// Whether records are those of completed proofs, in their order.
pub open spec fn evidence_written(kept: Seq<DurableEvidence>, map: DigestMap<CompletedProof>) -> bool {
    &&& kept.len() == map.entries@.len()
    &&& forall|i: int|
        #![trigger kept[i]]
        0 <= i < kept.len() ==> kept[i].writes(map.entries@[i].key@, map.entries@[i].value)
}

/// Reads what is kept of completed proofs.
#[verifier::loop_isolation(false)]
pub fn decode_evidence(kept: &Vec<DurableEvidence>) -> (r: Result<DigestMap<CompletedProof>, String>)
    ensures
        match r {
            Ok(map) => evidence_refusal(kept@) is None && evidence_said(kept@, kept@.len(), map),
            Err(e) => evidence_refusal(kept@) == Some(e@),
        },
{
    let ghost check = |e: DurableEvidence| e.refusal();
    let mut map: DigestMap<CompletedProof> = DigestMap::new();
    let mut i: usize = 0;
    assert(kept@.take(0) =~= Seq::empty());
    while i < kept.len()
        invariant
            i <= kept@.len(),
            evidence_said(kept@, i as nat, map),
            first(kept@.take(i as int), check) is None,
        decreases kept@.len() - i,
    {
        proof {
            first_at(kept@, check, i as int);
        }
        let (job, value) = match kept[i].read() {
            Err(e) => {
                return Err(e);
            },
            Ok(found) => found,
        };
        let ghost before = map;
        map.insert(job, value);
        proof {
            assert forall|k: Seq<u8>| #[trigger] map.has(k) == (last_of(kept@, k, (i + 1) as nat) >= 0) by {
                if k != job@ {
                    assert(map.has(k) == before.has(k));
                }
            }
            assert forall|k: Seq<u8>| #[trigger] map.has(k) implies kept@[last_of(kept@, k, (i + 1) as nat)].says(
                map.at(k),
            ) by {
                if k != job@ {
                    assert(before.has(k));
                }
            }
        }
        i = i + 1;
    }
    assert(kept@.take(i as int) =~= kept@);
    Ok(map)
}

/// What is kept of completed proofs.
pub fn encode_evidence(map: &DigestMap<CompletedProof>) -> (kept: Vec<DurableEvidence>)
    ensures
        evidence_written(kept@, *map),
{
    let mut kept: Vec<DurableEvidence> = Vec::new();
    let mut i: usize = 0;
    while i < map.entries.len()
        invariant
            i <= map.entries@.len(),
            kept@.len() == i,
            forall|j: int|
                #![trigger kept@[j]]
                0 <= j < i ==> kept@[j].writes(map.entries@[j].key@, map.entries@[j].value),
        decreases map.entries@.len() - i,
    {
        kept.push(DurableEvidence::write(&map.entries[i].key, &map.entries[i].value));
        i = i + 1;
    }
    kept
}

/// Whether two digests that may be absent are the same.
pub open spec fn same_option(a: Option<[u8; 32]>, b: Option<[u8; 32]>) -> bool {
    match b {
        None => a is None,
        Some(d) => a is Some && (a->0)@ == d@,
    }
}

/// Whether the same is retained of a completed proof.
pub open spec fn same_evidence(a: CompletedProof, b: CompletedProof) -> bool {
    &&& a.payment_digest@ == b.payment_digest@
    &&& a.quote_digest@ == b.quote_digest@
    &&& same_option(a.winning_policy_digest, b.winning_policy_digest)
    &&& same_option(a.typed_message_digest, b.typed_message_digest)
    &&& same_option(a.maker_handle, b.maker_handle)
    &&& same_option(a.taker_handle, b.taker_handle)
    &&& a.maker_is_payer == b.maker_is_payer
    &&& same_option(a.securities_reserve, b.securities_reserve)
    &&& same_option(a.cash_reserve, b.cash_reserve)
    &&& same_shares(a.opening_shares, b.opening_shares)
    &&& same_option(a.application_action_digest, b.application_action_digest)
}

proof fn option_round_trip(text: Option<String>, digest: Option<[u8; 32]>, read: Option<[u8; 32]>, complaint: Seq<char>)
    requires
        option_written(text, digest),
    ensures
        option_refusal(text, complaint) is None,
        option_said(text, read) ==> same_option(read, digest),
{
    if digest is Some {
        hex_round_trip((digest->0)@);
    }
}

/// The last record of a job is the one of its place in a sorted map.
proof fn last_is_place(kept: Seq<DurableEvidence>, map: DigestMap<CompletedProof>, job: Seq<u8>, count: nat)
    requires
        map.sorted(),
        evidence_written(kept, map),
        count <= kept.len(),
    ensures
        last_of(kept, job, count) >= 0 <==> map.has(job) && map.place(job) < count,
        last_of(kept, job, count) >= 0 ==> last_of(kept, job, count) == map.place(job),
    decreases count,
{
    if count > 0 {
        let at = count - 1;
        last_is_place(kept, map, job, at as nat);
        let entry = map.entries@[at];
        assert(kept[at].writes(entry.key@, entry.value));
        hex_round_trip(entry.key@);
        map.only_place(entry.key@, at);
        if map.has(job) && map.place(job) == at {
            assert(map.entries@[map.place(job)].key@ == job);
        }
    }
}

/// Whether the points retained of a completed proof are points.
pub open spec fn canonical_evidence(value: CompletedProof) -> bool {
    &&& value.maker_handle matches Some(p) ==> is_point(p@)
    &&& value.taker_handle matches Some(p) ==> is_point(p@)
    &&& value.securities_reserve matches Some(p) ==> is_point(p@)
    &&& value.cash_reserve matches Some(p) ==> is_point(p@)
}

/// What is kept of completed proofs gives the same back.
pub proof fn evidence_round_trip(
    kept: Seq<DurableEvidence>,
    map: DigestMap<CompletedProof>,
    read: DigestMap<CompletedProof>,
)
    requires
        map.sorted(),
        evidence_written(kept, map),
        forall|k: Seq<u8>| #[trigger] map.has(k) ==> canonical_evidence(map.at(k)),
    ensures
        evidence_refusal(kept) is None,
        evidence_said(kept, kept.len(), read) ==> forall|k: Seq<u8>| #[trigger]
            read.has(k) == map.has(k) && (map.has(k) ==> same_evidence(read.at(k), map.at(k))),
{
    let check = |e: DurableEvidence| e.refusal();
    assert forall|i: int| 0 <= i < kept.len() implies check(#[trigger] kept[i]) is None by {
        let entry = map.entries@[i];
        map.only_place(entry.key@, i);
        assert(map.has(entry.key@));
        assert(canonical_evidence(map.at(entry.key@)));
        written_is_read(kept[i], entry.key@, entry.value, entry.value);
    }
    first_none(kept, check);
    if evidence_said(kept, kept.len(), read) {
        assert forall|k: Seq<u8>| #[trigger] read.has(k) == map.has(k) && (map.has(k) ==> same_evidence(
            read.at(k),
            map.at(k),
        )) by {
            last_is_place(kept, map, k, kept.len());
            if map.has(k) {
                let i = map.place(k);
                assert(map.entries@[i].key@ == k);
                assert(read.has(k));
                assert(kept[i].says(read.at(k)));
                assert(canonical_evidence(map.at(k)));
                written_is_read(kept[i], map.entries@[i].key@, map.entries@[i].value, read.at(k));
            }
        }
    }
}

proof fn written_is_read(kept: DurableEvidence, job: Seq<u8>, value: CompletedProof, read: CompletedProof)
    requires
        kept.writes(job, value),
        canonical_evidence(value),
        job.len() == 32,
    ensures
        kept.refusal() is None,
        kept.says(read) ==> same_evidence(read, value),
{
    let record = kept.completed;
    hex_round_trip(job);
    hex_round_trip(value.payment_digest@);
    hex_round_trip(value.quote_digest@);
    option_round_trip(record.winning_policy_digest, value.winning_policy_digest, read.winning_policy_digest, ""@);
    option_round_trip(record.typed_message_digest, value.typed_message_digest, read.typed_message_digest, ""@);
    option_round_trip(record.maker_handle, value.maker_handle, read.maker_handle, ""@);
    option_round_trip(record.taker_handle, value.taker_handle, read.taker_handle, ""@);
    option_round_trip(record.securities_reserve, value.securities_reserve, read.securities_reserve, ""@);
    option_round_trip(record.cash_reserve, value.cash_reserve, read.cash_reserve, ""@);
    option_round_trip(record.application_action_digest, value.application_action_digest,
        read.application_action_digest, ""@);
    if value.maker_handle is Some {
        hex_round_trip((value.maker_handle->0)@);
    }
    if value.taker_handle is Some {
        hex_round_trip((value.taker_handle->0)@);
    }
    if value.securities_reserve is Some {
        hex_round_trip((value.securities_reserve->0)@);
    }
    if value.cash_reserve is Some {
        hex_round_trip((value.cash_reserve->0)@);
    }
}

} // verus!
