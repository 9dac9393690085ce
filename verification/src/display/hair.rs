//! Hair: lobe-wiring check, the three geometry tiers and their translucency
//! paths, the strand-to-card replacement bake, and the not-triggered
//! registration of the strand tier.

use vstd::prelude::*;
use vstd::utf8::encode_utf8;

use crate::bytes::{count_from, contains_bytes, count_occurrences, find_bytes, push_u32_le, u32_le};
use crate::digest::{sha256_digest, sha256_of};

verus! {

/// Strands per replacement cluster (a bake property).
pub const STRAND_CLUSTER_SIZE: u32 = 8;
/// Follow-up anchor of the strand tier registration.
pub const STRAND_TIER_ANCHOR: &'static str = "M120 精确档 benchmark 裁决数据落地后重判,兜底 G9.7 穷举";
/// Largest strand count whose clusters can be numbered in `u32`.
pub const MAX_BAKE_STRANDS: u32 = 4294967288;

pub const ZERO_STRANDS: &'static str = "零 strand";
pub const M120_MISSING: &'static str = "M120 测量冻结带缺失——数据可得性不足";
pub const M120_PRESENT: &'static str = "M120 测量带已落地(host 确定性参照,linked-list 记录在案)但精确档裁决数据未落地(M120 仅测量不定档)——strand 档分项维持 not-triggered 不充绿,待承接锚重判";
pub const LINKED_LIST_KEY: &'static str = "\"linked_list_";
pub const HOST_ONLY: &'static str = "host-only";

/// Failure classes of hair shading.
#[derive(Debug, Clone, PartialEq)]
pub enum HairError {
    /// Zeroing one lobe made no visible difference: the lobe is not wired.
    LobeNotWired { lobe: &'static str },
    /// The strand tier asked for a translucency path other than exact OIT.
    StrandTierRequiresExactOit { requested: &'static str },
    /// A non-finite input.
    NonFiniteValue { stage: &'static str },
    /// A non-canonical construction.
    NotCanonical(&'static str),
}

/// The lobe that a red-arm render zeroes.
#[derive(Debug, Clone, Copy, PartialEq, Eq, Structural)]
pub enum ZeroLobe {
    R,
    Tt,
    Trt,
}

impl ZeroLobe {
    pub open spec fn spec_str(self) -> Seq<char> {
        match self {
            ZeroLobe::R => "R"@,
            ZeroLobe::Tt => "TT"@,
            ZeroLobe::Trt => "TRT"@,
        }
    }

    pub fn as_str(&self) -> (r: &'static str)
        ensures
            r@ == self.spec_str(),
    {
        match self {
            ZeroLobe::R => "R",
            ZeroLobe::Tt => "TT",
            ZeroLobe::Trt => "TRT",
        }
    }
}

/// Lobe wiring check: the sweep digest with one lobe zeroed must differ from
/// the full sweep digest; equal digests mean the lobe is not wired.
pub fn assert_lobe_wired(full_digest: &[u8; 32], zeroed_digest: &[u8; 32], lobe: ZeroLobe) -> (r:
    Result<(), HairError>)
    ensures
        r is Ok <==> full_digest@ != zeroed_digest@,
        r is Err ==> (r matches Err(HairError::LobeNotWired { lobe: l }) && l@ == lobe.spec_str()),
{
    let mut i: usize = 0;
    while i < 32
        invariant
            i <= 32,
            full_digest@.len() == 32,
            zeroed_digest@.len() == 32,
            forall|k: int| 0 <= k < i ==> full_digest@[k] == zeroed_digest@[k],
        decreases 32 - i,
    {
        if full_digest[i] != zeroed_digest[i] {
            return Ok(());
        }
        i = i + 1;
    }
    assert(full_digest@ =~= zeroed_digest@);
    Err(HairError::LobeNotWired { lobe: lobe.as_str() })
}

/// The three geometry tiers.
#[derive(Debug, Clone, Copy, PartialEq, Eq, Structural)]
pub enum HairTier {
    /// Near: per-strand (exact OIT required).
    Strand,
    /// Middle: cards (default translucency).
    Card,
    /// Far: mesh (default translucency).
    Mesh,
}

impl HairTier {
    pub open spec fn spec_str(self) -> Seq<char> {
        match self {
            HairTier::Strand => "strand"@,
            HairTier::Card => "card"@,
            HairTier::Mesh => "mesh"@,
        }
    }

    pub fn as_str(&self) -> (r: &'static str)
        ensures
            r@ == self.spec_str(),
    {
        match self {
            HairTier::Strand => "strand",
            HairTier::Card => "card",
            HairTier::Mesh => "mesh",
        }
    }
}

/// Translucency paths.
#[derive(Debug, Clone, Copy, PartialEq, Eq, Structural)]
pub enum TranslucencyPath {
    /// Default translucency (card and mesh tiers).
    DefaultTranslucent,
    /// Depth-sorted alpha fallback (refused for strands).
    SortedFallback,
    /// Exact linked-list OIT (hair strands only).
    ExactLinkedList,
}

impl TranslucencyPath {
    pub open spec fn spec_str(self) -> Seq<char> {
        match self {
            TranslucencyPath::DefaultTranslucent => "default_translucent"@,
            TranslucencyPath::SortedFallback => "sorted_fallback"@,
            TranslucencyPath::ExactLinkedList => "exact_linked_list"@,
        }
    }

    pub fn as_str(&self) -> (r: &'static str)
        ensures
            r@ == self.spec_str(),
    {
        match self {
            TranslucencyPath::DefaultTranslucent => "default_translucent",
            TranslucencyPath::SortedFallback => "sorted_fallback",
            TranslucencyPath::ExactLinkedList => "exact_linked_list",
        }
    }
}

/// Tier to translucency path: card and mesh take the default path, strands
/// the exact linked list.
pub fn tier_translucency_path(tier: HairTier) -> (r: TranslucencyPath)
    ensures
        r == (if tier == HairTier::Strand {
            TranslucencyPath::ExactLinkedList
        } else {
            TranslucencyPath::DefaultTranslucent
        }),
{
    match tier {
        HairTier::Card | HairTier::Mesh => TranslucencyPath::DefaultTranslucent,
        HairTier::Strand => TranslucencyPath::ExactLinkedList,
    }
}

/// Strand tier translucency request: only the exact linked list (scoped to
/// hair strands) is accepted; the sorted fallback and the default path are
/// refused with `StrandTierRequiresExactOit`.
pub fn request_strand_translucency(path: TranslucencyPath) -> (r: Result<(), HairError>)
    ensures
        r is Ok <==> path == TranslucencyPath::ExactLinkedList,
        r is Err ==> (r matches Err(HairError::StrandTierRequiresExactOit { requested })
            && requested@ == path.spec_str()),
{
    match path {
        TranslucencyPath::ExactLinkedList => Ok(()),
        other => Err(HairError::StrandTierRequiresExactOit { requested: other.as_str() }),
    }
}

/// One strand-to-card replacement entry (bake output).
#[derive(Debug, Clone, Copy, PartialEq, Eq, Structural)]
pub struct ReplacementEntry {
    pub strand_begin: u32,
    pub strand_end: u32,
    pub card_id: u32,
    pub atlas_tile: u32,
}

/// Strand-to-card replacement map (strand clusters and their card tiles).
#[derive(Debug, Clone, PartialEq)]
pub struct StrandReplacementMap {
    pub entries: Vec<ReplacementEntry>,
}

/// Number of clusters of `count` strands.
pub open spec fn cluster_count(count: nat) -> nat {
    (count + 7) / 8
}

/// Entry `i` of the bake of `count` strands: strands `8i .. min(8i + 8,
/// count)`, card and atlas tile `i`.
pub open spec fn bake_entry(count: nat, i: nat) -> ReplacementEntry {
    ReplacementEntry {
        strand_begin: (8 * i) as u32,
        strand_end: (if 8 * i + 8 <= count {
            (8 * i + 8) as int
        } else {
            count as int
        }) as u32,
        card_id: i as u32,
        atlas_tile: i as u32,
    }
}

/// The bake of `count` strands: consecutive clusters of eight strands (the
/// last one possibly shorter), cards and atlas tiles numbered in order.
pub open spec fn bake_entries(count: nat) -> Seq<ReplacementEntry> {
    Seq::new(cluster_count(count), |i: int| bake_entry(count, i as nat))
}

/// Offline strand replacement bake (deterministic): consecutive strands are
/// grouped by [`STRAND_CLUSTER_SIZE`], one card and one atlas tile per group
/// in order. Zero strands is refused.
pub fn bake_strand_replacement(strand_count: u32) -> (r: Result<StrandReplacementMap, HairError>)
    requires
        strand_count <= MAX_BAKE_STRANDS,
    ensures
        strand_count == 0 ==> (r matches Err(HairError::NotCanonical(w)) && w@ == ZERO_STRANDS@),
        strand_count > 0 ==> (r matches Ok(m) && m.entries@ == bake_entries(strand_count as nat)),
{
    if strand_count == 0 {
        return Err(HairError::NotCanonical(ZERO_STRANDS));
    }
    let ghost count = strand_count as nat;
    let mut entries: Vec<ReplacementEntry> = Vec::new();
    let mut begin: u32 = 0;
    let mut card: u32 = 0;
    while begin < strand_count
        invariant
            strand_count <= MAX_BAKE_STRANDS,
            count == strand_count as nat,
            count > 0,
            begin as int == (if 8 * card <= count {
                8 * card
            } else {
                count as int
            }),
            8 * card <= count + 7,
            entries@.len() == card,
            forall|k: int| 0 <= k < card ==> #[trigger] entries@[k] == bake_entry(count, k as nat),
        decreases count - begin,
    {
        let end = if begin + STRAND_CLUSTER_SIZE <= strand_count {
            begin + STRAND_CLUSTER_SIZE
        } else {
            strand_count
        };
        entries.push(
            ReplacementEntry { strand_begin: begin, strand_end: end, card_id: card, atlas_tile: card },
        );
        begin = end;
        card = card + 1;
    }
    assert(card == cluster_count(count));
    assert(entries@ =~= bake_entries(count));
    Ok(StrandReplacementMap { entries })
}

/// The clusters of a bake partition the strands `0 .. count`: the first
/// starts at 0, the last ends at `count`, each starts where the previous one
/// ended, and each holds between one and eight strands.
pub proof fn law_bake_partitions_strands(count: nat)
    requires
        0 < count <= MAX_BAKE_STRANDS,
    ensures
        ({
            let e = bake_entries(count);
            &&& e.len() > 0
            &&& e[0].strand_begin == 0
            &&& e.last().strand_end == count
            &&& forall|i: int| 0 < i < e.len() ==> (#[trigger] e[i]).strand_begin == e[i - 1].strand_end
            &&& forall|i: int|
                0 <= i < e.len() ==> (#[trigger] e[i]).strand_begin < e[i].strand_end
                    <= e[i].strand_begin + 8
            &&& forall|i: int| 0 <= i < e.len() ==> (#[trigger] e[i]).card_id == i && e[i].atlas_tile == i
        }),
{
    let e = bake_entries(count);
    let n = cluster_count(count);
    assert(8 * n <= count + 7 && count <= 8 * n);
    assert(e[n - 1] == bake_entry(count, (n - 1) as nat));
    assert forall|i: int| 0 < i < e.len() implies (#[trigger] e[i]).strand_begin == e[i
        - 1].strand_end by {
        assert(e[i] == bake_entry(count, i as nat));
        assert(e[i - 1] == bake_entry(count, (i - 1) as nat));
    }
    assert forall|i: int| 0 <= i < e.len() implies (#[trigger] e[i]).strand_begin < e[i].strand_end
        <= e[i].strand_begin + 8 by {
        assert(e[i] == bake_entry(count, i as nat));
    }
}

/// The bytes of a replacement map: each entry's four fields, little endian.
pub open spec fn replacement_bytes(es: Seq<ReplacementEntry>) -> Seq<u8>
    decreases es.len(),
{
    if es.len() == 0 {
        Seq::<u8>::empty()
    } else {
        let e = es.last();
        replacement_bytes(es.drop_last()) + u32_le(e.strand_begin) + u32_le(e.strand_end) + u32_le(
            e.card_id,
        ) + u32_le(e.atlas_tile)
    }
}

/// Digest of a replacement map (SHA-256 of [`replacement_bytes`]).
pub fn replacement_digest(map: &StrandReplacementMap) -> (r: [u8; 32])
    ensures
        r@ == sha256_of(replacement_bytes(map.entries@)),
{
    let mut buf: Vec<u8> = Vec::new();
    let n = map.entries.len();
    let mut i: usize = 0;
    while i < n
        invariant
            n == map.entries@.len(),
            i <= n,
            buf@ == replacement_bytes(map.entries@.take(i as int)),
        decreases n - i,
    {
        let e = map.entries[i];
        proof {
            assert(map.entries@.take(i + 1).drop_last() =~= map.entries@.take(i as int));
        }
        push_u32_le(&mut buf, e.strand_begin);
        push_u32_le(&mut buf, e.strand_end);
        push_u32_le(&mut buf, e.card_id);
        push_u32_le(&mut buf, e.atlas_tile);
        i = i + 1;
    }
    assert(map.entries@.take(n as int) =~= map.entries@);
    sha256_digest(buf.as_slice())
}

/// Status of the strand tier item.
#[derive(Debug, Clone, Copy, PartialEq, Eq, Structural)]
pub enum StrandTierStatus {
    /// Not triggered: data insufficient; never counted as a pass.
    NotTriggered,
}

/// Availability of the OIT measurement band.
#[derive(Debug, Clone, PartialEq)]
pub struct M120DataAvailability {
    /// The measurement band is present.
    pub measurements_present: bool,
    /// SHA-256 of the band's bytes (zeros when absent).
    pub measurements_digest: [u8; 32],
    /// Occurrences of `"linked_list_` in the band.
    pub linked_list_record_count: u32,
    /// The band declares a host-only reference.
    pub host_only_reference: bool,
    /// The recorded verdict.
    pub verdict: &'static str,
}

/// Registration of the strand tier item (`counts_as_green` is always false).
#[derive(Debug, Clone, PartialEq)]
pub struct StrandTierRegistration {
    pub status: StrandTierStatus,
    pub anchor: &'static str,
    pub counts_as_green: bool,
    pub m120: M120DataAvailability,
}

/// Strand tier registration: records what the measurement band (if any)
/// holds, and keeps the strand tier not triggered and not counted as green
/// whether or not the band is present.
pub fn register_strand_tier(measurements_text: Option<&str>) -> (r: StrandTierRegistration)
    ensures
        r.status == StrandTierStatus::NotTriggered,
        !r.counts_as_green,
        r.anchor@ == STRAND_TIER_ANCHOR@,
        r.m120.measurements_present == measurements_text is Some,
        measurements_text is None ==> {
            &&& r.m120.measurements_digest@ == Seq::new(32, |i: int| 0u8)
            &&& r.m120.linked_list_record_count == 0
            &&& !r.m120.host_only_reference
            &&& r.m120.verdict@ == M120_MISSING@
        },
        measurements_text matches Some(t) ==> {
            let bytes = encode_utf8(t@);
            &&& r.m120.measurements_digest@ == sha256_of(bytes)
            &&& r.m120.linked_list_record_count == count_from(
                bytes,
                encode_utf8(LINKED_LIST_KEY@),
                0,
            ) as u32
            &&& r.m120.host_only_reference == contains_bytes(bytes, encode_utf8(HOST_ONLY@))
            &&& r.m120.verdict@ == M120_PRESENT@
        },
{
    let m120 = match measurements_text {
        None => {
            let z = [0u8; 32];
            assert(z@ =~= Seq::new(32, |i: int| 0u8));
            M120DataAvailability {
                measurements_present: false,
                measurements_digest: z,
                linked_list_record_count: 0,
                host_only_reference: false,
                verdict: M120_MISSING,
            }
        },
        Some(text) => {
            let bytes = text.as_bytes();
            let key = LINKED_LIST_KEY.as_bytes();
            let found = if key.len() > 0 {
                count_occurrences(bytes, key)
            } else {
                0
            };
            let count = found as u32;
            M120DataAvailability {
                measurements_present: true,
                measurements_digest: sha256_digest(bytes),
                linked_list_record_count: count,
                host_only_reference: find_bytes(bytes, HOST_ONLY.as_bytes()),
                verdict: M120_PRESENT,
            }
        },
    };
    StrandTierRegistration {
        status: StrandTierStatus::NotTriggered,
        anchor: STRAND_TIER_ANCHOR,
        counts_as_green: false,
        m120,
    }
}


/// Clusters hold exactly eight strands, except possibly the last one: a bake
/// of `count` strands has `ceil(count / 8)` entries, entry `i` starts at
/// strand `8 i`, and every entry but the last ends eight strands later.
pub proof fn law_bake_clusters_of_eight(count: nat)
    requires
        0 < count <= MAX_BAKE_STRANDS,
    ensures
        ({
            let e = bake_entries(count);
            &&& e.len() == (count + 7) / 8
            &&& forall|i: int| 0 <= i < e.len() ==> (#[trigger] e[i]).strand_begin == 8 * i
            &&& forall|i: int|
                0 <= i < e.len() - 1 ==> (#[trigger] e[i]).strand_end - e[i].strand_begin == 8
            &&& e[e.len() - 1].strand_end == count
            &&& count - e[e.len() - 1].strand_begin <= 8
        }),
{
    let e = bake_entries(count);
    let n = cluster_count(count);
    assert(8 * n <= count + 7 && count <= 8 * n);
    assert(e[n - 1] == bake_entry(count, (n - 1) as nat));
    assert forall|i: int| 0 <= i < e.len() implies (#[trigger] e[i]).strand_begin == 8 * i by {
        assert(e[i] == bake_entry(count, i as nat));
    }
    assert forall|i: int| 0 <= i < e.len() - 1 implies (#[trigger] e[i]).strand_end
        - e[i].strand_begin == 8 by {
        assert(e[i] == bake_entry(count, i as nat));
    }
}

/// Byte `j` (0 = least significant) of a 32-bit word.
pub open spec fn word_byte(w: u32, j: int) -> u8 {
    if j == 0 {
        (w % 256) as u8
    } else if j == 1 {
        ((w / 256) % 256) as u8
    } else if j == 2 {
        ((w / 65536) % 256) as u8
    } else {
        ((w / 16777216) % 256) as u8
    }
}

proof fn lemma_word_bytes(w: u32, j: int)
    requires
        0 <= j < 4,
    ensures
        u32_le(w).len() == 4,
        u32_le(w)[j] == word_byte(w, j),
{
}

#[verifier::rlimit(40)]
proof fn lemma_replacement_bytes_layout(es: Seq<ReplacementEntry>, i: int, j: int)
    requires
        0 <= i < es.len(),
        0 <= j < 4,
    ensures
        replacement_bytes(es).len() == 16 * es.len(),
        replacement_bytes(es)[16 * i + j] == word_byte(es[i].strand_begin, j),
        replacement_bytes(es)[16 * i + 4 + j] == word_byte(es[i].strand_end, j),
        replacement_bytes(es)[16 * i + 8 + j] == word_byte(es[i].card_id, j),
        replacement_bytes(es)[16 * i + 12 + j] == word_byte(es[i].atlas_tile, j),
    decreases es.len(),
{
    let prev = replacement_bytes(es.drop_last());
    let e = es.last();
    let a = u32_le(e.strand_begin);
    let b = u32_le(e.strand_end);
    let c = u32_le(e.card_id);
    let t = u32_le(e.atlas_tile);
    lemma_replacement_bytes_len(es.drop_last());
    lemma_word_bytes(e.strand_begin, j);
    lemma_word_bytes(e.strand_end, j);
    lemma_word_bytes(e.card_id, j);
    lemma_word_bytes(e.atlas_tile, j);
    let all = replacement_bytes(es);
    assert(all == prev + a + b + c + t);
    assert(all.len() == 16 * es.len());
    if i < es.len() - 1 {
        lemma_replacement_bytes_layout(es.drop_last(), i, j);
        assert(es.drop_last()[i] == es[i]);
        assert(all[16 * i + j] == prev[16 * i + j]);
        assert(all[16 * i + 4 + j] == prev[16 * i + 4 + j]);
        assert(all[16 * i + 8 + j] == prev[16 * i + 8 + j]);
        assert(all[16 * i + 12 + j] == prev[16 * i + 12 + j]);
    } else {
        assert(prev.len() == 16 * i);
        assert(all[16 * i + j] == a[j]);
        assert(all[16 * i + 4 + j] == b[j]);
        assert(all[16 * i + 8 + j] == c[j]);
        assert(all[16 * i + 12 + j] == t[j]);
    }
}

proof fn lemma_replacement_bytes_len(es: Seq<ReplacementEntry>)
    ensures
        replacement_bytes(es).len() == 16 * es.len(),
    decreases es.len(),
{
    if es.len() > 0 {
        lemma_replacement_bytes_len(es.drop_last());
    }
}

/// The bytes that [`replacement_digest`] hashes hold every entry, in order,
/// sixteen bytes each: strand begin, strand end, card and atlas tile, each
/// as four little-endian bytes.
pub proof fn law_replacement_bytes_cover_every_entry(es: Seq<ReplacementEntry>)
    ensures
        replacement_bytes(es).len() == 16 * es.len(),
        forall|i: int, j: int|
            0 <= i < es.len() && 0 <= j < 4 ==> {
                &&& #[trigger] replacement_bytes(es)[16 * i + j] == word_byte(
                    es[i].strand_begin,
                    j,
                )
                &&& replacement_bytes(es)[16 * i + 4 + j] == word_byte(es[i].strand_end, j)
                &&& replacement_bytes(es)[16 * i + 8 + j] == word_byte(es[i].card_id, j)
                &&& replacement_bytes(es)[16 * i + 12 + j] == word_byte(es[i].atlas_tile, j)
            },
{
    lemma_replacement_bytes_len(es);
    assert forall|i: int, j: int| 0 <= i < es.len() && 0 <= j < 4 implies {
        &&& #[trigger] replacement_bytes(es)[16 * i + j] == word_byte(es[i].strand_begin, j)
        &&& replacement_bytes(es)[16 * i + 4 + j] == word_byte(es[i].strand_end, j)
        &&& replacement_bytes(es)[16 * i + 8 + j] == word_byte(es[i].card_id, j)
        &&& replacement_bytes(es)[16 * i + 12 + j] == word_byte(es[i].atlas_tile, j)
    } by {
        lemma_replacement_bytes_layout(es, i, j);
    }
}


/// The literals of the lobes, tiers and translucency paths.
pub proof fn law_hair_literals()
    ensures
        ZeroLobe::R.spec_str() == "R"@,
        ZeroLobe::Tt.spec_str() == "TT"@,
        ZeroLobe::Trt.spec_str() == "TRT"@,
        HairTier::Strand.spec_str() == "strand"@,
        HairTier::Card.spec_str() == "card"@,
        HairTier::Mesh.spec_str() == "mesh"@,
        TranslucencyPath::DefaultTranslucent.spec_str() == "default_translucent"@,
        TranslucencyPath::SortedFallback.spec_str() == "sorted_fallback"@,
        TranslucencyPath::ExactLinkedList.spec_str() == "exact_linked_list"@,
{
}

} // verus!
