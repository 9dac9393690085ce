use rurix_render::display::hair::{
    assert_lobe_wired, bake_strand_replacement, register_strand_tier, replacement_digest,
    request_strand_translucency, tier_translucency_path, HairError, HairTier, StrandTierStatus,
    TranslucencyPath, ZeroLobe, STRAND_TIER_ANCHOR,
};

#[test]
fn strand_replacement_bake_deterministic() {
    let a = bake_strand_replacement(64).unwrap();
    let b = bake_strand_replacement(64).unwrap();
    assert_eq!(a, b);
    assert_eq!(replacement_digest(&a), replacement_digest(&b));
    assert_eq!(a.entries.len(), 8); // 64/8
    assert!(bake_strand_replacement(0).is_err());
}

#[test]
fn strand_tier_not_triggered_registration() {
    let reg = register_strand_tier(None);
    assert_eq!(reg.status, StrandTierStatus::NotTriggered);
    assert!(!reg.counts_as_green);
    assert!(!reg.m120.measurements_present);
    assert_eq!(reg.anchor, STRAND_TIER_ANCHOR);
    // 测量带在场 ⇒ 如实记录可得性,仍 not-triggered。
    let text =
        "{\"host\": {\"device\": \"host-only(x)\"}, \"linked_list_4_image_digest\": \"aa\"}";
    let reg2 = register_strand_tier(Some(text));
    assert_eq!(reg2.status, StrandTierStatus::NotTriggered);
    assert!(!reg2.counts_as_green);
    assert!(reg2.m120.measurements_present);
    assert!(reg2.m120.linked_list_record_count >= 1);
    assert!(reg2.m120.host_only_reference);
}

#[test]
fn registration_counts_records_and_digests_text() {
    let text = "\"linked_list_1\": 1, \"linked_list_2\": 2, \"sorted\": 3";
    let reg = register_strand_tier(Some(text));
    assert_eq!(reg.m120.linked_list_record_count, 2);
    assert!(!reg.m120.host_only_reference);
    assert_ne!(reg.m120.measurements_digest, [0u8; 32]);
    let empty = register_strand_tier(None);
    assert_eq!(empty.m120.measurements_digest, [0u8; 32]);
    assert_eq!(empty.m120.linked_list_record_count, 0);
}

#[test]
fn bake_partitions_strands_into_clusters_of_eight() {
    let m = bake_strand_replacement(19).unwrap();
    let spans: Vec<(u32, u32, u32, u32)> = m
        .entries
        .iter()
        .map(|e| (e.strand_begin, e.strand_end, e.card_id, e.atlas_tile))
        .collect();
    assert_eq!(spans, vec![(0, 8, 0, 0), (8, 16, 1, 1), (16, 19, 2, 2)]);
    let one = bake_strand_replacement(1).unwrap();
    assert_eq!(one.entries.len(), 1);
    assert_eq!((one.entries[0].strand_begin, one.entries[0].strand_end), (0, 1));
    assert!(matches!(bake_strand_replacement(0), Err(HairError::NotCanonical(_))));
}

#[test]
fn replacement_digest_depends_on_the_entries() {
    let a = bake_strand_replacement(64).unwrap();
    let b = bake_strand_replacement(65).unwrap();
    assert_ne!(replacement_digest(&a), replacement_digest(&b));
}

#[test]
fn strand_tier_requires_exact_oit_and_cards_take_default_path() {
    assert_eq!(tier_translucency_path(HairTier::Card), TranslucencyPath::DefaultTranslucent);
    assert_eq!(tier_translucency_path(HairTier::Mesh), TranslucencyPath::DefaultTranslucent);
    assert_eq!(tier_translucency_path(HairTier::Strand), TranslucencyPath::ExactLinkedList);
    assert!(request_strand_translucency(TranslucencyPath::ExactLinkedList).is_ok());
    assert!(matches!(
        request_strand_translucency(TranslucencyPath::SortedFallback),
        Err(HairError::StrandTierRequiresExactOit { requested: "sorted_fallback" })
    ));
    assert!(matches!(
        request_strand_translucency(TranslucencyPath::DefaultTranslucent),
        Err(HairError::StrandTierRequiresExactOit { requested: "default_translucent" })
    ));
}

#[test]
fn lobe_wiring_detects_identical_digests() {
    let full = [7u8; 32];
    let mut zeroed = [7u8; 32];
    assert!(matches!(
        assert_lobe_wired(&full, &zeroed, ZeroLobe::Tt),
        Err(HairError::LobeNotWired { lobe: "TT" })
    ));
    zeroed[31] = 8;
    assert!(assert_lobe_wired(&full, &zeroed, ZeroLobe::Tt).is_ok());
    assert_eq!(HairTier::Strand.as_str(), "strand");
    assert_eq!(ZeroLobe::Trt.as_str(), "TRT");
}
