use rurix_render::capability_matrix::{
    decisions_digest, particles_decision_canonical, resolve_chains, resolve_particles_chain,
    CapabilityFacts, ChainDecision, ChainId, FeatureRequest, FrameGenTier, ParticleCollisionTier,
    ParticlesRequest, UpscaleBackend, FG_MIN_VRAM_BYTES, RESTIR_MIN_VRAM_BYTES,
    TEXTURE_MIN_STORAGE_BUFFERS,
};

fn ada_facts() -> CapabilityFacts {
    CapabilityFacts {
        vendor_id: 0x10DE,
        ray_query: true,
        acceleration_structure: true,
        max_per_stage_descriptor_storage_buffers: 1_048_576,
        effective_vram_bytes: 11_771_314_176,
        dlss_available: true,
        fsr_available: true,
    }
}

fn amd_like_facts() -> CapabilityFacts {
    CapabilityFacts {
        vendor_id: 0x1002,
        ray_query: true,
        acceleration_structure: true,
        max_per_stage_descriptor_storage_buffers: 1_048_576,
        effective_vram_bytes: 16 << 30,
        dlss_available: false,
        fsr_available: true,
    }
}

fn intel_like_facts() -> CapabilityFacts {
    CapabilityFacts {
        vendor_id: 0x8086,
        ray_query: false,
        acceleration_structure: false,
        max_per_stage_descriptor_storage_buffers: 8,
        effective_vram_bytes: 8 << 30,
        dlss_available: false,
        fsr_available: false,
    }
}

fn decision<'a>(ds: &'a [ChainDecision], chain: ChainId) -> &'a ChainDecision {
    ds.iter().find(|d| d.chain == chain).expect("六链全产")
}

#[test]
fn ada_full_request_zero_degradation() {
    let ds = resolve_chains(&ada_facts(), &FeatureRequest::full());
    assert_eq!(ds.len(), 6, "六链全产");
    for d in &ds {
        assert!(!d.degraded, "{:?} 不应降级: {}", d.chain, d.reason);
        assert_eq!(d.requested, d.selected, "{:?} 选档 = 请求档", d.chain);
    }
    assert_eq!(decision(&ds, ChainId::Upscale).selected, "dlss_sr");
    assert_eq!(decision(&ds, ChainId::Hzb).selected, "on");
    assert_eq!(decision(&ds, ChainId::Restir).selected, "restir_high");
    assert_eq!(decision(&ds, ChainId::Gi).selected, "on");
    assert_eq!(decision(&ds, ChainId::FrameGen).selected, "x3");
    assert_eq!(decision(&ds, ChainId::TextureSampling).selected, "textures");
    // digest 可重现(双跑位级一致)。
    assert_eq!(decisions_digest(&ds), decisions_digest(&ds));
    // 输出序 = ChainId::ALL 冻结序(确定性)。
    for (d, c) in ds.iter().zip(ChainId::ALL) {
        assert_eq!(d.chain, c);
    }
}

#[test]
fn upscale_ladder_fail_closed() {
    let mut facts = ada_facts();
    // ① DLSS 缺 → FSR(degraded,reason 携带 dlss_available=false)。
    facts.dlss_available = false;
    let ds = resolve_chains(&facts, &FeatureRequest::full());
    let d = decision(&ds, ChainId::Upscale);
    assert!(d.degraded && d.selected == "fsr_3_1_5" && d.requested == "dlss_sr");
    assert!(d.reason.contains("dlss_available=false"), "reason 携带缺失件: {}", d.reason);
    // ② 双缺 → TSR(梯底恒可选中,by construction 无崩溃)。
    facts.fsr_available = false;
    let ds = resolve_chains(&facts, &FeatureRequest::full());
    let d = decision(&ds, ChainId::Upscale);
    assert!(d.degraded && d.selected == "tsr_device");
    assert!(d.reason.contains("fsr_available=false"));
    // ③ FSR 请求 + FSR 缺 → TSR。
    let req = FeatureRequest { upscale: UpscaleBackend::Fsr315, ..FeatureRequest::full() };
    let ds = resolve_chains(&facts, &req);
    let d = decision(&ds, ChainId::Upscale);
    assert!(d.degraded && d.selected == "tsr_device" && d.requested == "fsr_3_1_5");
    // ④ TSR 请求:双缺下仍选中(自研恒可用,零降级)。
    let req = FeatureRequest { upscale: UpscaleBackend::TsrDevice, ..FeatureRequest::full() };
    let ds = resolve_chains(&facts, &req);
    let d = decision(&ds, ChainId::Upscale);
    assert!(!d.degraded && d.selected == "tsr_device");
    // ⑤ FSR 在位时 FSR 请求零降级。
    facts.fsr_available = true;
    let req = FeatureRequest { upscale: UpscaleBackend::Fsr315, ..FeatureRequest::full() };
    let ds = resolve_chains(&facts, &req);
    assert!(!decision(&ds, ChainId::Upscale).degraded);
}

#[test]
fn hzb_chain_fail_closed() {
    let mut facts = ada_facts();
    facts.ray_query = false;
    let ds = resolve_chains(&facts, &FeatureRequest::full());
    let d = decision(&ds, ChainId::Hzb);
    assert!(d.degraded && d.selected == "off" && d.requested == "on");
    assert!(d.reason.contains("rt.ray_query"), "reason 携带缺失件: {}", d.reason);
    assert!(d.reason.contains("高成本如实"), "off 语义如实标注: {}", d.reason);
    facts.acceleration_structure = false;
    let ds = resolve_chains(&facts, &FeatureRequest::full());
    let d = decision(&ds, ChainId::Hzb);
    assert!(d.reason.contains("rt.ray_query") && d.reason.contains("acceleration_structure"));
    // 请求 off:selected=off 但非降级(请求=选中)。
    let req = FeatureRequest { hzb_on: false, ..FeatureRequest::full() };
    let ds = resolve_chains(&facts, &req);
    let d = decision(&ds, ChainId::Hzb);
    assert!(!d.degraded && d.selected == "off");
}

#[test]
fn restir_chain_vram_threshold() {
    let mut facts = ada_facts();
    facts.effective_vram_bytes = RESTIR_MIN_VRAM_BYTES - 1;
    let ds = resolve_chains(&facts, &FeatureRequest::full());
    let d = decision(&ds, ChainId::Restir);
    assert!(d.degraded && d.selected == "megalights_low" && d.requested == "restir_high");
    assert!(d.reason.contains("声明阈值"), "阈值如实标注 declared: {}", d.reason);
    // 恰阈值(≥ 判据)→ 高档维持。
    facts.effective_vram_bytes = RESTIR_MIN_VRAM_BYTES;
    let ds = resolve_chains(&facts, &FeatureRequest::full());
    assert!(!decision(&ds, ChainId::Restir).degraded);
    // 请求低档 → 无降级。
    let req = FeatureRequest { restir_high: false, ..FeatureRequest::full() };
    facts.effective_vram_bytes = 1;
    let ds = resolve_chains(&facts, &req);
    let d = decision(&ds, ChainId::Restir);
    assert!(!d.degraded && d.selected == "megalights_low");
}

#[test]
fn gi_chain_fail_closed() {
    let mut facts = ada_facts();
    facts.ray_query = false;
    let ds = resolve_chains(&facts, &FeatureRequest::full());
    let d = decision(&ds, ChainId::Gi);
    assert!(d.degraded && d.selected == "off" && d.requested == "on");
    assert!(d.reason.contains("rt.ray_query"));
    let req = FeatureRequest { gi_on: false, ..FeatureRequest::full() };
    let ds = resolve_chains(&facts, &req);
    assert!(!decision(&ds, ChainId::Gi).degraded);
}

#[test]
fn framegen_chain_fail_closed() {
    let mut facts = ada_facts();
    facts.effective_vram_bytes = FG_MIN_VRAM_BYTES - 1;
    let ds = resolve_chains(&facts, &FeatureRequest::full());
    let d = decision(&ds, ChainId::FrameGen);
    assert!(d.degraded && d.selected == "off" && d.requested == "x3");
    assert!(d.reason.contains("presented=real"), "双口径登记面如实: {}", d.reason);
    // x2 同律。
    let req = FeatureRequest { framegen: FrameGenTier::X2, ..FeatureRequest::full() };
    let ds = resolve_chains(&facts, &req);
    assert!(decision(&ds, ChainId::FrameGen).degraded);
    // 恰阈值维持。
    facts.effective_vram_bytes = FG_MIN_VRAM_BYTES;
    let ds = resolve_chains(&facts, &req);
    let d = decision(&ds, ChainId::FrameGen);
    assert!(!d.degraded && d.selected == "x2");
    // off 请求:低显存下仍无降级。
    facts.effective_vram_bytes = 1;
    let req = FeatureRequest { framegen: FrameGenTier::Off, ..FeatureRequest::full() };
    let ds = resolve_chains(&facts, &req);
    assert!(!decision(&ds, ChainId::FrameGen).degraded);
}

#[test]
fn texture_chain_fail_closed() {
    let mut facts = ada_facts();
    facts.ray_query = false;
    let ds = resolve_chains(&facts, &FeatureRequest::full());
    let d = decision(&ds, ChainId::TextureSampling);
    assert!(d.degraded && d.selected == "constant_material" && d.requested == "textures");
    facts = ada_facts();
    facts.max_per_stage_descriptor_storage_buffers = TEXTURE_MIN_STORAGE_BUFFERS - 1;
    let ds = resolve_chains(&facts, &FeatureRequest::full());
    let d = decision(&ds, ChainId::TextureSampling);
    assert!(d.degraded && d.selected == "constant_material");
    assert!(d.reason.contains("SSBO"), "缺失件携带 SSBO 面: {}", d.reason);
    facts.max_per_stage_descriptor_storage_buffers = TEXTURE_MIN_STORAGE_BUFFERS;
    let ds = resolve_chains(&facts, &FeatureRequest::full());
    assert!(!decision(&ds, ChainId::TextureSampling).degraded);
    let req = FeatureRequest { textures_on: false, ..FeatureRequest::full() };
    facts.max_per_stage_descriptor_storage_buffers = 0;
    let ds = resolve_chains(&facts, &req);
    assert!(!decision(&ds, ChainId::TextureSampling).degraded);
}

#[test]
fn amd_like_degrades_only_upscale() {
    let ds = resolve_chains(&amd_like_facts(), &FeatureRequest::full());
    let d = decision(&ds, ChainId::Upscale);
    assert!(d.degraded && d.selected == "fsr_3_1_5");
    for chain in [ChainId::Hzb, ChainId::Restir, ChainId::Gi, ChainId::FrameGen, ChainId::TextureSampling] {
        assert!(!decision(&ds, chain).degraded, "{chain:?} 不应降级");
    }
}

#[test]
fn intel_like_multi_chain_degradation() {
    let ds = resolve_chains(&intel_like_facts(), &FeatureRequest::full());
    assert_eq!(decision(&ds, ChainId::Upscale).selected, "tsr_device");
    assert_eq!(decision(&ds, ChainId::Hzb).selected, "off");
    assert_eq!(decision(&ds, ChainId::Gi).selected, "off");
    assert_eq!(decision(&ds, ChainId::TextureSampling).selected, "constant_material");
    assert_eq!(decision(&ds, ChainId::Restir).selected, "restir_high");
    assert_eq!(decision(&ds, ChainId::FrameGen).selected, "x3");
    let degraded_count = ds.iter().filter(|d| d.degraded).count();
    assert_eq!(degraded_count, 4, "恰四链降级(upscale/hzb/gi/texture)");
}

#[test]
fn selected_always_in_closed_ladder() {
    let ladders: [(ChainId, &[&str]); 6] = [
        (ChainId::Upscale, &["dlss_sr", "fsr_3_1_5", "tsr_device"]),
        (ChainId::Hzb, &["on", "off"]),
        (ChainId::Restir, &["restir_high", "megalights_low"]),
        (ChainId::Gi, &["on", "off"]),
        (ChainId::FrameGen, &["off", "x2", "x3"]),
        (ChainId::TextureSampling, &["textures", "constant_material"]),
    ];
    for rq in [false, true] {
        for as_ in [false, true] {
            for dlss in [false, true] {
                for fsr in [false, true] {
                    for vram in [0u64, FG_MIN_VRAM_BYTES, RESTIR_MIN_VRAM_BYTES, 12 << 30] {
                        for ssbo in [0u32, TEXTURE_MIN_STORAGE_BUFFERS, 1_048_576] {
                            let facts = CapabilityFacts {
                                vendor_id: 0x10DE,
                                ray_query: rq,
                                acceleration_structure: as_,
                                max_per_stage_descriptor_storage_buffers: ssbo,
                                effective_vram_bytes: vram,
                                dlss_available: dlss,
                                fsr_available: fsr,
                            };
                            let ds = resolve_chains(&facts, &FeatureRequest::full());
                            for (chain, ladder) in &ladders {
                                let d = decision(&ds, *chain);
                                assert!(
                                    ladder.contains(&d.selected.as_str()),
                                    "{chain:?} selected={} 越梯闭集(facts={facts:?})",
                                    d.selected
                                );
                                // degraded ⇔ selected ≠ requested(恒等)。
                                assert_eq!(d.degraded, d.selected != d.requested);
                            }
                        }
                    }
                }
            }
        }
    }
}

#[test]
fn digest_reproducible_and_tamper_sensitive() {
    let base = decisions_digest(&resolve_chains(&ada_facts(), &FeatureRequest::full()));
    assert_eq!(base.len(), 64, "sha256 hex 64 字符");
    let mut facts = ada_facts();
    facts.dlss_available = false;
    let alt = decisions_digest(&resolve_chains(&facts, &FeatureRequest::full()));
    assert_ne!(base, alt, "DLSS 缺失 → 裁决变 → digest 必变");
    facts = ada_facts();
    facts.ray_query = false;
    let alt2 = decisions_digest(&resolve_chains(&facts, &FeatureRequest::full()));
    assert_ne!(base, alt2, "ray_query 缺失 → digest 必变");
    // 请求面变化(非降级)亦变:hzb 请求 off。
    let req = FeatureRequest { hzb_on: false, ..FeatureRequest::full() };
    let alt3 = decisions_digest(&resolve_chains(&ada_facts(), &req));
    assert_ne!(base, alt3, "请求面变化 → digest 必变(请求字面进 canonical)");
}

fn full_facts() -> CapabilityFacts {
    CapabilityFacts {
        vendor_id: 0x10DE,
        ray_query: true,
        acceleration_structure: true,
        max_per_stage_descriptor_storage_buffers: 1_048_576,
        effective_vram_bytes: 11_771_314_176,
        dlss_available: true,
        fsr_available: true,
    }
}

#[test]
fn full_caps_zero_degradation() {
    let d = resolve_particles_chain(&full_facts(), &ParticlesRequest::full());
    assert_eq!(d.selected, "gpu_particles");
    assert_eq!(d.collision_selected, "ray_query");
    assert!(!d.degraded, "全能力不应降级: {}", d.reason);
    // canonical 双跑位级一致(确定性)。
    assert_eq!(
        particles_decision_canonical(&d),
        particles_decision_canonical(&d)
    );
}

#[test]
fn ssbo_shortfall_degrades_to_off_with_reason() {
    let mut facts = full_facts();
    facts.max_per_stage_descriptor_storage_buffers = 20;
    let d = resolve_particles_chain(&facts, &ParticlesRequest::full());
    assert_eq!(d.selected, "off");
    assert!(d.degraded);
    assert!(
        d.reason.contains("maxPerStageDescriptorStorageBuffers 20 < 21"),
        "reason 须携带缺失件字面: {}",
        d.reason
    );
    assert_eq!(d.collision_selected, "off", "主链 off ⇒ 碰撞臂恒 off");
}

#[test]
fn rt_missing_degrades_collision_to_depth_buffer() {
    let mut facts = full_facts();
    facts.ray_query = false;
    facts.acceleration_structure = false;
    let d = resolve_particles_chain(&facts, &ParticlesRequest::full());
    assert_eq!(d.selected, "gpu_particles", "主链不依赖 rt 面");
    assert_eq!(d.collision_selected, "depth_buffer");
    assert!(d.degraded, "换臂必须显式登记降级");
    assert!(d.reason.contains("ray_query"), "reason 须携带缺失件: {}", d.reason);
}

#[test]
fn off_and_depth_requests_never_degrade() {
    let d_off = resolve_particles_chain(
        &full_facts(),
        &ParticlesRequest {
            particles_on: false,
            collision: ParticleCollisionTier::Off,
        },
    );
    assert_eq!(d_off.selected, "off");
    assert!(!d_off.degraded);
    let d_depth = resolve_particles_chain(
        &full_facts(),
        &ParticlesRequest {
            particles_on: true,
            collision: ParticleCollisionTier::DepthBuffer,
        },
    );
    assert_eq!(d_depth.collision_selected, "depth_buffer");
    assert!(!d_depth.degraded);
}

#[test]
fn six_chain_closed_set_untouched() {
    assert_eq!(ChainId::ALL.len(), 6, "六链冻结闭集不扩");
    assert!(
        ChainId::ALL.iter().all(|c| c.name() != "particles"),
        "particles 不进六链闭集"
    );
}
