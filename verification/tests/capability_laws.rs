use rurix_render::capability_matrix::{
    decisions_canonical, particles_decision_canonical, resolve_chains, resolve_particles_chain,
    CapabilityFacts, ChainId, FeatureRequest, FrameGenTier, ParticleCollisionTier,
    ParticlesRequest, UpscaleBackend, RESTIR_MIN_VRAM_BYTES,
};

fn bare_facts() -> CapabilityFacts {
    CapabilityFacts {
        vendor_id: 0x8086,
        ray_query: false,
        acceleration_structure: false,
        max_per_stage_descriptor_storage_buffers: 0,
        effective_vram_bytes: 0,
        dlss_available: false,
        fsr_available: false,
    }
}

fn bottom_request() -> FeatureRequest {
    FeatureRequest {
        upscale: UpscaleBackend::TsrDevice,
        hzb_on: false,
        restir_high: false,
        gi_on: false,
        framegen: FrameGenTier::Off,
        textures_on: false,
    }
}

#[test]
fn bottom_requests_never_degrade_on_a_bare_device() {
    let ds = resolve_chains(&bare_facts(), &bottom_request());
    assert_eq!(ds.len(), 6);
    assert!(ds.iter().all(|d| !d.degraded && d.selected == d.requested));
}

#[test]
fn more_capabilities_degrade_no_more() {
    let weak = bare_facts();
    let mut strong = bare_facts();
    strong.ray_query = true;
    strong.acceleration_structure = true;
    strong.fsr_available = true;
    strong.effective_vram_bytes = RESTIR_MIN_VRAM_BYTES;
    let q = FeatureRequest::full();
    let dw = resolve_chains(&weak, &q);
    let ds = resolve_chains(&strong, &q);
    for (a, b) in dw.iter().zip(ds.iter()) {
        assert!(!b.degraded || a.degraded, "{:?}", b.chain);
    }
    assert_eq!(ds.iter().filter(|d| d.degraded).count(), 2); // upscale (fsr), textures (ssbo)
}

#[test]
fn exact_reasons_carry_the_numbers() {
    let mut f = bare_facts();
    f.effective_vram_bytes = RESTIR_MIN_VRAM_BYTES - 1;
    let ds = resolve_chains(&f, &FeatureRequest::full());
    assert_eq!(
        ds[2].reason,
        "显存 1073741823 < 声明阈值 1073741824(reservoir 表面不足)→ MegaLights 低档(均匀选灯 RIS M=1 语义,如实登记)"
    );
    assert_eq!(
        ds[4].reason,
        "显存 1073741823 ≥ 声明阈值 536870912(prev/cur/mv/out 四缓冲包络满足;纯图像空间 compute kernel)"
    );
    assert_eq!(
        ds[1].reason,
        "HZB 车道需求缺失:rt.ray_query(VK_KHR_ray_query feature 缺失) + acceleration_structure(VK_KHR_acceleration_structure feature 缺失) → off(高成本如实:无遮挡剔除,全量场景渲染成本照实承担,禁静默错图)"
    );
    f.ray_query = true;
    f.acceleration_structure = true;
    f.max_per_stage_descriptor_storage_buffers = 12;
    let ds = resolve_chains(&f, &FeatureRequest::full());
    assert_eq!(ds[5].reason, "rt 双 feature + SSBO 面 12 ≥ 12 实测满足(逐三角贴图采样车道面满足)");
}

#[test]
fn canonical_text_lines() {
    let mut f = bare_facts();
    f.dlss_available = true;
    let q = FeatureRequest {
        hzb_on: false,
        restir_high: false,
        gi_on: false,
        framegen: FrameGenTier::Off,
        textures_on: false,
        ..FeatureRequest::full()
    };
    let ds = resolve_chains(&f, &q);
    let text = decisions_canonical(&ds);
    assert_eq!(
        text,
        "rurix.g31.chain-decisions.v1\n\
         upscale|dlss_sr|dlss_sr|0|dlss_available 实测真建(session 全链在位)\n\
         hzb|off|off|0|请求即 off(无降级)\n\
         restir|megalights_low|megalights_low|0|请求即 MegaLights 低档(无降级)\n\
         gi|off|off|0|请求即 off(无降级)\n\
         framegen|off|off|0|请求即 off(无降级)\n\
         texture_sampling|constant_material|constant_material|0|请求即常量材质(textures off 现状语义,无降级)\n"
    );
    assert_eq!(decisions_canonical(&[]), "rurix.g31.chain-decisions.v1\n");
    let order: Vec<ChainId> = ds.iter().map(|d| d.chain).collect();
    assert_eq!(order, ChainId::ALL.to_vec());
}

#[test]
fn particles_exact_reason_and_canonical() {
    let mut f = bare_facts();
    f.max_per_stage_descriptor_storage_buffers = 21;
    let d = resolve_particles_chain(&f, &ParticlesRequest::full());
    assert_eq!(d.selected, "gpu_particles");
    assert_eq!(d.collision_selected, "depth_buffer");
    assert!(d.degraded);
    assert_eq!(
        d.reason,
        "SSBO 面 21 ≥ 21(g35_particle_compact 21 件绑定包络满足;compute 基线 = 设备面非空);碰撞臂:碰撞 ray_query 档需求缺失:rt.ray_query(VK_KHR_ray_query feature 缺失) + acceleration_structure(VK_KHR_acceleration_structure feature 缺失) → depth_buffer(屏幕空间局限如实登记,显式降级禁静默换臂)"
    );
    let off = resolve_particles_chain(
        &f,
        &ParticlesRequest { particles_on: false, collision: ParticleCollisionTier::RayQuery },
    );
    assert!(!off.degraded);
    assert_eq!(off.collision_selected, "off");
    assert_eq!(
        particles_decision_canonical(&off),
        "rurix.g35.particles-chain-decision.v1\nparticles|off|off|ray_query|off|0|请求即 off(无降级);碰撞臂:主链 off ⇒ 碰撞臂恒 off\n"
    );
}
