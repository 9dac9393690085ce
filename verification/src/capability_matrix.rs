//! Device capability matrix: deterministic, fail-closed degradation of the
//! renderer's feature chains against probed device facts.
//!
//! Six frozen chains (upscale, hzb, restir, gi, framegen, texture_sampling)
//! plus a separate particles chain. Every chain either keeps the requested
//! tier, or steps down its ladder and records the missing capability in the
//! decision's `reason`; the bottom of each ladder is always selectable.

use vstd::prelude::*;
use vstd::utf8::encode_utf8;

use crate::digest::{hex_text, lower_hex, sha256_digest, sha256_of};
use crate::text::{decimal_string, decimal_text, join_strs, joined, push_str, str_views};

verus! {

/// Declared VRAM lower bound of the high ReSTIR tier (1 GiB).
pub const RESTIR_MIN_VRAM_BYTES: u64 = 1073741824;
/// Declared VRAM lower bound of frame generation (512 MiB).
pub const FG_MIN_VRAM_BYTES: u64 = 536870912;
/// Storage-buffer lower bound of the texture sampling lane.
pub const TEXTURE_MIN_STORAGE_BUFFERS: u32 = 12;
/// Storage-buffer lower bound of the particles lane.
pub const PARTICLES_MIN_STORAGE_BUFFERS: u32 = 21;

// ─────────────────────────── literals ───────────────────────────

pub const RAY_QUERY_MISSING: &'static str = "rt.ray_query(VK_KHR_ray_query feature 缺失)";
pub const ACCEL_STRUCT_MISSING: &'static str = "acceleration_structure(VK_KHR_acceleration_structure feature 缺失)";
pub const SSBO_MISSING: &'static str = "maxPerStageDescriptorStorageBuffers 不足 12(基座 7 + B4 五件 SSBO 侧表)";
pub const JOIN_SEP: &'static str = " + ";

pub const UP_DLSS_OK: &'static str = "dlss_available 实测真建(session 全链在位)";
pub const UP_DLSS_TO_FSR: &'static str = "dlss_available=false(NGX 动态加载 fail-closed)→ FSR 实测真建在位";
pub const UP_DLSS_TO_TSR: &'static str = "dlss_available=false 且 fsr_available=false → TSR 自研恒可用(梯底)";
pub const UP_FSR_OK: &'static str = "fsr_available 实测真建(D3D12 臂全链在位)";
pub const UP_FSR_TO_TSR: &'static str = "fsr_available=false → TSR 自研恒可用(梯底)";
pub const UP_TSR: &'static str = "TSR 自研恒可用(需求 = Vulkan compute)";

pub const REQ_OFF: &'static str = "请求即 off(无降级)";
pub const HZB_OK: &'static str = "rt.ray_query + acceleration_structure 双 feature 实测在位(BLAS 分解 + TLAS 相机射线面满足)";
pub const HZB_MISSING_HEAD: &'static str = "HZB 车道需求缺失:";
pub const HZB_MISSING_TAIL: &'static str = " → off(高成本如实:无遮挡剔除,全量场景渲染成本照实承担,禁静默错图)";

pub const RESTIR_REQ_LOW: &'static str = "请求即 MegaLights 低档(无降级)";
pub const VRAM_HEAD: &'static str = "显存 ";
pub const VRAM_GE: &'static str = " ≥ 声明阈值 ";
pub const VRAM_LT: &'static str = " < 声明阈值 ";
pub const RESTIR_OK_TAIL: &'static str = "(reservoir 双带 + offset 表 + 空间重用快照包络满足)";
pub const RESTIR_LOW_TAIL: &'static str = "(reservoir 表面不足)→ MegaLights 低档(均匀选灯 RIS M=1 语义,如实登记)";

pub const GI_OK: &'static str = "rt.ray_query + acceleration_structure 双 feature 实测在位(GI kernel AccelStruct 形参面满足)";
pub const GI_MISSING_HEAD: &'static str = "GI kernel 需求缺失:";
pub const GI_MISSING_TAIL: &'static str = " → off(直接光现状语义,如实登记)";

pub const FG_OK_TAIL: &'static str = "(prev/cur/mv/out 四缓冲包络满足;纯图像空间 compute kernel)";
pub const FG_OFF_TAIL: &'static str = "(生成帧缓冲面不足)→ off(双口径登记面维持,presented=real,如实登记)";

pub const TEX_REQ_CONST: &'static str = "请求即常量材质(textures off 现状语义,无降级)";
pub const TEX_OK_HEAD: &'static str = "rt 双 feature + SSBO 面 ";
pub const TEX_OK_TAIL: &'static str = " ≥ 12 实测满足(逐三角贴图采样车道面满足)";
pub const TEX_MISSING_HEAD: &'static str = "纹理采样车道需求缺失:";
pub const TEX_MISSING_TAIL: &'static str = " → 常量材质(textures off 车道现状语义,如实登记)";

pub const CANON_HEADER: &'static str = "rurix.g31.chain-decisions.v1\n";
pub const FIELD_SEP: &'static str = "|";
pub const LINE_END: &'static str = "\n";

// ─────────────────────────── request / fact mirrors ───────────────────────────

/// Upscaler backends (the `--backend` closed set), top of the ladder first.
#[derive(Clone, Copy, PartialEq, Eq, Debug, Structural)]
pub enum UpscaleBackend {
    DlssSr,
    Fsr315,
    TsrDevice,
}

impl UpscaleBackend {
    pub open spec fn spec_name(self) -> Seq<char> {
        match self {
            UpscaleBackend::DlssSr => "dlss_sr"@,
            UpscaleBackend::Fsr315 => "fsr_3_1_5"@,
            UpscaleBackend::TsrDevice => "tsr_device"@,
        }
    }

    /// Lane literal of the backend.
    pub fn name(self) -> (r: &'static str)
        ensures
            r@ == self.spec_name(),
    {
        match self {
            UpscaleBackend::DlssSr => "dlss_sr",
            UpscaleBackend::Fsr315 => "fsr_3_1_5",
            UpscaleBackend::TsrDevice => "tsr_device",
        }
    }
}

/// Frame generation tiers (the `--fg` closed set).
#[derive(Clone, Copy, PartialEq, Eq, Debug, Structural)]
pub enum FrameGenTier {
    Off,
    X2,
    X3,
}

impl FrameGenTier {
    pub open spec fn spec_name(self) -> Seq<char> {
        match self {
            FrameGenTier::Off => "off"@,
            FrameGenTier::X2 => "x2"@,
            FrameGenTier::X3 => "x3"@,
        }
    }

    /// Lane literal of the tier.
    pub fn name(self) -> (r: &'static str)
        ensures
            r@ == self.spec_name(),
    {
        match self {
            FrameGenTier::Off => "off",
            FrameGenTier::X2 => "x2",
            FrameGenTier::X3 => "x3",
        }
    }
}

/// The six degradation chains, in their frozen output order.
#[derive(Clone, Copy, PartialEq, Eq, Debug, Structural)]
pub enum ChainId {
    Upscale,
    Hzb,
    Restir,
    Gi,
    FrameGen,
    TextureSampling,
}

/// The frozen chain order.
pub open spec fn all_chains() -> Seq<ChainId> {
    seq![
        ChainId::Upscale,
        ChainId::Hzb,
        ChainId::Restir,
        ChainId::Gi,
        ChainId::FrameGen,
        ChainId::TextureSampling,
    ]
}

impl ChainId {
    /// All six chains in the frozen order.
    pub const ALL: [ChainId; 6] = [
        ChainId::Upscale,
        ChainId::Hzb,
        ChainId::Restir,
        ChainId::Gi,
        ChainId::FrameGen,
        ChainId::TextureSampling,
    ];

    pub open spec fn spec_name(self) -> Seq<char> {
        match self {
            ChainId::Upscale => "upscale"@,
            ChainId::Hzb => "hzb"@,
            ChainId::Restir => "restir"@,
            ChainId::Gi => "gi"@,
            ChainId::FrameGen => "framegen"@,
            ChainId::TextureSampling => "texture_sampling"@,
        }
    }

    /// Frozen literal of the chain.
    pub fn name(self) -> (r: &'static str)
        ensures
            r@ == self.spec_name(),
    {
        match self {
            ChainId::Upscale => "upscale",
            ChainId::Hzb => "hzb",
            ChainId::Restir => "restir",
            ChainId::Gi => "gi",
            ChainId::FrameGen => "framegen",
            ChainId::TextureSampling => "texture_sampling",
        }
    }
}

/// Host mirror of the probed device capability report (the facts that the
/// chain criteria consume).
#[derive(Clone, PartialEq, Eq, Debug, Structural)]
pub struct CapabilityFacts {
    /// `vendorID`.
    pub vendor_id: u32,
    /// `rayQuery` feature bit.
    pub ray_query: bool,
    /// `accelerationStructure` feature bit.
    pub acceleration_structure: bool,
    /// `maxPerStageDescriptorStorageBuffers` limit.
    pub max_per_stage_descriptor_storage_buffers: u32,
    /// Effective VRAM in bytes.
    pub effective_vram_bytes: u64,
    /// DLSS session could be created.
    pub dlss_available: bool,
    /// FSR session could be created.
    pub fsr_available: bool,
}

/// A production lane's feature request.
#[derive(Clone, PartialEq, Eq, Debug, Structural)]
pub struct FeatureRequest {
    pub upscale: UpscaleBackend,
    pub hzb_on: bool,
    pub restir_high: bool,
    pub gi_on: bool,
    pub framegen: FrameGenTier,
    pub textures_on: bool,
}

impl FeatureRequest {
    /// The full request: the top tier of every chain.
    pub fn full() -> (r: Self)
        ensures
            r == (FeatureRequest {
                upscale: UpscaleBackend::DlssSr,
                hzb_on: true,
                restir_high: true,
                gi_on: true,
                framegen: FrameGenTier::X3,
                textures_on: true,
            }),
    {
        FeatureRequest {
            upscale: UpscaleBackend::DlssSr,
            hzb_on: true,
            restir_high: true,
            gi_on: true,
            framegen: FrameGenTier::X3,
            textures_on: true,
        }
    }
}

/// The decision taken for one chain.
#[derive(Clone, PartialEq, Eq, Debug)]
pub struct ChainDecision {
    pub chain: ChainId,
    /// Literal of the requested tier.
    pub requested: String,
    /// Literal of the selected tier (after degradation).
    pub selected: String,
    /// Whether the chain stepped down its ladder.
    pub degraded: bool,
    /// Criterion: what was satisfied, or which capabilities were missing.
    pub reason: String,
}

/// Mathematical model of a [`ChainDecision`].
pub struct DecisionView {
    pub chain: ChainId,
    pub requested: Seq<char>,
    pub selected: Seq<char>,
    pub degraded: bool,
    pub reason: Seq<char>,
}

impl View for ChainDecision {
    type V = DecisionView;

    open spec fn view(&self) -> DecisionView {
        DecisionView {
            chain: self.chain,
            requested: self.requested@,
            selected: self.selected@,
            degraded: self.degraded,
            reason: self.reason@,
        }
    }
}

// ─────────────────────────── specification of the decisions ───────────────────────────

/// Both ray tracing features are present.
pub open spec fn rt_ok(f: CapabilityFacts) -> bool {
    f.ray_query && f.acceleration_structure
}

/// Literals of the missing ray tracing features, ray query first.
pub open spec fn rt_missing_view(f: CapabilityFacts) -> Seq<Seq<char>> {
    (if !f.ray_query { seq![RAY_QUERY_MISSING@] } else { Seq::empty() }) + (
    if !f.acceleration_structure {
        seq![ACCEL_STRUCT_MISSING@]
    } else {
        Seq::empty()
    })
}

/// Literals of what the texture sampling lane misses.
pub open spec fn texture_missing_view(f: CapabilityFacts) -> Seq<Seq<char>> {
    rt_missing_view(f) + (if f.max_per_stage_descriptor_storage_buffers
        < TEXTURE_MIN_STORAGE_BUFFERS {
        seq![SSBO_MISSING@]
    } else {
        Seq::empty()
    })
}

pub open spec fn texture_ok(f: CapabilityFacts) -> bool {
    rt_ok(f) && f.max_per_stage_descriptor_storage_buffers >= TEXTURE_MIN_STORAGE_BUFFERS
}

pub open spec fn on_off(b: bool) -> Seq<char> {
    if b {
        "on"@
    } else {
        "off"@
    }
}

/// Upscale ladder: DLSS, then FSR, then TSR (always available).
pub open spec fn upscale_selected(f: CapabilityFacts, rq: UpscaleBackend) -> UpscaleBackend {
    match rq {
        UpscaleBackend::DlssSr => if f.dlss_available {
            UpscaleBackend::DlssSr
        } else if f.fsr_available {
            UpscaleBackend::Fsr315
        } else {
            UpscaleBackend::TsrDevice
        },
        UpscaleBackend::Fsr315 => if f.fsr_available {
            UpscaleBackend::Fsr315
        } else {
            UpscaleBackend::TsrDevice
        },
        UpscaleBackend::TsrDevice => UpscaleBackend::TsrDevice,
    }
}

pub open spec fn upscale_reason(f: CapabilityFacts, rq: UpscaleBackend) -> Seq<char> {
    match rq {
        UpscaleBackend::DlssSr => if f.dlss_available {
            UP_DLSS_OK@
        } else if f.fsr_available {
            UP_DLSS_TO_FSR@
        } else {
            UP_DLSS_TO_TSR@
        },
        UpscaleBackend::Fsr315 => if f.fsr_available {
            UP_FSR_OK@
        } else {
            UP_FSR_TO_TSR@
        },
        UpscaleBackend::TsrDevice => UP_TSR@,
    }
}

/// `"显存 <vram><relation><threshold><tail>"`.
pub open spec fn vram_reason(vram: u64, relation: Seq<char>, threshold: u64, tail: Seq<char>) -> Seq<
    char,
> {
    VRAM_HEAD@ + decimal_text(vram as nat) + relation + decimal_text(threshold as nat) + tail
}

pub open spec fn hzb_reason(f: CapabilityFacts, on: bool) -> Seq<char> {
    if !on {
        REQ_OFF@
    } else if rt_ok(f) {
        HZB_OK@
    } else {
        HZB_MISSING_HEAD@ + joined(rt_missing_view(f), JOIN_SEP@) + HZB_MISSING_TAIL@
    }
}

pub open spec fn gi_reason(f: CapabilityFacts, on: bool) -> Seq<char> {
    if !on {
        REQ_OFF@
    } else if rt_ok(f) {
        GI_OK@
    } else {
        GI_MISSING_HEAD@ + joined(rt_missing_view(f), JOIN_SEP@) + GI_MISSING_TAIL@
    }
}

pub open spec fn restir_literal(high: bool) -> Seq<char> {
    if high {
        "restir_high"@
    } else {
        "megalights_low"@
    }
}

pub open spec fn restir_reason(f: CapabilityFacts, high: bool) -> Seq<char> {
    if !high {
        RESTIR_REQ_LOW@
    } else if f.effective_vram_bytes >= RESTIR_MIN_VRAM_BYTES {
        vram_reason(f.effective_vram_bytes, VRAM_GE@, RESTIR_MIN_VRAM_BYTES, RESTIR_OK_TAIL@)
    } else {
        vram_reason(f.effective_vram_bytes, VRAM_LT@, RESTIR_MIN_VRAM_BYTES, RESTIR_LOW_TAIL@)
    }
}

pub open spec fn framegen_selected(f: CapabilityFacts, rq: FrameGenTier) -> FrameGenTier {
    if rq == FrameGenTier::Off {
        FrameGenTier::Off
    } else if f.effective_vram_bytes >= FG_MIN_VRAM_BYTES {
        rq
    } else {
        FrameGenTier::Off
    }
}

pub open spec fn framegen_reason(f: CapabilityFacts, rq: FrameGenTier) -> Seq<char> {
    if rq == FrameGenTier::Off {
        REQ_OFF@
    } else if f.effective_vram_bytes >= FG_MIN_VRAM_BYTES {
        vram_reason(f.effective_vram_bytes, VRAM_GE@, FG_MIN_VRAM_BYTES, FG_OK_TAIL@)
    } else {
        vram_reason(f.effective_vram_bytes, VRAM_LT@, FG_MIN_VRAM_BYTES, FG_OFF_TAIL@)
    }
}

pub open spec fn texture_literal(textures: bool) -> Seq<char> {
    if textures {
        "textures"@
    } else {
        "constant_material"@
    }
}

pub open spec fn texture_reason(f: CapabilityFacts, on: bool) -> Seq<char> {
    if !on {
        TEX_REQ_CONST@
    } else if texture_ok(f) {
        TEX_OK_HEAD@ + decimal_text(f.max_per_stage_descriptor_storage_buffers as nat)
            + TEX_OK_TAIL@
    } else {
        TEX_MISSING_HEAD@ + joined(texture_missing_view(f), JOIN_SEP@) + TEX_MISSING_TAIL@
    }
}

/// The decision that the matrix takes for `chain`.
pub open spec fn spec_decision(f: CapabilityFacts, q: FeatureRequest, chain: ChainId) -> DecisionView {
    match chain {
        ChainId::Upscale => DecisionView {
            chain,
            requested: q.upscale.spec_name(),
            selected: upscale_selected(f, q.upscale).spec_name(),
            degraded: upscale_selected(f, q.upscale) != q.upscale,
            reason: upscale_reason(f, q.upscale),
        },
        ChainId::Hzb => DecisionView {
            chain,
            requested: on_off(q.hzb_on),
            selected: on_off(q.hzb_on && rt_ok(f)),
            degraded: q.hzb_on && !rt_ok(f),
            reason: hzb_reason(f, q.hzb_on),
        },
        ChainId::Restir => DecisionView {
            chain,
            requested: restir_literal(q.restir_high),
            selected: restir_literal(
                q.restir_high && f.effective_vram_bytes >= RESTIR_MIN_VRAM_BYTES,
            ),
            degraded: q.restir_high && f.effective_vram_bytes < RESTIR_MIN_VRAM_BYTES,
            reason: restir_reason(f, q.restir_high),
        },
        ChainId::Gi => DecisionView {
            chain,
            requested: on_off(q.gi_on),
            selected: on_off(q.gi_on && rt_ok(f)),
            degraded: q.gi_on && !rt_ok(f),
            reason: gi_reason(f, q.gi_on),
        },
        ChainId::FrameGen => DecisionView {
            chain,
            requested: q.framegen.spec_name(),
            selected: framegen_selected(f, q.framegen).spec_name(),
            degraded: framegen_selected(f, q.framegen) != q.framegen,
            reason: framegen_reason(f, q.framegen),
        },
        ChainId::TextureSampling => DecisionView {
            chain,
            requested: texture_literal(q.textures_on),
            selected: texture_literal(q.textures_on && texture_ok(f)),
            degraded: q.textures_on && !texture_ok(f),
            reason: texture_reason(f, q.textures_on),
        },
    }
}

/// The decisions of all six chains, in the frozen order.
pub open spec fn spec_decisions(f: CapabilityFacts, q: FeatureRequest) -> Seq<DecisionView> {
    all_chains().map_values(|c: ChainId| spec_decision(f, q, c))
}

// ─────────────────────────── executable decisions ───────────────────────────

/// Literals of the missing ray tracing features (empty: both present).
fn rt_missing(facts: &CapabilityFacts) -> (r: Vec<&'static str>)
    ensures
        str_views(r@) == rt_missing_view(*facts),
        r@.len() == 0 <==> rt_ok(*facts),
{
    let mut missing: Vec<&'static str> = Vec::new();
    if !facts.ray_query {
        missing.push(RAY_QUERY_MISSING);
    }
    if !facts.acceleration_structure {
        missing.push(ACCEL_STRUCT_MISSING);
    }
    assert(str_views(missing@) =~= rt_missing_view(*facts));
    missing
}

/// `"显存 <vram><relation><threshold><tail>"`.
fn vram_reason_string(vram: u64, relation: &str, threshold: u64, tail: &str) -> (r: String)
    ensures
        r@ == vram_reason(vram, relation@, threshold, tail@),
{
    let mut s = VRAM_HEAD.to_owned();
    let v = decimal_string(vram);
    push_str(&mut s, v.as_str());
    push_str(&mut s, relation);
    let t = decimal_string(threshold);
    push_str(&mut s, t.as_str());
    push_str(&mut s, tail);
    s
}

/// `head + missing.join(" + ") + tail`.
fn missing_reason_string(head: &str, missing: &Vec<&'static str>, tail: &str) -> (r: String)
    ensures
        r@ == head@ + joined(str_views(missing@), JOIN_SEP@) + tail@,
{
    let mut s = head.to_owned();
    let j = join_strs(missing, JOIN_SEP);
    push_str(&mut s, j.as_str());
    push_str(&mut s, tail);
    s
}

fn resolve_upscale(facts: &CapabilityFacts, request: &FeatureRequest) -> (r: ChainDecision)
    ensures
        r@ == spec_decision(*facts, *request, ChainId::Upscale),
{
    let requested = request.upscale;
    let (selected, reason) = match requested {
        UpscaleBackend::DlssSr => {
            if facts.dlss_available {
                (UpscaleBackend::DlssSr, UP_DLSS_OK.to_owned())
            } else if facts.fsr_available {
                (UpscaleBackend::Fsr315, UP_DLSS_TO_FSR.to_owned())
            } else {
                (UpscaleBackend::TsrDevice, UP_DLSS_TO_TSR.to_owned())
            }
        },
        UpscaleBackend::Fsr315 => {
            if facts.fsr_available {
                (UpscaleBackend::Fsr315, UP_FSR_OK.to_owned())
            } else {
                (UpscaleBackend::TsrDevice, UP_FSR_TO_TSR.to_owned())
            }
        },
        UpscaleBackend::TsrDevice => (UpscaleBackend::TsrDevice, UP_TSR.to_owned()),
    };
    ChainDecision {
        chain: ChainId::Upscale,
        requested: requested.name().to_owned(),
        selected: selected.name().to_owned(),
        degraded: selected != requested,
        reason,
    }
}

fn on_off_str(b: bool) -> (r: &'static str)
    ensures
        r@ == on_off(b),
{
    if b {
        "on"
    } else {
        "off"
    }
}

fn resolve_hzb(facts: &CapabilityFacts, request: &FeatureRequest) -> (r: ChainDecision)
    ensures
        r@ == spec_decision(*facts, *request, ChainId::Hzb),
{
    let requested = request.hzb_on;
    let missing = rt_missing(facts);
    let (selected, reason) = if !requested {
        (false, REQ_OFF.to_owned())
    } else if missing.len() == 0 {
        (true, HZB_OK.to_owned())
    } else {
        (false, missing_reason_string(HZB_MISSING_HEAD, &missing, HZB_MISSING_TAIL))
    };
    ChainDecision {
        chain: ChainId::Hzb,
        requested: on_off_str(requested).to_owned(),
        selected: on_off_str(selected).to_owned(),
        degraded: requested && !selected,
        reason,
    }
}

fn restir_str(high: bool) -> (r: &'static str)
    ensures
        r@ == restir_literal(high),
{
    if high {
        "restir_high"
    } else {
        "megalights_low"
    }
}

fn resolve_restir(facts: &CapabilityFacts, request: &FeatureRequest) -> (r: ChainDecision)
    ensures
        r@ == spec_decision(*facts, *request, ChainId::Restir),
{
    let requested = request.restir_high;
    let (selected, reason) = if !requested {
        (false, RESTIR_REQ_LOW.to_owned())
    } else if facts.effective_vram_bytes >= RESTIR_MIN_VRAM_BYTES {
        (
            true,
            vram_reason_string(
                facts.effective_vram_bytes,
                VRAM_GE,
                RESTIR_MIN_VRAM_BYTES,
                RESTIR_OK_TAIL,
            ),
        )
    } else {
        (
            false,
            vram_reason_string(
                facts.effective_vram_bytes,
                VRAM_LT,
                RESTIR_MIN_VRAM_BYTES,
                RESTIR_LOW_TAIL,
            ),
        )
    };
    ChainDecision {
        chain: ChainId::Restir,
        requested: restir_str(requested).to_owned(),
        selected: restir_str(selected).to_owned(),
        degraded: requested && !selected,
        reason,
    }
}

fn resolve_gi(facts: &CapabilityFacts, request: &FeatureRequest) -> (r: ChainDecision)
    ensures
        r@ == spec_decision(*facts, *request, ChainId::Gi),
{
    let requested = request.gi_on;
    let missing = rt_missing(facts);
    let (selected, reason) = if !requested {
        (false, REQ_OFF.to_owned())
    } else if missing.len() == 0 {
        (true, GI_OK.to_owned())
    } else {
        (false, missing_reason_string(GI_MISSING_HEAD, &missing, GI_MISSING_TAIL))
    };
    ChainDecision {
        chain: ChainId::Gi,
        requested: on_off_str(requested).to_owned(),
        selected: on_off_str(selected).to_owned(),
        degraded: requested && !selected,
        reason,
    }
}

fn resolve_framegen(facts: &CapabilityFacts, request: &FeatureRequest) -> (r: ChainDecision)
    ensures
        r@ == spec_decision(*facts, *request, ChainId::FrameGen),
{
    let requested = request.framegen;
    let (selected, reason) = if requested == FrameGenTier::Off {
        (FrameGenTier::Off, REQ_OFF.to_owned())
    } else if facts.effective_vram_bytes >= FG_MIN_VRAM_BYTES {
        (
            requested,
            vram_reason_string(facts.effective_vram_bytes, VRAM_GE, FG_MIN_VRAM_BYTES, FG_OK_TAIL),
        )
    } else {
        (
            FrameGenTier::Off,
            vram_reason_string(facts.effective_vram_bytes, VRAM_LT, FG_MIN_VRAM_BYTES, FG_OFF_TAIL),
        )
    };
    ChainDecision {
        chain: ChainId::FrameGen,
        requested: requested.name().to_owned(),
        selected: selected.name().to_owned(),
        degraded: selected != requested,
        reason,
    }
}

fn texture_str(textures: bool) -> (r: &'static str)
    ensures
        r@ == texture_literal(textures),
{
    if textures {
        "textures"
    } else {
        "constant_material"
    }
}

fn resolve_texture(facts: &CapabilityFacts, request: &FeatureRequest) -> (r: ChainDecision)
    ensures
        r@ == spec_decision(*facts, *request, ChainId::TextureSampling),
{
    let requested = request.textures_on;
    let mut missing = rt_missing(facts);
    if facts.max_per_stage_descriptor_storage_buffers < TEXTURE_MIN_STORAGE_BUFFERS {
        missing.push(SSBO_MISSING);
    }
    assert(str_views(missing@) =~= texture_missing_view(*facts));
    let (selected, reason) = if !requested {
        (false, TEX_REQ_CONST.to_owned())
    } else if missing.len() == 0 {
        let mut s = TEX_OK_HEAD.to_owned();
        let d = decimal_string(facts.max_per_stage_descriptor_storage_buffers as u64);
        push_str(&mut s, d.as_str());
        push_str(&mut s, TEX_OK_TAIL);
        (true, s)
    } else {
        (false, missing_reason_string(TEX_MISSING_HEAD, &missing, TEX_MISSING_TAIL))
    };
    ChainDecision {
        chain: ChainId::TextureSampling,
        requested: texture_str(requested).to_owned(),
        selected: texture_str(selected).to_owned(),
        degraded: requested && !selected,
        reason,
    }
}

/// The decision for one chain.
fn resolve_one(facts: &CapabilityFacts, request: &FeatureRequest, chain: ChainId) -> (r:
    ChainDecision)
    ensures
        r@ == spec_decision(*facts, *request, chain),
{
    match chain {
        ChainId::Upscale => resolve_upscale(facts, request),
        ChainId::Hzb => resolve_hzb(facts, request),
        ChainId::Restir => resolve_restir(facts, request),
        ChainId::Gi => resolve_gi(facts, request),
        ChainId::FrameGen => resolve_framegen(facts, request),
        ChainId::TextureSampling => resolve_texture(facts, request),
    }
}

/// Fail-closed degradation of the six chains, in the frozen order of
/// [`ChainId::ALL`]: each chain keeps its requested tier when the capability
/// it needs is present, otherwise steps down its ladder and names what is
/// missing in `reason`.
pub fn resolve_chains(facts: &CapabilityFacts, request: &FeatureRequest) -> (r: Vec<ChainDecision>)
    ensures
        r@.len() == 6,
        forall|i: int| 0 <= i < 6 ==> #[trigger] r@[i]@ == spec_decisions(*facts, *request)[i],
{
    let all = ChainId::ALL;
    assert(all@ =~= all_chains());
    let mut out: Vec<ChainDecision> = Vec::new();
    let mut i: usize = 0;
    while i < 6
        invariant
            i <= 6,
            all@ == all_chains(),
            out@.len() == i,
            forall|k: int| 0 <= k < i ==> #[trigger] out@[k]@ == spec_decisions(*facts, *request)[k],
        decreases 6 - i,
    {
        let d = resolve_one(facts, request, all[i]);
        out.push(d);
        i = i + 1;
    }
    out
}

// ─────────────────────────── canonical text and digest ───────────────────────────

/// `"1"` for a degraded decision, `"0"` otherwise.
pub open spec fn flag_text(b: bool) -> Seq<char> {
    if b {
        "1"@
    } else {
        "0"@
    }
}

/// One canonical line: `chain|requested|selected|degraded|reason\n`.
pub open spec fn canonical_line(d: DecisionView) -> Seq<char> {
    d.chain.spec_name() + FIELD_SEP@ + d.requested + FIELD_SEP@ + d.selected + FIELD_SEP@
        + flag_text(d.degraded) + FIELD_SEP@ + d.reason + LINE_END@
}

pub open spec fn canonical_lines(ds: Seq<DecisionView>) -> Seq<char>
    decreases ds.len(),
{
    if ds.len() == 0 {
        Seq::<char>::empty()
    } else {
        canonical_lines(ds.drop_last()) + canonical_line(ds.last())
    }
}

/// The canonical text of a decision set: a fixed header, then one line per
/// decision in the given order.
pub open spec fn canonical_text(ds: Seq<DecisionView>) -> Seq<char> {
    CANON_HEADER@ + canonical_lines(ds)
}

pub open spec fn decision_views(ds: Seq<ChainDecision>) -> Seq<DecisionView> {
    ds.map_values(|d: ChainDecision| d@)
}

fn flag_str(b: bool) -> (r: &'static str)
    ensures
        r@ == flag_text(b),
{
    if b {
        "1"
    } else {
        "0"
    }
}

/// Canonical text of a decision set (fixed header, one delimited line per
/// decision, no paths or timestamps: two runs give the same bytes).
pub fn decisions_canonical(decisions: &[ChainDecision]) -> (r: String)
    ensures
        r@ == canonical_text(decision_views(decisions@)),
{
    let ghost views = decision_views(decisions@);
    let mut s = CANON_HEADER.to_owned();
    let n = decisions.len();
    let mut i: usize = 0;
    while i < n
        invariant
            n == decisions@.len(),
            views == decision_views(decisions@),
            i <= n,
            s@ == CANON_HEADER@ + canonical_lines(views.take(i as int)),
        decreases n - i,
    {
        let d = &decisions[i];
        proof {
            assert(views.take(i + 1).drop_last() =~= views.take(i as int));
            assert(views.take(i + 1).last() == d@);
        }
        push_str(&mut s, d.chain.name());
        push_str(&mut s, FIELD_SEP);
        push_str(&mut s, d.requested.as_str());
        push_str(&mut s, FIELD_SEP);
        push_str(&mut s, d.selected.as_str());
        push_str(&mut s, FIELD_SEP);
        push_str(&mut s, flag_str(d.degraded));
        push_str(&mut s, FIELD_SEP);
        push_str(&mut s, d.reason.as_str());
        push_str(&mut s, LINE_END);
        assert(s@ =~= CANON_HEADER@ + canonical_lines(views.take(i as int)) + canonical_line(d@));
        i = i + 1;
    }
    assert(views.take(n as int) =~= views);
    s
}

/// Digest of a decision set: lowercase hex of the SHA-256 of the UTF-8 bytes
/// of [`decisions_canonical`].
pub fn decisions_digest(decisions: &[ChainDecision]) -> (r: String)
    ensures
        r@ == hex_text(sha256_of(encode_utf8(canonical_text(decision_views(decisions@))))),
        r@.len() == 64,
{
    let text = decisions_canonical(decisions);
    let digest = sha256_digest(text.as_str().as_bytes());
    lower_hex(&digest)
}

// ─────────────────────────── the particles chain ───────────────────────────

pub const PART_SSBO_OK_HEAD: &'static str = "SSBO 面 ";
pub const PART_SSBO_OK_MID: &'static str = " ≥ ";
pub const PART_SSBO_OK_TAIL: &'static str = "(g35_particle_compact 21 件绑定包络满足;compute 基线 = 设备面非空)";
pub const PART_SSBO_MISS_HEAD: &'static str = "粒子车道需求缺失:maxPerStageDescriptorStorageBuffers ";
pub const PART_SSBO_MISS_MID: &'static str = " < ";
pub const PART_SSBO_MISS_TAIL: &'static str = "(compact 21 件绑定面)→ off(无粒子面如实,禁静默错图)";
pub const COLL_MAIN_OFF: &'static str = "主链 off ⇒ 碰撞臂恒 off";
pub const COLL_RT_OK: &'static str = "rt 双 feature 实测在位(同帧 TLAS 碰撞面满足)";
pub const COLL_RT_MISS_HEAD: &'static str = "碰撞 ray_query 档需求缺失:";
pub const COLL_RT_MISS_TAIL: &'static str = " → depth_buffer(屏幕空间局限如实登记,显式降级禁静默换臂)";
pub const COLL_REQ_DEPTH: &'static str = "请求即 depth_buffer(无降级)";
pub const COLL_JOINT: &'static str = ";碰撞臂:";
pub const PART_CANON_HEADER: &'static str = "rurix.g35.particles-chain-decision.v1\nparticles|";

/// Collision tiers of the particles lane, top of the ladder first.
#[derive(Clone, Copy, PartialEq, Eq, Debug, Structural)]
pub enum ParticleCollisionTier {
    RayQuery,
    DepthBuffer,
    Off,
}

impl ParticleCollisionTier {
    pub open spec fn spec_name(self) -> Seq<char> {
        match self {
            ParticleCollisionTier::RayQuery => "ray_query"@,
            ParticleCollisionTier::DepthBuffer => "depth_buffer"@,
            ParticleCollisionTier::Off => "off"@,
        }
    }

    /// Lane literal of the tier.
    pub fn name(self) -> (r: &'static str)
        ensures
            r@ == self.spec_name(),
    {
        match self {
            ParticleCollisionTier::RayQuery => "ray_query",
            ParticleCollisionTier::DepthBuffer => "depth_buffer",
            ParticleCollisionTier::Off => "off",
        }
    }
}

/// A particles lane request.
#[derive(Clone, PartialEq, Eq, Debug, Structural)]
pub struct ParticlesRequest {
    pub particles_on: bool,
    pub collision: ParticleCollisionTier,
}

impl ParticlesRequest {
    /// The full request: GPU particles with ray query collision.
    pub fn full() -> (r: Self)
        ensures
            r == (ParticlesRequest {
                particles_on: true,
                collision: ParticleCollisionTier::RayQuery,
            }),
    {
        ParticlesRequest { particles_on: true, collision: ParticleCollisionTier::RayQuery }
    }
}

/// The particles chain decision (main ladder and collision ladder together).
#[derive(Clone, PartialEq, Eq, Debug)]
pub struct ParticlesChainDecision {
    pub requested: String,
    pub selected: String,
    pub collision_requested: String,
    pub collision_selected: String,
    pub degraded: bool,
    pub reason: String,
}

/// Mathematical model of a [`ParticlesChainDecision`].
pub struct ParticlesDecisionView {
    pub requested: Seq<char>,
    pub selected: Seq<char>,
    pub collision_requested: Seq<char>,
    pub collision_selected: Seq<char>,
    pub degraded: bool,
    pub reason: Seq<char>,
}

impl View for ParticlesChainDecision {
    type V = ParticlesDecisionView;

    open spec fn view(&self) -> ParticlesDecisionView {
        ParticlesDecisionView {
            requested: self.requested@,
            selected: self.selected@,
            collision_requested: self.collision_requested@,
            collision_selected: self.collision_selected@,
            degraded: self.degraded,
            reason: self.reason@,
        }
    }
}

pub open spec fn particles_literal(on: bool) -> Seq<char> {
    if on {
        "gpu_particles"@
    } else {
        "off"@
    }
}

pub open spec fn particles_ssbo_ok(f: CapabilityFacts) -> bool {
    f.max_per_stage_descriptor_storage_buffers >= PARTICLES_MIN_STORAGE_BUFFERS
}

/// The main particles ladder keeps `gpu_particles`.
pub open spec fn particles_main_on(f: CapabilityFacts, q: ParticlesRequest) -> bool {
    q.particles_on && particles_ssbo_ok(f)
}

/// The collision tier that is selected.
pub open spec fn collision_selected(f: CapabilityFacts, q: ParticlesRequest) -> ParticleCollisionTier {
    if !particles_main_on(f, q) {
        ParticleCollisionTier::Off
    } else {
        match q.collision {
            ParticleCollisionTier::RayQuery => if rt_ok(f) {
                ParticleCollisionTier::RayQuery
            } else {
                ParticleCollisionTier::DepthBuffer
            },
            other => other,
        }
    }
}

pub open spec fn particles_main_reason(f: CapabilityFacts, q: ParticlesRequest) -> Seq<char> {
    let ssbo = f.max_per_stage_descriptor_storage_buffers as nat;
    let min = PARTICLES_MIN_STORAGE_BUFFERS as nat;
    if !q.particles_on {
        REQ_OFF@
    } else if particles_ssbo_ok(f) {
        PART_SSBO_OK_HEAD@ + decimal_text(ssbo) + PART_SSBO_OK_MID@ + decimal_text(min)
            + PART_SSBO_OK_TAIL@
    } else {
        PART_SSBO_MISS_HEAD@ + decimal_text(ssbo) + PART_SSBO_MISS_MID@ + decimal_text(min)
            + PART_SSBO_MISS_TAIL@
    }
}

pub open spec fn collision_reason(f: CapabilityFacts, q: ParticlesRequest) -> Seq<char> {
    if !particles_main_on(f, q) {
        COLL_MAIN_OFF@
    } else {
        match q.collision {
            ParticleCollisionTier::RayQuery => if rt_ok(f) {
                COLL_RT_OK@
            } else {
                COLL_RT_MISS_HEAD@ + joined(rt_missing_view(f), JOIN_SEP@) + COLL_RT_MISS_TAIL@
            },
            ParticleCollisionTier::DepthBuffer => COLL_REQ_DEPTH@,
            ParticleCollisionTier::Off => REQ_OFF@,
        }
    }
}

/// The particles chain decision.
pub open spec fn spec_particles_decision(f: CapabilityFacts, q: ParticlesRequest) -> ParticlesDecisionView {
    ParticlesDecisionView {
        requested: particles_literal(q.particles_on),
        selected: particles_literal(particles_main_on(f, q)),
        collision_requested: q.collision.spec_name(),
        collision_selected: collision_selected(f, q).spec_name(),
        degraded: (q.particles_on && !particles_ssbo_ok(f)) || (particles_main_on(f, q)
            && collision_selected(f, q) != q.collision),
        reason: particles_main_reason(f, q) + COLL_JOINT@ + collision_reason(f, q),
    }
}

fn particles_str(on: bool) -> (r: &'static str)
    ensures
        r@ == particles_literal(on),
{
    if on {
        "gpu_particles"
    } else {
        "off"
    }
}

/// `head + ssbo + mid + minimum + tail`.
fn ssbo_reason_string(head: &str, ssbo: u32, mid: &str, tail: &str) -> (r: String)
    ensures
        r@ == head@ + decimal_text(ssbo as nat) + mid@ + decimal_text(
            PARTICLES_MIN_STORAGE_BUFFERS as nat,
        ) + tail@,
{
    let mut s = head.to_owned();
    let a = decimal_string(ssbo as u64);
    push_str(&mut s, a.as_str());
    push_str(&mut s, mid);
    let b = decimal_string(PARTICLES_MIN_STORAGE_BUFFERS as u64);
    push_str(&mut s, b.as_str());
    push_str(&mut s, tail);
    s
}

/// Fail-closed decision of the particles chain: the main ladder
/// `gpu_particles → off` needs enough storage buffers; the collision ladder
/// `ray_query → depth_buffer` needs both ray tracing features, and is `off`
/// whenever the main ladder is `off`. A change of collision tier is recorded
/// as a degradation, never made silently.
pub fn resolve_particles_chain(facts: &CapabilityFacts, request: &ParticlesRequest) -> (r:
    ParticlesChainDecision)
    ensures
        r@ == spec_particles_decision(*facts, *request),
{
    let ssbo_ok = facts.max_per_stage_descriptor_storage_buffers >= PARTICLES_MIN_STORAGE_BUFFERS;
    let (main_on, mut reason) = if !request.particles_on {
        (false, REQ_OFF.to_owned())
    } else if ssbo_ok {
        (
            true,
            ssbo_reason_string(
                PART_SSBO_OK_HEAD,
                facts.max_per_stage_descriptor_storage_buffers,
                PART_SSBO_OK_MID,
                PART_SSBO_OK_TAIL,
            ),
        )
    } else {
        (
            false,
            ssbo_reason_string(
                PART_SSBO_MISS_HEAD,
                facts.max_per_stage_descriptor_storage_buffers,
                PART_SSBO_MISS_MID,
                PART_SSBO_MISS_TAIL,
            ),
        )
    };
    let (coll, coll_reason) = if !main_on {
        (ParticleCollisionTier::Off, COLL_MAIN_OFF.to_owned())
    } else {
        match request.collision {
            ParticleCollisionTier::RayQuery => {
                let missing = rt_missing(facts);
                if missing.len() == 0 {
                    (ParticleCollisionTier::RayQuery, COLL_RT_OK.to_owned())
                } else {
                    (
                        ParticleCollisionTier::DepthBuffer,
                        missing_reason_string(COLL_RT_MISS_HEAD, &missing, COLL_RT_MISS_TAIL),
                    )
                }
            },
            ParticleCollisionTier::DepthBuffer => {
                (ParticleCollisionTier::DepthBuffer, COLL_REQ_DEPTH.to_owned())
            },
            ParticleCollisionTier::Off => (ParticleCollisionTier::Off, REQ_OFF.to_owned()),
        }
    };
    push_str(&mut reason, COLL_JOINT);
    push_str(&mut reason, coll_reason.as_str());
    ParticlesChainDecision {
        requested: particles_str(request.particles_on).to_owned(),
        selected: particles_str(main_on).to_owned(),
        collision_requested: request.collision.name().to_owned(),
        collision_selected: coll.name().to_owned(),
        degraded: (request.particles_on && !main_on) || (main_on && coll != request.collision),
        reason,
    }
}

/// The canonical text of a particles decision.
pub open spec fn particles_canonical_text(d: ParticlesDecisionView) -> Seq<char> {
    PART_CANON_HEADER@ + d.requested + FIELD_SEP@ + d.selected + FIELD_SEP@ + d.collision_requested
        + FIELD_SEP@ + d.collision_selected + FIELD_SEP@ + flag_text(d.degraded) + FIELD_SEP@
        + d.reason + LINE_END@
}

/// Canonical text of a particles decision (same rules as
/// [`decisions_canonical`]).
pub fn particles_decision_canonical(d: &ParticlesChainDecision) -> (r: String)
    ensures
        r@ == particles_canonical_text(d@),
{
    let mut s = PART_CANON_HEADER.to_owned();
    push_str(&mut s, d.requested.as_str());
    push_str(&mut s, FIELD_SEP);
    push_str(&mut s, d.selected.as_str());
    push_str(&mut s, FIELD_SEP);
    push_str(&mut s, d.collision_requested.as_str());
    push_str(&mut s, FIELD_SEP);
    push_str(&mut s, d.collision_selected.as_str());
    push_str(&mut s, FIELD_SEP);
    push_str(&mut s, flag_str(d.degraded));
    push_str(&mut s, FIELD_SEP);
    push_str(&mut s, d.reason.as_str());
    push_str(&mut s, LINE_END);
    s
}

// ─────────────────────────── laws ───────────────────────────

/// The closed ladder of a chain, top tier first.
pub open spec fn ladder(c: ChainId) -> Seq<Seq<char>> {
    match c {
        ChainId::Upscale => seq!["dlss_sr"@, "fsr_3_1_5"@, "tsr_device"@],
        ChainId::Hzb => seq!["on"@, "off"@],
        ChainId::Restir => seq!["restir_high"@, "megalights_low"@],
        ChainId::Gi => seq!["on"@, "off"@],
        ChainId::FrameGen => seq!["off"@, "x2"@, "x3"@],
        ChainId::TextureSampling => seq!["textures"@, "constant_material"@],
    }
}

proof fn lemma_tier_literals_distinct()
    ensures
        "on"@ != "off"@,
        "restir_high"@ != "megalights_low"@,
        "textures"@ != "constant_material"@,
        "dlss_sr"@ != "fsr_3_1_5"@,
        "dlss_sr"@ != "tsr_device"@,
        "fsr_3_1_5"@ != "tsr_device"@,
        "off"@ != "x2"@,
        "off"@ != "x3"@,
        "x2"@ != "x3"@,
        "gpu_particles"@ != "off"@,
        "ray_query"@ != "depth_buffer"@,
        "ray_query"@ != "off"@,
        "depth_buffer"@ != "off"@,
{
    reveal_strlit("on");
    reveal_strlit("off");
    reveal_strlit("restir_high");
    reveal_strlit("megalights_low");
    reveal_strlit("textures");
    reveal_strlit("constant_material");
    reveal_strlit("dlss_sr");
    reveal_strlit("fsr_3_1_5");
    reveal_strlit("tsr_device");
    reveal_strlit("x2");
    reveal_strlit("x3");
    reveal_strlit("gpu_particles");
    reveal_strlit("ray_query");
    reveal_strlit("depth_buffer");
    assert("on"@.len() != "off"@.len());
    assert("restir_high"@.len() != "megalights_low"@.len());
    assert("textures"@.len() != "constant_material"@.len());
    assert("dlss_sr"@.len() != "fsr_3_1_5"@.len());
    assert("dlss_sr"@[0] != "tsr_device"@[0]);
    assert("fsr_3_1_5"@.len() != "tsr_device"@.len());
    assert("off"@.len() != "x2"@.len());
    assert("off"@.len() != "x3"@.len());
    assert("x2"@[1] != "x3"@[1]);
    assert("gpu_particles"@.len() != "off"@.len());
    assert("ray_query"@.len() != "depth_buffer"@.len());
    assert("ray_query"@.len() != "off"@.len());
    assert("depth_buffer"@.len() != "off"@.len());
}

/// Every decision selects a tier of its chain's closed ladder and names a
/// requested tier of that ladder; it is marked degraded exactly when the
/// selected tier differs from the requested one.
pub proof fn law_decision_within_ladder(f: CapabilityFacts, q: FeatureRequest, c: ChainId)
    ensures
        ladder(c).contains(spec_decision(f, q, c).selected),
        ladder(c).contains(spec_decision(f, q, c).requested),
        spec_decision(f, q, c).degraded == (spec_decision(f, q, c).selected != spec_decision(
            f,
            q,
            c,
        ).requested),
        spec_decision(f, q, c).chain == c,
{
    lemma_tier_literals_distinct();
    let d = spec_decision(f, q, c);
    let l = ladder(c);
    assert(l.contains(d.selected)) by {
        if l[0] == d.selected {
        } else if l[1] == d.selected {
        } else {
            assert(l[2] == d.selected);
        }
    }
    assert(l.contains(d.requested)) by {
        if l[0] == d.requested {
        } else if l[1] == d.requested {
        } else {
            assert(l[2] == d.requested);
        }
    }
}

/// The chains come out in the frozen order, and every chain has a decision.
pub proof fn law_decisions_cover_frozen_order(f: CapabilityFacts, q: FeatureRequest)
    ensures
        spec_decisions(f, q).len() == 6,
        forall|i: int| 0 <= i < 6 ==> (#[trigger] spec_decisions(f, q)[i]).chain == all_chains()[i],
{
}

/// A device with every capability degrades no chain, whatever is requested.
pub proof fn law_full_capabilities_never_degrade(f: CapabilityFacts, q: FeatureRequest, c: ChainId)
    requires
        f.dlss_available,
        f.fsr_available,
        f.ray_query,
        f.acceleration_structure,
        f.effective_vram_bytes >= RESTIR_MIN_VRAM_BYTES,
        f.max_per_stage_descriptor_storage_buffers >= TEXTURE_MIN_STORAGE_BUFFERS,
    ensures
        !spec_decision(f, q, c).degraded,
        spec_decision(f, q, c).selected == spec_decision(f, q, c).requested,
{
}

/// A request for the bottom tier of every ladder is never degraded, whatever
/// the device lacks.
pub proof fn law_bottom_requests_never_degrade(f: CapabilityFacts, q: FeatureRequest, c: ChainId)
    requires
        q.upscale == UpscaleBackend::TsrDevice,
        !q.hzb_on,
        !q.restir_high,
        !q.gi_on,
        q.framegen == FrameGenTier::Off,
        !q.textures_on,
    ensures
        !spec_decision(f, q, c).degraded,
{
}

/// `g` has at least the capabilities of `f`.
pub open spec fn at_least_as_capable(g: CapabilityFacts, f: CapabilityFacts) -> bool {
    &&& f.ray_query ==> g.ray_query
    &&& f.acceleration_structure ==> g.acceleration_structure
    &&& f.dlss_available ==> g.dlss_available
    &&& f.fsr_available ==> g.fsr_available
    &&& f.effective_vram_bytes <= g.effective_vram_bytes
    &&& f.max_per_stage_descriptor_storage_buffers <= g.max_per_stage_descriptor_storage_buffers
}

/// More capabilities never cause a degradation: a chain that a more capable
/// device degrades is degraded on the less capable one too.
pub proof fn law_more_capabilities_degrade_no_more(
    f: CapabilityFacts,
    g: CapabilityFacts,
    q: FeatureRequest,
    c: ChainId,
)
    requires
        at_least_as_capable(g, f),
    ensures
        spec_decision(g, q, c).degraded ==> spec_decision(f, q, c).degraded,
{
}

/// The particles chain is not one of the six frozen chains.
pub proof fn law_particles_outside_frozen_chains(c: ChainId)
    ensures
        c.spec_name() != "particles"@,
{
    reveal_strlit("particles");
    reveal_strlit("upscale");
    reveal_strlit("hzb");
    reveal_strlit("restir");
    reveal_strlit("gi");
    reveal_strlit("framegen");
    reveal_strlit("texture_sampling");
    assert("upscale"@[0] != "particles"@[0]);
    assert("hzb"@.len() != "particles"@.len());
    assert("restir"@.len() != "particles"@.len());
    assert("gi"@.len() != "particles"@.len());
    assert("framegen"@.len() != "particles"@.len());
    assert("texture_sampling"@.len() != "particles"@.len());
}

/// Particles chain: both tiers lie in their closed ladders; the collision
/// tier is `off` whenever the main ladder is `off`; the decision is marked
/// degraded exactly when the main tier fell, or the collision tier changed
/// while particles are on.
pub proof fn law_particles_decision_shape(f: CapabilityFacts, q: ParticlesRequest)
    ensures
        ({
            let d = spec_particles_decision(f, q);
            &&& d.selected == "gpu_particles"@ || d.selected == "off"@
            &&& d.collision_selected == "ray_query"@ || d.collision_selected == "depth_buffer"@
                || d.collision_selected == "off"@
            &&& d.selected == "off"@ ==> d.collision_selected == "off"@
            &&& d.degraded == ((d.selected != d.requested) || (d.selected == "gpu_particles"@
                && d.collision_selected != d.collision_requested))
        }),
{
    lemma_tier_literals_distinct();
}

/// Requests for `off` or for depth-buffer collision are never degraded when
/// the storage-buffer bound holds (and `off` never at all).
pub proof fn law_particles_modest_requests_never_degrade(f: CapabilityFacts, q: ParticlesRequest)
    requires
        !q.particles_on || (q.collision != ParticleCollisionTier::RayQuery && particles_ssbo_ok(f)),
    ensures
        !spec_particles_decision(f, q).degraded,
{
}

/// The canonical text and the digest are reproducible: decision sets with
/// the same contents give the same text, hence the same digest.
pub proof fn law_canonical_reproducible(a: Seq<ChainDecision>, b: Seq<ChainDecision>)
    requires
        decision_views(a) == decision_views(b),
    ensures
        canonical_text(decision_views(a)) == canonical_text(decision_views(b)),
        hex_text(sha256_of(encode_utf8(canonical_text(decision_views(a))))) == hex_text(
            sha256_of(encode_utf8(canonical_text(decision_views(b)))),
        ),
{
}


/// Position of an upscaler literal on the ladder `dlss_sr > fsr_3_1_5 >
/// tsr_device` (0 is the top).
pub open spec fn upscale_rank(s: Seq<char>) -> int {
    if s == "dlss_sr"@ {
        0
    } else if s == "fsr_3_1_5"@ {
        1
    } else {
        2
    }
}

/// The upscale chain, stated with the literals of its ladder: a DLSS request
/// takes DLSS when present, else FSR when present, else TSR; an FSR request
/// takes FSR when present and TSR otherwise, whatever DLSS does; a TSR
/// request always keeps TSR. The selected tier never stands above the
/// requested one, and each step down names the missing backend.
pub proof fn law_upscale_ladder(f: CapabilityFacts, q: FeatureRequest)
    ensures
        ({
            let d = spec_decision(f, q, ChainId::Upscale);
            &&& q.upscale == UpscaleBackend::DlssSr ==> {
                &&& d.requested == "dlss_sr"@
                &&& d.selected == (if f.dlss_available {
                    "dlss_sr"@
                } else if f.fsr_available {
                    "fsr_3_1_5"@
                } else {
                    "tsr_device"@
                })
                &&& d.reason == (if f.dlss_available {
                    "dlss_available 实测真建(session 全链在位)"@
                } else if f.fsr_available {
                    "dlss_available=false(NGX 动态加载 fail-closed)→ FSR 实测真建在位"@
                } else {
                    "dlss_available=false 且 fsr_available=false → TSR 自研恒可用(梯底)"@
                })
            }
            &&& q.upscale == UpscaleBackend::Fsr315 ==> {
                &&& d.requested == "fsr_3_1_5"@
                &&& d.selected == (if f.fsr_available {
                    "fsr_3_1_5"@
                } else {
                    "tsr_device"@
                })
                &&& d.reason == (if f.fsr_available {
                    "fsr_available 实测真建(D3D12 臂全链在位)"@
                } else {
                    "fsr_available=false → TSR 自研恒可用(梯底)"@
                })
            }
            &&& q.upscale == UpscaleBackend::TsrDevice ==> {
                &&& d.requested == "tsr_device"@
                &&& d.selected == "tsr_device"@
                &&& d.reason == "TSR 自研恒可用(需求 = Vulkan compute)"@
            }
            &&& upscale_rank(d.selected) >= upscale_rank(d.requested)
            &&& d.degraded == (upscale_rank(d.selected) > upscale_rank(d.requested))
        }),
{
    lemma_tier_literals_distinct();
}

/// The five on/off and threshold chains, stated with their literals and
/// thresholds: a chain keeps its requested tier exactly when the capability
/// it needs is present, steps down to its bottom tier otherwise, and a
/// request for the bottom tier is kept.
pub proof fn law_threshold_chains(f: CapabilityFacts, q: FeatureRequest)
    ensures
        ({
            let rt = f.ray_query && f.acceleration_structure;
            let h = spec_decision(f, q, ChainId::Hzb);
            let r = spec_decision(f, q, ChainId::Restir);
            let g = spec_decision(f, q, ChainId::Gi);
            let fg = spec_decision(f, q, ChainId::FrameGen);
            let t = spec_decision(f, q, ChainId::TextureSampling);
            &&& h.requested == (if q.hzb_on {
                "on"@
            } else {
                "off"@
            })
            &&& h.selected == (if q.hzb_on && rt {
                "on"@
            } else {
                "off"@
            })
            &&& h.degraded == (q.hzb_on && !rt)
            &&& g.requested == (if q.gi_on {
                "on"@
            } else {
                "off"@
            })
            &&& g.selected == (if q.gi_on && rt {
                "on"@
            } else {
                "off"@
            })
            &&& g.degraded == (q.gi_on && !rt)
            &&& r.requested == (if q.restir_high {
                "restir_high"@
            } else {
                "megalights_low"@
            })
            &&& r.selected == (if q.restir_high && f.effective_vram_bytes >= 1073741824 {
                "restir_high"@
            } else {
                "megalights_low"@
            })
            &&& r.degraded == (q.restir_high && f.effective_vram_bytes < 1073741824)
            &&& fg.requested == q.framegen.spec_name()
            &&& fg.selected == (if q.framegen != FrameGenTier::Off && f.effective_vram_bytes
                >= 536870912 {
                q.framegen.spec_name()
            } else {
                "off"@
            })
            &&& fg.degraded == (q.framegen != FrameGenTier::Off && f.effective_vram_bytes
                < 536870912)
            &&& t.requested == (if q.textures_on {
                "textures"@
            } else {
                "constant_material"@
            })
            &&& t.selected == (if q.textures_on && rt && f.max_per_stage_descriptor_storage_buffers
                >= 12 {
                "textures"@
            } else {
                "constant_material"@
            })
            &&& t.degraded == (q.textures_on && !(rt && f.max_per_stage_descriptor_storage_buffers
                >= 12))
        }),
{
    lemma_tier_literals_distinct();
}

/// The particles chain, stated with its literals: the main tier is
/// `gpu_particles` exactly when particles are requested and at least 21
/// storage buffers exist; with particles on, a ray query collision request
/// falls to `depth_buffer` (never to `off`) when a ray tracing feature is
/// missing; the collision tier is `off` only when the main tier is off or
/// `off` was requested; the decision is degraded exactly when the main tier
/// fell or the collision tier fell.
pub proof fn law_particles_ladders(f: CapabilityFacts, q: ParticlesRequest)
    ensures
        ({
            let d = spec_particles_decision(f, q);
            let on = q.particles_on && f.max_per_stage_descriptor_storage_buffers >= 21;
            let rt = f.ray_query && f.acceleration_structure;
            &&& d.requested == (if q.particles_on {
                "gpu_particles"@
            } else {
                "off"@
            })
            &&& d.selected == (if on {
                "gpu_particles"@
            } else {
                "off"@
            })
            &&& d.collision_requested == (if q.collision == ParticleCollisionTier::RayQuery {
                "ray_query"@
            } else if q.collision == ParticleCollisionTier::DepthBuffer {
                "depth_buffer"@
            } else {
                "off"@
            })
            &&& !on ==> d.collision_selected == "off"@
            &&& on && q.collision == ParticleCollisionTier::RayQuery ==> d.collision_selected == (
            if rt {
                "ray_query"@
            } else {
                "depth_buffer"@
            })
            &&& on && q.collision == ParticleCollisionTier::DepthBuffer ==> d.collision_selected
                == "depth_buffer"@
            &&& on && q.collision == ParticleCollisionTier::Off ==> d.collision_selected == "off"@
            &&& (d.collision_selected == "off"@) == (!on || q.collision
                == ParticleCollisionTier::Off)
            &&& d.degraded == ((q.particles_on && f.max_per_stage_descriptor_storage_buffers < 21)
                || (on && q.collision == ParticleCollisionTier::RayQuery && !rt))
        }),
{
    lemma_tier_literals_distinct();
}

/// The canonical text, stated with its literals: the header line, then for
/// each decision in order `chain|requested|selected|flag|reason` and a line
/// break, where the flag is `1` exactly when the decision is degraded and
/// `0` otherwise.
pub proof fn law_canonical_text_lines(ds: Seq<DecisionView>, d: DecisionView)
    ensures
        canonical_text(Seq::<DecisionView>::empty()) == "rurix.g31.chain-decisions.v1\n"@,
        canonical_text(ds.push(d)) == canonical_text(ds) + d.chain.spec_name() + "|"@
            + d.requested + "|"@ + d.selected + "|"@ + (if d.degraded {
            "1"@
        } else {
            "0"@
        }) + "|"@ + d.reason + "\n"@,
        d.degraded ==> "1"@ != "0"@,
{
    assert(canonical_lines(Seq::<DecisionView>::empty()) =~= Seq::<char>::empty());
    assert(canonical_text(Seq::<DecisionView>::empty()) =~= CANON_HEADER@);
    assert(ds.push(d).drop_last() =~= ds);
    assert(canonical_text(ds.push(d)) =~= canonical_text(ds) + canonical_line(d));
    reveal_strlit("1");
    reveal_strlit("0");
    assert("1"@[0] != "0"@[0]);
}

/// The particles canonical text, stated with its literals (flag `1` exactly
/// for a degraded decision).
pub proof fn law_particles_canonical_text(d: ParticlesDecisionView)
    ensures
        particles_canonical_text(d) == "rurix.g35.particles-chain-decision.v1\nparticles|"@
            + d.requested + "|"@ + d.selected + "|"@ + d.collision_requested + "|"@
            + d.collision_selected + "|"@ + (if d.degraded {
            "1"@
        } else {
            "0"@
        }) + "|"@ + d.reason + "\n"@,
{
}


/// The missing ray tracing features, named with their literals: ray query
/// first, then acceleration structure, each exactly when it is absent.
pub proof fn law_rt_missing_names(f: CapabilityFacts)
    ensures
        rt_missing_view(f) == (if !f.ray_query && !f.acceleration_structure {
            seq![
                "rt.ray_query(VK_KHR_ray_query feature 缺失)"@,
                "acceleration_structure(VK_KHR_acceleration_structure feature 缺失)"@,
            ]
        } else if !f.ray_query {
            seq!["rt.ray_query(VK_KHR_ray_query feature 缺失)"@]
        } else if !f.acceleration_structure {
            seq!["acceleration_structure(VK_KHR_acceleration_structure feature 缺失)"@]
        } else {
            Seq::<Seq<char>>::empty()
        }),
        texture_missing_view(f) == rt_missing_view(f) + (if f.max_per_stage_descriptor_storage_buffers
            < 12 {
            seq!["maxPerStageDescriptorStorageBuffers 不足 12(基座 7 + B4 五件 SSBO 侧表)"@]
        } else {
            Seq::<Seq<char>>::empty()
        }),
{
    assert(rt_missing_view(f) =~= (if !f.ray_query && !f.acceleration_structure {
        seq![RAY_QUERY_MISSING@, ACCEL_STRUCT_MISSING@]
    } else if !f.ray_query {
        seq![RAY_QUERY_MISSING@]
    } else if !f.acceleration_structure {
        seq![ACCEL_STRUCT_MISSING@]
    } else {
        Seq::<Seq<char>>::empty()
    }));
}

/// The reasons of the threshold chains, stated with their literals: a
/// request for the bottom tier says so; a kept tier names what was
/// satisfied; a fallen tier names what is missing (the missing features
/// joined with ` + `, or the memory and its declared threshold in decimal).
pub proof fn law_threshold_reasons(f: CapabilityFacts, q: FeatureRequest)
    ensures
        ({
            let rt = f.ray_query && f.acceleration_structure;
            let miss = joined(rt_missing_view(f), " + "@);
            let vram = decimal_text(f.effective_vram_bytes as nat);
            &&& spec_decision(f, q, ChainId::Hzb).reason == (if !q.hzb_on {
                "请求即 off(无降级)"@
            } else if rt {
                "rt.ray_query + acceleration_structure 双 feature 实测在位(BLAS 分解 + TLAS 相机射线面满足)"@
            } else {
                "HZB 车道需求缺失:"@ + miss
                    + " → off(高成本如实:无遮挡剔除,全量场景渲染成本照实承担,禁静默错图)"@
            })
            &&& spec_decision(f, q, ChainId::Gi).reason == (if !q.gi_on {
                "请求即 off(无降级)"@
            } else if rt {
                "rt.ray_query + acceleration_structure 双 feature 实测在位(GI kernel AccelStruct 形参面满足)"@
            } else {
                "GI kernel 需求缺失:"@ + miss + " → off(直接光现状语义,如实登记)"@
            })
            &&& spec_decision(f, q, ChainId::Restir).reason == (if !q.restir_high {
                "请求即 MegaLights 低档(无降级)"@
            } else if f.effective_vram_bytes >= 1073741824 {
                "显存 "@ + vram + " ≥ 声明阈值 "@ + decimal_text(1073741824)
                    + "(reservoir 双带 + offset 表 + 空间重用快照包络满足)"@
            } else {
                "显存 "@ + vram + " < 声明阈值 "@ + decimal_text(1073741824)
                    + "(reservoir 表面不足)→ MegaLights 低档(均匀选灯 RIS M=1 语义,如实登记)"@
            })
            &&& spec_decision(f, q, ChainId::FrameGen).reason == (if q.framegen
                == FrameGenTier::Off {
                "请求即 off(无降级)"@
            } else if f.effective_vram_bytes >= 536870912 {
                "显存 "@ + vram + " ≥ 声明阈值 "@ + decimal_text(536870912)
                    + "(prev/cur/mv/out 四缓冲包络满足;纯图像空间 compute kernel)"@
            } else {
                "显存 "@ + vram + " < 声明阈值 "@ + decimal_text(536870912)
                    + "(生成帧缓冲面不足)→ off(双口径登记面维持,presented=real,如实登记)"@
            })
            &&& spec_decision(f, q, ChainId::TextureSampling).reason == (if !q.textures_on {
                "请求即常量材质(textures off 现状语义,无降级)"@
            } else if rt && f.max_per_stage_descriptor_storage_buffers >= 12 {
                "rt 双 feature + SSBO 面 "@ + decimal_text(
                    f.max_per_stage_descriptor_storage_buffers as nat,
                ) + " ≥ 12 实测满足(逐三角贴图采样车道面满足)"@
            } else {
                "纹理采样车道需求缺失:"@ + joined(texture_missing_view(f), " + "@)
                    + " → 常量材质(textures off 车道现状语义,如实登记)"@
            })
        }),
{
}


/// The particles reason, stated with its literals: the main ladder's
/// criterion (storage buffers against 21, in decimal), then `;碰撞臂:`
/// and the collision ladder's criterion.
pub proof fn law_particles_reason(f: CapabilityFacts, q: ParticlesRequest)
    ensures
        ({
            let ssbo = decimal_text(f.max_per_stage_descriptor_storage_buffers as nat);
            let ok = f.max_per_stage_descriptor_storage_buffers >= 21;
            let main = if !q.particles_on {
                "请求即 off(无降级)"@
            } else if ok {
                "SSBO 面 "@ + ssbo + " ≥ "@ + decimal_text(21)
                    + "(g35_particle_compact 21 件绑定包络满足;compute 基线 = 设备面非空)"@
            } else {
                "粒子车道需求缺失:maxPerStageDescriptorStorageBuffers "@ + ssbo + " < "@
                    + decimal_text(21) + "(compact 21 件绑定面)→ off(无粒子面如实,禁静默错图)"@
            };
            let coll = if !(q.particles_on && ok) {
                "主链 off ⇒ 碰撞臂恒 off"@
            } else if q.collision == ParticleCollisionTier::RayQuery {
                if f.ray_query && f.acceleration_structure {
                    "rt 双 feature 实测在位(同帧 TLAS 碰撞面满足)"@
                } else {
                    "碰撞 ray_query 档需求缺失:"@ + joined(rt_missing_view(f), " + "@)
                        + " → depth_buffer(屏幕空间局限如实登记,显式降级禁静默换臂)"@
                }
            } else if q.collision == ParticleCollisionTier::DepthBuffer {
                "请求即 depth_buffer(无降级)"@
            } else {
                "请求即 off(无降级)"@
            };
            spec_particles_decision(f, q).reason == main + ";碰撞臂:"@ + coll
        }),
{
}


/// The lane literals of every tier and chain.
pub proof fn law_literals()
    ensures
        UpscaleBackend::DlssSr.spec_name() == "dlss_sr"@,
        UpscaleBackend::Fsr315.spec_name() == "fsr_3_1_5"@,
        UpscaleBackend::TsrDevice.spec_name() == "tsr_device"@,
        FrameGenTier::Off.spec_name() == "off"@,
        FrameGenTier::X2.spec_name() == "x2"@,
        FrameGenTier::X3.spec_name() == "x3"@,
        ChainId::Upscale.spec_name() == "upscale"@,
        ChainId::Hzb.spec_name() == "hzb"@,
        ChainId::Restir.spec_name() == "restir"@,
        ChainId::Gi.spec_name() == "gi"@,
        ChainId::FrameGen.spec_name() == "framegen"@,
        ChainId::TextureSampling.spec_name() == "texture_sampling"@,
        ParticleCollisionTier::RayQuery.spec_name() == "ray_query"@,
        ParticleCollisionTier::DepthBuffer.spec_name() == "depth_buffer"@,
        ParticleCollisionTier::Off.spec_name() == "off"@,
        all_chains() == seq![
            ChainId::Upscale,
            ChainId::Hzb,
            ChainId::Restir,
            ChainId::Gi,
            ChainId::FrameGen,
            ChainId::TextureSampling,
        ],
{
}

} // verus!
