//! The three swapchain paths (SDR, scRGB, PQ-Rec.2020), their legal output
//! encodings, the runtime path switch with its evidence log, and the HDR
//! calibration registration.

use vstd::prelude::*;

use crate::display::view_transform::{DisplayError, OutputEncoding};

verus! {

/// The closed set of swapchain paths.
#[derive(Debug, Clone, Copy, PartialEq, Eq, Structural)]
pub enum SwapchainPath {
    /// SDR (Rec.709, BT.1886 gamma 2.4).
    Sdr,
    /// scRGB (Rec.709 linear, 1.0 = 80 nits).
    ScRgb,
    /// PQ-Rec.2020 (ST 2084 absolute luminance).
    PqRec2020,
}

impl SwapchainPath {
    pub open spec fn spec_str(self) -> Seq<char> {
        match self {
            SwapchainPath::Sdr => "sdr"@,
            SwapchainPath::ScRgb => "scrgb"@,
            SwapchainPath::PqRec2020 => "pq_rec2020"@,
        }
    }

    pub open spec fn spec_legal_encoding(self) -> OutputEncoding {
        match self {
            SwapchainPath::Sdr => OutputEncoding::SdrBt1886,
            SwapchainPath::ScRgb => OutputEncoding::ScRgbLinear,
            SwapchainPath::PqRec2020 => OutputEncoding::PqSt2084Rec2020,
        }
    }

    pub open spec fn spec_is_hdr(self) -> bool {
        self == SwapchainPath::PqRec2020
    }

    pub fn as_str(&self) -> (r: &'static str)
        ensures
            r@ == self.spec_str(),
    {
        match self {
            SwapchainPath::Sdr => "sdr",
            SwapchainPath::ScRgb => "scrgb",
            SwapchainPath::PqRec2020 => "pq_rec2020",
        }
    }

    /// The one legal encoding of the path.
    pub fn legal_encoding(&self) -> (r: OutputEncoding)
        ensures
            r == self.spec_legal_encoding(),
    {
        match self {
            SwapchainPath::Sdr => OutputEncoding::SdrBt1886,
            SwapchainPath::ScRgb => OutputEncoding::ScRgbLinear,
            SwapchainPath::PqRec2020 => OutputEncoding::PqSt2084Rec2020,
        }
    }

    /// Whether the path is HDR (PQ-Rec.2020 is the only one).
    pub fn is_hdr(&self) -> (r: bool)
        ensures
            r == self.spec_is_hdr(),
    {
        match self {
            SwapchainPath::PqRec2020 => true,
            _ => false,
        }
    }
}

/// Checks a path/encoding pair against the legal pairs: PQ on a non-HDR path
/// is `PqOutputOnNonHdrSwapchain`; any other mismatch is
/// `EncodingPathMismatch`.
pub fn validate_path_encoding(path: SwapchainPath, encoding: OutputEncoding) -> (r: Result<
    (),
    DisplayError,
>)
    ensures
        r is Ok <==> encoding == path.spec_legal_encoding(),
        encoding == OutputEncoding::PqSt2084Rec2020 && !path.spec_is_hdr() ==> (r matches Err(
            DisplayError::PqOutputOnNonHdrSwapchain { path: p },
        ) && p@ == path.spec_str()),
        !(encoding == OutputEncoding::PqSt2084Rec2020 && !path.spec_is_hdr()) && encoding
            != path.spec_legal_encoding() ==> (r matches Err(
            DisplayError::EncodingPathMismatch { path: p, encoding: e },
        ) && p@ == path.spec_str() && e@ == encoding.spec_str()),
{
    if encoding == OutputEncoding::PqSt2084Rec2020 && !path.is_hdr() {
        return Err(DisplayError::PqOutputOnNonHdrSwapchain { path: path.as_str() });
    }
    if path.legal_encoding() != encoding {
        return Err(
            DisplayError::EncodingPathMismatch { path: path.as_str(), encoding: encoding.as_str() },
        );
    }
    Ok(())
}

/// One path switch (evidence log entry).
#[derive(Debug, Clone, Copy, PartialEq, Eq, Structural)]
pub struct SwitchRecord {
    pub seq: u32,
    pub from: SwapchainPath,
    pub to: SwapchainPath,
}

/// The swapchain path state machine of the display pipeline: the current
/// path and the log of every switch made so far.
pub struct SwapchainState {
    path: SwapchainPath,
    switch_log: Vec<SwitchRecord>,
}

impl SwapchainState {
    pub closed spec fn spec_path(&self) -> SwapchainPath {
        self.path
    }

    pub closed spec fn spec_log(&self) -> Seq<SwitchRecord> {
        self.switch_log@
    }

    /// State on an initial path, with an empty log (every path has a legal
    /// encoding, so this always succeeds).
    pub fn assemble(path: SwapchainPath) -> (r: Result<Self, DisplayError>)
        ensures
            r is Ok,
            r matches Ok(s) ==> s.spec_path() == path && s.spec_log() == Seq::<SwitchRecord>::empty(),
    {
        validate_path_encoding(path, path.legal_encoding())?;
        Ok(SwapchainState { path, switch_log: Vec::new() })
    }

    /// Runtime switch: the log gains one record (its sequence number is the
    /// log's former length) and the path becomes `to`.
    pub fn switch_to(&mut self, to: SwapchainPath) -> (r: Result<(), DisplayError>)
        ensures
            r is Ok,
            final(self).spec_path() == to,
            final(self).spec_log() == old(self).spec_log().push(
                SwitchRecord { seq: old(self).spec_log().len() as u32, from: old(self).spec_path(), to },
            ),
    {
        validate_path_encoding(to, to.legal_encoding())?;
        let from = self.path;
        let seq = self.switch_log.len() as u32;
        self.switch_log.push(SwitchRecord { seq, from, to });
        self.path = to;
        Ok(())
    }

    pub fn path(&self) -> (r: SwapchainPath)
        ensures
            r == self.spec_path(),
    {
        self.path
    }

    pub fn switch_log(&self) -> (r: &[SwitchRecord])
        ensures
            r@ == self.spec_log(),
    {
        self.switch_log.as_slice()
    }
}

pub const CALIBRATION_NOT_TRIGGERED: &'static str = "缺 HDR 设备资产(条件未触发;登记 SKIP=not-triggered 不充绿,不反向否决 SDR 验证面)";
pub const HDR_QUERY_SURFACE: &'static str = "os_display_hdr_query unwired(D-130 C++ shim 0-byte;本机无 HDR 设备资产)";

/// HDR device calibration status.
#[derive(Debug, Clone, Copy, PartialEq, Eq)]
pub enum HdrCalibrationStatus {
    /// The condition never triggered; recorded, never counted as a pass.
    NotTriggered { reason: &'static str },
}

/// What the HDR capability query reports.
#[derive(Debug, Clone, Copy, PartialEq, Eq)]
pub struct HdrCapabilityReport {
    pub display_hdr_capable: bool,
    pub query_surface: &'static str,
    pub calibration: HdrCalibrationStatus,
}

/// HDR capability query: the OS display query is not wired and no HDR device
/// asset exists, so the display is reported not HDR-capable and calibration
/// is registered as not triggered.
pub fn query_hdr_capability() -> (r: HdrCapabilityReport)
    ensures
        !r.display_hdr_capable,
        r.query_surface@ == HDR_QUERY_SURFACE@,
        (r.calibration matches HdrCalibrationStatus::NotTriggered { reason } && reason@
            == CALIBRATION_NOT_TRIGGERED@),
{
    HdrCapabilityReport {
        display_hdr_capable: false,
        query_surface: HDR_QUERY_SURFACE,
        calibration: HdrCalibrationStatus::NotTriggered { reason: CALIBRATION_NOT_TRIGGERED },
    }
}

/// Consuming a calibration result fails closed: a calibration that never
/// triggered cannot pass for a performed one.
pub fn require_hdr_calibration(report: &HdrCapabilityReport) -> (r: Result<(), DisplayError>)
    ensures
        report.calibration matches HdrCalibrationStatus::NotTriggered { reason: why } ==> (r
            matches Err(DisplayError::HdrCalibrationNotTriggered { reason }) && reason == why),
{
    match report.calibration {
        HdrCalibrationStatus::NotTriggered { reason } => {
            Err(DisplayError::HdrCalibrationNotTriggered { reason })
        },
    }
}

/// The evidence log counts the switches: one record per switch, numbered
/// from zero, each leaving from the path that the previous one reached.
pub open spec fn log_chains_from(log: Seq<SwitchRecord>, start: SwapchainPath) -> bool {
    &&& forall|i: int| 0 <= i < log.len() ==> (#[trigger] log[i]).seq as int == i
    &&& log.len() > 0 ==> log[0].from == start
    &&& forall|i: int| 0 < i < log.len() ==> (#[trigger] log[i]).from == log[i - 1].to
}

/// A switch keeps the log chained: if the log chained from `start` up to the
/// current path, it still does after `switch_to`, and the current path is
/// the last record's target (sequence numbers are `u32`, so this holds for
/// the first `u32::MAX` switches).
#[verifier::spinoff_prover]
#[verifier::rlimit(30)]
pub proof fn law_switch_keeps_log_chained(
    before: Seq<SwitchRecord>,
    path: SwapchainPath,
    start: SwapchainPath,
    to: SwapchainPath,
)
    requires
        log_chains_from(before, start),
        before.len() < u32::MAX,
        path == (if before.len() == 0 {
            start
        } else {
            before.last().to
        }),
    ensures
        log_chains_from(switched(before, path, to), start),
        switched(before, path, to).last().to == to,
{
    let n = before.len();
    let rec = SwitchRecord { seq: n as u32, from: path, to };
    let after = before.push(rec);
    assert(after == switched(before, path, to));
    assert(after.len() == n + 1);
    assert(after[n as int] == rec);
    assert((n as u32) as int == n);
    assert forall|i: int| 0 <= i < after.len() implies (#[trigger] after[i]).seq as int == i by {
        if i < n {
            assert(after[i] == before[i]);
        }
    }
    assert forall|i: int| 0 < i < after.len() implies (#[trigger] after[i]).from == after[i
        - 1].to by {
        assert(after[i - 1] == before[i - 1]);
        if i < n {
            assert(after[i] == before[i]);
        }
    }
    if n > 0 {
        assert(after[0] == before[0]);
    }
}

/// The log after one more switch from `path` to `to`.
pub open spec fn switched(before: Seq<SwitchRecord>, path: SwapchainPath, to: SwapchainPath) -> Seq<
    SwitchRecord,
> {
    before.push(SwitchRecord { seq: before.len() as u32, from: path, to })
}

/// Path/encoding legality: exactly the three pairs (path, its legal
/// encoding) pass; PQ on a non-HDR path is always the PQ error.
pub proof fn law_only_legal_pairs_pass(path: SwapchainPath, encoding: OutputEncoding)
    ensures
        (encoding == path.spec_legal_encoding()) == (path == SwapchainPath::Sdr && encoding
            == OutputEncoding::SdrBt1886 || path == SwapchainPath::ScRgb && encoding
            == OutputEncoding::ScRgbLinear || path == SwapchainPath::PqRec2020 && encoding
            == OutputEncoding::PqSt2084Rec2020),
        encoding == OutputEncoding::PqSt2084Rec2020 ==> (encoding == path.spec_legal_encoding()
            <==> path.spec_is_hdr()),
{
}


/// The literals of the paths and encodings, and which encoding each path
/// carries.
pub proof fn law_path_literals()
    ensures
        SwapchainPath::Sdr.spec_str() == "sdr"@,
        SwapchainPath::ScRgb.spec_str() == "scrgb"@,
        SwapchainPath::PqRec2020.spec_str() == "pq_rec2020"@,
        OutputEncoding::SdrBt1886.spec_str() == "sdr_bt1886"@,
        OutputEncoding::ScRgbLinear.spec_str() == "scrgb_linear"@,
        OutputEncoding::PqSt2084Rec2020.spec_str() == "pq_st2084_rec2020"@,
        SwapchainPath::Sdr.spec_legal_encoding() == OutputEncoding::SdrBt1886,
        SwapchainPath::ScRgb.spec_legal_encoding() == OutputEncoding::ScRgbLinear,
        SwapchainPath::PqRec2020.spec_legal_encoding() == OutputEncoding::PqSt2084Rec2020,
        SwapchainPath::PqRec2020.spec_is_hdr(),
        !SwapchainPath::Sdr.spec_is_hdr(),
        !SwapchainPath::ScRgb.spec_is_hdr(),
{
}

} // verus!
