use rurix_render::display::swapchain::{
    query_hdr_capability, require_hdr_calibration, validate_path_encoding, HdrCalibrationStatus,
    SwapchainPath, SwapchainState,
};
use rurix_render::display::view_transform::{DisplayError, OutputEncoding};

#[test]
fn path_encoding_legality_closed_set() {
    // 合法三组合。
    for p in [SwapchainPath::Sdr, SwapchainPath::ScRgb, SwapchainPath::PqRec2020] {
        assert!(validate_path_encoding(p, p.legal_encoding()).is_ok());
    }
    // 非 HDR 携带 PQ → 专属 typed Err(RED 锚)。
    assert!(matches!(
        validate_path_encoding(SwapchainPath::Sdr, OutputEncoding::PqSt2084Rec2020),
        Err(DisplayError::PqOutputOnNonHdrSwapchain { path: "sdr" })
    ));
    assert!(matches!(
        validate_path_encoding(SwapchainPath::ScRgb, OutputEncoding::PqSt2084Rec2020),
        Err(DisplayError::PqOutputOnNonHdrSwapchain { path: "scrgb" })
    ));
    // 其余错配 → mismatch。
    assert!(matches!(
        validate_path_encoding(SwapchainPath::Sdr, OutputEncoding::ScRgbLinear),
        Err(DisplayError::EncodingPathMismatch { .. })
    ));
    assert!(matches!(
        validate_path_encoding(SwapchainPath::PqRec2020, OutputEncoding::SdrBt1886),
        Err(DisplayError::EncodingPathMismatch { .. })
    ));
}

#[test]
fn hdr_calibration_not_triggered_registered() {
    let report = query_hdr_capability();
    assert!(!report.display_hdr_capable);
    match report.calibration {
        HdrCalibrationStatus::NotTriggered { reason } => assert!(reason.contains("not-triggered")),
    }
    // 强制消费 → fail-closed typed Err。
    assert!(matches!(
        require_hdr_calibration(&report),
        Err(DisplayError::HdrCalibrationNotTriggered { .. })
    ));
}

#[test]
fn switch_log_records_every_switch_in_order() {
    let mut s = SwapchainState::assemble(SwapchainPath::Sdr).unwrap();
    assert_eq!(s.path(), SwapchainPath::Sdr);
    assert!(s.switch_log().is_empty());
    s.switch_to(SwapchainPath::ScRgb).unwrap();
    s.switch_to(SwapchainPath::PqRec2020).unwrap();
    s.switch_to(SwapchainPath::Sdr).unwrap();
    assert_eq!(s.path(), SwapchainPath::Sdr);
    let log = s.switch_log();
    assert_eq!(log.len(), 3);
    assert_eq!((log[0].seq, log[0].from, log[0].to), (0, SwapchainPath::Sdr, SwapchainPath::ScRgb));
    assert_eq!((log[1].seq, log[1].from, log[1].to), (1, SwapchainPath::ScRgb, SwapchainPath::PqRec2020));
    assert_eq!((log[2].seq, log[2].from, log[2].to), (2, SwapchainPath::PqRec2020, SwapchainPath::Sdr));
}

#[test]
fn mismatch_error_names_path_and_encoding() {
    match validate_path_encoding(SwapchainPath::PqRec2020, OutputEncoding::ScRgbLinear) {
        Err(DisplayError::EncodingPathMismatch { path, encoding }) => {
            assert_eq!(path, "pq_rec2020");
            assert_eq!(encoding, "scrgb_linear");
        }
        other => panic!("unexpected {other:?}"),
    }
    assert!(SwapchainPath::PqRec2020.is_hdr());
    assert!(!SwapchainPath::Sdr.is_hdr());
    assert_eq!(OutputEncoding::PqSt2084Rec2020.as_str(), "pq_st2084_rec2020");
}
