use zero_schema::{checked_report_slots, FfiError, HarnessError, Report, Status};

#[test]
fn malformed_reports_are_rejected() {
    let keys = [11, 12];
    assert!(Report::parse(7, &keys, &[1, 7, 2, 11, 1, 12, 2], 7).is_ok());
    assert_eq!(
        Report::parse(7, &keys, &[1, 7, 2, 11, 1, 11, 2], 7),
        Err(HarnessError::DuplicateReportKey { key: 11 })
    );
    assert_eq!(
        Report::parse(7, &keys, &[1, 7, 2, 12, 1, 11, 2], 7),
        Err(HarnessError::UnexpectedReportKey { index: 0, expected: 11, actual: 12 })
    );
    assert_eq!(
        Report::parse(7, &keys, &[1, 7, 2, 11, 1, 13, 2], 7),
        Err(HarnessError::UnexpectedReportKey { index: 1, expected: 12, actual: 13 })
    );
    assert_eq!(
        Report::parse(7, &keys, &[1, 7, 1, 11, 1], 5),
        Err(HarnessError::InvalidReportLength { expected: 7, actual: 5 })
    );
    assert_eq!(
        Report::parse(7, &keys, &[1, 7, 2, 11, 1, 12, 2, 99], 8),
        Err(HarnessError::InvalidReportLength { expected: 7, actual: 8 })
    );
    assert_eq!(
        Report::parse(7, &keys, &[1, 7, 3, 11, 1, 12, 2], 7),
        Err(HarnessError::UnexpectedReportPairCount { expected: 2, actual: 3 })
    );
}

#[test]
fn every_status_and_unknown_mapping_is_stable() {
    let statuses = [
        Status::Success,
        Status::NullWritten,
        Status::UnknownId,
        Status::InvalidInputLength,
        Status::NullInput,
        Status::NullOutput,
        Status::InsufficientCapacity,
        Status::CountOverflowOrInternal,
    ];
    for (raw, status) in statuses.into_iter().enumerate() {
        assert_eq!(Status::try_from(raw as u8), Ok(status));
        assert_eq!(status.code(), raw as u8);
    }
    assert_eq!(Status::try_from(8), Err(FfiError::UnknownStatus(8)));
    assert_eq!(Status::try_from(255), Err(FfiError::UnknownStatus(255)));
}

#[test]
fn report_pairs_and_framing_errors_follow_frame_order() {
    let keys = [11, 12];
    let report = Report::parse(7, &keys, &[1, 7, 2, 11, 5, 12, 6, 0xee], 7).unwrap();
    assert_eq!(report.pairs(), &[(11, 5), (12, 6)]);
    assert_eq!(report.into_pairs(), vec![(11, 5), (12, 6)]);
    assert_eq!(
        Report::parse(7, &keys, &[1, 7, 2], 7),
        Err(HarnessError::WrittenExceedsCapacity { written: 7, capacity: 3 })
    );
    assert_eq!(
        Report::parse(7, &keys, &[2, 7, 2, 11, 1, 12, 2], 7),
        Err(HarnessError::InvalidReportVersion(2))
    );
    assert_eq!(
        Report::parse(7, &keys, &[1, 1 << 40, 2, 11, 1, 12, 2], 7),
        Err(HarnessError::ReportCaseIdOutOfRange(1 << 40))
    );
    assert_eq!(
        Report::parse(7, &keys, &[1, 8, 2, 11, 1, 12, 2], 7),
        Err(HarnessError::UnexpectedReportCaseId { expected: 7, actual: 8 })
    );
    assert_eq!(
        Report::parse(7, &keys, &[1, 7, 2, 0, 1, 12, 2], 7),
        Err(HarnessError::ZeroReportKey { index: 0 })
    );
    assert_eq!(checked_report_slots(2), Ok(7));
    assert_eq!(
        checked_report_slots(usize::MAX),
        Err(HarnessError::ReportSlotOverflow { pair_count: usize::MAX })
    );
    assert_eq!(FfiError::from(Status::NullInput), FfiError::Status(Status::NullInput));
    assert_eq!(Status::NullOutput.description(), "null output pointer");
}

#[test]
fn failure_messages_are_stable() {
    assert_eq!(Status::UnknownId.description(), "unknown case ID");
    assert_eq!(
        FfiError::Status(Status::UnknownId).message(),
        "conformance FFI returned status 2 (unknown case ID)"
    );
    assert_eq!(FfiError::UnknownStatus(200).message(), "conformance FFI returned unknown status 200");
    assert_eq!(
        HarnessError::Ffi(FfiError::UnknownStatus(9)).message(),
        "conformance FFI returned unknown status 9"
    );
    assert_eq!(
        HarnessError::UnexpectedReportKey { index: 1, expected: 12, actual: 13 }.message(),
        "unexpected report key at pair 1: expected 12, got 13"
    );
    assert_eq!(
        HarnessError::ReportCaseIdOutOfRange(u64::MAX).message(),
        "report case ID 18446744073709551615 does not fit u32"
    );
    assert_eq!(
        HarnessError::ValueOutOfRange { what: "length", value: 7 }.message(),
        "length value 7 does not fit the report representation"
    );
    assert_eq!(HarnessError::InvalidData("bad frame").message(), "bad frame");
    assert_eq!(
        HarnessError::ReportSlotOverflow { pair_count: 3 }.message(),
        "report slot count overflows for 3 pairs"
    );
}

#[test]
fn only_interface_failures_have_a_source() {
    let inner = FfiError::Status(Status::NullInput);
    assert_eq!(HarnessError::Ffi(inner).source(), Some(inner));
    assert_eq!(HarnessError::ZeroReportKey { index: 0 }.source(), None);
}
