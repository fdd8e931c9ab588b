use zero_schema::harness::{
    contract, exact_fixture_len, inspect_capacity, inspected_slots, report_capacity, status,
    written_fixture_len, BuildCaseContract,
};
use zero_schema::{FfiError, Status};

const CASES: &[BuildCaseContract] = &[
    BuildCaseContract { case_id: 3, root_id: "a", layout_keys: &[1], observation_keys: &[2, 3] },
    BuildCaseContract { case_id: 9, root_id: "b", layout_keys: &[], observation_keys: &[] },
    BuildCaseContract { case_id: 3, root_id: "c", layout_keys: &[], observation_keys: &[] },
];

#[test]
fn raw_statuses_map_to_outcomes() {
    assert_eq!(status(0), Ok(()));
    assert_eq!(status(2), Err(FfiError::Status(Status::UnknownId)));
    assert_eq!(status(8), Err(FfiError::UnknownStatus(8)));
}

#[test]
fn contracts_are_found_by_first_matching_id() {
    assert_eq!(contract(CASES, 3).unwrap().root_id, "a");
    assert_eq!(contract(CASES, 9).unwrap().root_id, "b");
    assert_eq!(contract(CASES, 4), Err(FfiError::Status(Status::UnknownId)));
}

#[test]
fn report_capacities_are_checked() {
    assert_eq!(report_capacity(2), Ok(7));
    assert_eq!(report_capacity(usize::MAX / 2), Err(FfiError::Status(Status::CountOverflowOrInternal)));
    assert_eq!(inspect_capacity(2, 7), Ok(7));
    assert_eq!(inspect_capacity(2, 6), Err(FfiError::Status(Status::InsufficientCapacity)));
}

#[test]
fn reported_lengths_are_checked_after_the_status() {
    assert_eq!(written_fixture_len(0, 4, 4), Ok(4));
    assert_eq!(written_fixture_len(0, 5, 4), Err(FfiError::Status(Status::CountOverflowOrInternal)));
    assert_eq!(written_fixture_len(6, 5, 4), Err(FfiError::Status(Status::InsufficientCapacity)));
    assert_eq!(inspected_slots(0, 7, 7, 8), Ok(7));
    assert_eq!(inspected_slots(0, 6, 7, 8), Err(FfiError::Status(Status::CountOverflowOrInternal)));
    assert_eq!(inspected_slots(1, 7, 7, 8), Err(FfiError::Status(Status::NullWritten)));
    assert_eq!(exact_fixture_len(3, 3), Ok(()));
    assert_eq!(exact_fixture_len(2, 3), Err(FfiError::Status(Status::CountOverflowOrInternal)));
}
