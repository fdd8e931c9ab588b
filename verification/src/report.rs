//! Fixed-slot key/value observation reports exchanged with a foreign producer.
//!
//! A report frame is `[version, case_id, pair_count, key0, value0, ...]` with
//! version `1`, one slot pair per observation, and nonzero, distinct keys in
//! the expected order.

use vstd::prelude::*;
use vstd::string::StringExecFns;

use crate::error::{decimal_string, decimal_text};

verus! {

/// One observed key and its value.
pub type KeyValue = (u64, u64);

/// The status codes returned by the foreign conformance entry points.
#[derive(Clone, Copy, Debug, PartialEq, Eq, Structural)]
pub enum Status {
    Success,
    NullWritten,
    UnknownId,
    InvalidInputLength,
    NullInput,
    NullOutput,
    InsufficientCapacity,
    CountOverflowOrInternal,
}

/// The raw byte of each status.
pub open spec fn status_code(status: Status) -> u8 {
    match status {
        Status::Success => 0,
        Status::NullWritten => 1,
        Status::UnknownId => 2,
        Status::InvalidInputLength => 3,
        Status::NullInput => 4,
        Status::NullOutput => 5,
        Status::InsufficientCapacity => 6,
        Status::CountOverflowOrInternal => 7,
    }
}

/// The status named by a raw byte, if any.
pub open spec fn status_from_code(raw: u8) -> Result<Status, FfiError> {
    if raw == 0 {
        Ok(Status::Success)
    } else if raw == 1 {
        Ok(Status::NullWritten)
    } else if raw == 2 {
        Ok(Status::UnknownId)
    } else if raw == 3 {
        Ok(Status::InvalidInputLength)
    } else if raw == 4 {
        Ok(Status::NullInput)
    } else if raw == 5 {
        Ok(Status::NullOutput)
    } else if raw == 6 {
        Ok(Status::InsufficientCapacity)
    } else if raw == 7 {
        Ok(Status::CountOverflowOrInternal)
    } else {
        Err(FfiError::UnknownStatus(raw))
    }
}

/// Every status survives conversion to its byte and back, and exactly the
/// bytes `0..=7` name a status.
pub proof fn lemma_status_code_roundtrip(status: Status, raw: u8)
    ensures
        status_from_code(status_code(status)) == Ok::<Status, FfiError>(status),
        status_from_code(raw) is Ok <==> raw <= 7,
        status_from_code(raw) matches Ok(s) ==> status_code(s) == raw,
{
}

/// The human-readable description of each status.
pub open spec fn status_text(status: Status) -> Seq<char> {
    match status {
        Status::Success => "success"@,
        Status::NullWritten => "null or misaligned written pointer"@,
        Status::UnknownId => "unknown case ID"@,
        Status::InvalidInputLength => "invalid input length"@,
        Status::NullInput => "null input pointer"@,
        Status::NullOutput => "null output pointer"@,
        Status::InsufficientCapacity => "insufficient output capacity"@,
        Status::CountOverflowOrInternal => "count overflow or internal error"@,
    }
}

impl Status {
    /// The raw byte of this status.
    pub fn code(&self) -> (r: u8)
        ensures
            r == status_code(*self),
    {
        match self {
            Status::Success => 0,
            Status::NullWritten => 1,
            Status::UnknownId => 2,
            Status::InvalidInputLength => 3,
            Status::NullInput => 4,
            Status::NullOutput => 5,
            Status::InsufficientCapacity => 6,
            Status::CountOverflowOrInternal => 7,
        }
    }

    /// The stable human-readable description of this status.
    pub fn description(&self) -> (r: &'static str)
        ensures
            r@ == status_text(*self),
    {
        match self {
            Status::Success => "success",
            Status::NullWritten => "null or misaligned written pointer",
            Status::UnknownId => "unknown case ID",
            Status::InvalidInputLength => "invalid input length",
            Status::NullInput => "null input pointer",
            Status::NullOutput => "null output pointer",
            Status::InsufficientCapacity => "insufficient output capacity",
            Status::CountOverflowOrInternal => "count overflow or internal error",
        }
    }
}

impl TryFrom<u8> for Status {
    type Error = FfiError;

    fn try_from(raw: u8) -> (r: Result<Self, Self::Error>) {
        match raw {
            0 => Ok(Status::Success),
            1 => Ok(Status::NullWritten),
            2 => Ok(Status::UnknownId),
            3 => Ok(Status::InvalidInputLength),
            4 => Ok(Status::NullInput),
            5 => Ok(Status::NullOutput),
            6 => Ok(Status::InsufficientCapacity),
            7 => Ok(Status::CountOverflowOrInternal),
            other => Err(FfiError::UnknownStatus(other)),
        }
    }
}

impl vstd::std_specs::convert::TryFromSpecImpl<u8> for Status {
    open spec fn obeys_try_from_spec() -> bool {
        true
    }

    open spec fn try_from_spec(raw: u8) -> Result<Self, FfiError> {
        status_from_code(raw)
    }
}

/// A failure reported through the foreign interface.
#[derive(Clone, Copy, Debug, PartialEq, Eq, Structural)]
pub enum FfiError {
    Status(Status),
    UnknownStatus(u8),
}

impl From<Status> for FfiError {
    fn from(status: Status) -> (r: Self) {
        FfiError::Status(status)
    }
}

impl vstd::std_specs::convert::FromSpecImpl<Status> for FfiError {
    open spec fn obeys_from_spec() -> bool {
        true
    }

    open spec fn from_spec(status: Status) -> Self {
        FfiError::Status(status)
    }
}

/// The text of a foreign-interface failure.
pub open spec fn ffi_error_text(error: FfiError) -> Seq<char> {
    match error {
        FfiError::Status(status) => "conformance FFI returned status "@ + decimal_text(
            status_code(status) as nat,
        ) + " ("@ + status_text(status) + ")"@,
        FfiError::UnknownStatus(raw) => "conformance FFI returned unknown status "@ + decimal_text(
            raw as nat,
        ),
    }
}

impl FfiError {
    /// Returns the stable human-readable message of this failure.
    pub fn message(&self) -> (r: String)
        ensures
            r@ == ffi_error_text(*self),
    {
        match *self {
            FfiError::Status(status) => {
                let mut text = String::from_str("conformance FFI returned status ");
                text.append(decimal_string(status.code() as u64).as_str());
                text.append(" (");
                text.append(status.description());
                text.append(")");
                text
            },
            FfiError::UnknownStatus(raw) => {
                let mut text = String::from_str("conformance FFI returned unknown status ");
                text.append(decimal_string(raw as u64).as_str());
                text
            },
        }
    }
}

/// A failure of the conformance harness.
#[derive(Clone, Debug, PartialEq, Eq)]
pub enum HarnessError {
    Ffi(FfiError),
    ReportSlotOverflow { pair_count: usize },
    WrittenExceedsCapacity { written: usize, capacity: usize },
    InvalidReportLength { expected: usize, actual: usize },
    InvalidReportVersion(u64),
    ReportCaseIdOutOfRange(u64),
    UnexpectedReportCaseId { expected: u32, actual: u32 },
    ReportPairCountOutOfRange(u64),
    UnexpectedReportPairCount { expected: usize, actual: usize },
    ZeroReportKey { index: usize },
    DuplicateReportKey { key: u64 },
    UnexpectedReportKey { index: usize, expected: u64, actual: u64 },
    ValueOutOfRange { what: &'static str, value: usize },
    InvalidByteLength { expected: usize, actual: usize },
    InvalidData(&'static str),
}

impl From<FfiError> for HarnessError {
    fn from(error: FfiError) -> (r: Self) {
        HarnessError::Ffi(error)
    }
}

impl vstd::std_specs::convert::FromSpecImpl<FfiError> for HarnessError {
    open spec fn obeys_from_spec() -> bool {
        true
    }

    open spec fn from_spec(error: FfiError) -> Self {
        HarnessError::Ffi(error)
    }
}

/// The text of a harness failure.
pub open spec fn harness_error_text(error: HarnessError) -> Seq<char> {
    match error {
        HarnessError::Ffi(error) => ffi_error_text(error),
        HarnessError::ReportSlotOverflow { pair_count } => "report slot count overflows for "@
            + decimal_text(pair_count as nat) + " pairs"@,
        HarnessError::WrittenExceedsCapacity { written, capacity } => "FFI reported "@ + decimal_text(
            written as nat,
        ) + " slots written into capacity "@ + decimal_text(capacity as nat),
        HarnessError::InvalidReportLength { expected, actual } => "invalid report length: expected "@
            + decimal_text(expected as nat) + " slots, got "@ + decimal_text(actual as nat),
        HarnessError::InvalidReportVersion(version) => "unsupported report version "@ + decimal_text(
            version as nat,
        ),
        HarnessError::ReportCaseIdOutOfRange(value) => "report case ID "@ + decimal_text(value as nat)
            + " does not fit u32"@,
        HarnessError::UnexpectedReportCaseId { expected, actual } =>
            "unexpected report case ID: expected "@ + decimal_text(expected as nat) + ", got "@
                + decimal_text(actual as nat),
        HarnessError::ReportPairCountOutOfRange(value) => "report pair count "@ + decimal_text(
            value as nat,
        ) + " does not fit usize"@,
        HarnessError::UnexpectedReportPairCount { expected, actual } =>
            "unexpected report pair count: expected "@ + decimal_text(expected as nat) + ", got "@
                + decimal_text(actual as nat),
        HarnessError::ZeroReportKey { index } => "report key at pair "@ + decimal_text(index as nat)
            + " is zero"@,
        HarnessError::DuplicateReportKey { key } => "duplicate report key "@ + decimal_text(key as nat),
        HarnessError::UnexpectedReportKey { index, expected, actual } =>
            "unexpected report key at pair "@ + decimal_text(index as nat) + ": expected "@
                + decimal_text(expected as nat) + ", got "@ + decimal_text(actual as nat),
        HarnessError::ValueOutOfRange { what, value } => what@ + " value "@ + decimal_text(
            value as nat,
        ) + " does not fit the report representation"@,
        HarnessError::InvalidByteLength { expected, actual } => "invalid byte length: expected "@
            + decimal_text(expected as nat) + ", got "@ + decimal_text(actual as nat),
        HarnessError::InvalidData(message) => message@,
    }
}

impl HarnessError {
    /// The foreign-interface failure underneath this one, if any.
    pub fn source(&self) -> (r: Option<FfiError>)
        ensures
            match *self {
                HarnessError::Ffi(error) => r == Some(error),
                _ => r is None,
            },
    {
        match *self {
            HarnessError::Ffi(error) => Some(error),
            _ => None,
        }
    }

    /// Returns the stable human-readable message of this failure.
    pub fn message(&self) -> (r: String)
        ensures
            r@ == harness_error_text(*self),
    {
        match *self {
            HarnessError::Ffi(error) => error.message(),
            HarnessError::ReportSlotOverflow { pair_count } => {
                let mut text = String::from_str("report slot count overflows for ");
                text.append(decimal_string(pair_count as u64).as_str());
                text.append(" pairs");
                text
            },
            HarnessError::WrittenExceedsCapacity { written, capacity } => {
                let mut text = String::from_str("FFI reported ");
                text.append(decimal_string(written as u64).as_str());
                text.append(" slots written into capacity ");
                text.append(decimal_string(capacity as u64).as_str());
                text
            },
            HarnessError::InvalidReportLength { expected, actual } => {
                let mut text = String::from_str("invalid report length: expected ");
                text.append(decimal_string(expected as u64).as_str());
                text.append(" slots, got ");
                text.append(decimal_string(actual as u64).as_str());
                text
            },
            HarnessError::InvalidReportVersion(version) => {
                let mut text = String::from_str("unsupported report version ");
                text.append(decimal_string(version).as_str());
                text
            },
            HarnessError::ReportCaseIdOutOfRange(value) => {
                let mut text = String::from_str("report case ID ");
                text.append(decimal_string(value).as_str());
                text.append(" does not fit u32");
                text
            },
            HarnessError::UnexpectedReportCaseId { expected, actual } => {
                let mut text = String::from_str("unexpected report case ID: expected ");
                text.append(decimal_string(expected as u64).as_str());
                text.append(", got ");
                text.append(decimal_string(actual as u64).as_str());
                text
            },
            HarnessError::ReportPairCountOutOfRange(value) => {
                let mut text = String::from_str("report pair count ");
                text.append(decimal_string(value).as_str());
                text.append(" does not fit usize");
                text
            },
            HarnessError::UnexpectedReportPairCount { expected, actual } => {
                let mut text = String::from_str("unexpected report pair count: expected ");
                text.append(decimal_string(expected as u64).as_str());
                text.append(", got ");
                text.append(decimal_string(actual as u64).as_str());
                text
            },
            HarnessError::ZeroReportKey { index } => {
                let mut text = String::from_str("report key at pair ");
                text.append(decimal_string(index as u64).as_str());
                text.append(" is zero");
                text
            },
            HarnessError::DuplicateReportKey { key } => {
                let mut text = String::from_str("duplicate report key ");
                text.append(decimal_string(key).as_str());
                text
            },
            HarnessError::UnexpectedReportKey { index, expected, actual } => {
                let mut text = String::from_str("unexpected report key at pair ");
                text.append(decimal_string(index as u64).as_str());
                text.append(": expected ");
                text.append(decimal_string(expected).as_str());
                text.append(", got ");
                text.append(decimal_string(actual).as_str());
                text
            },
            HarnessError::ValueOutOfRange { what, value } => {
                let mut text = String::from_str(what);
                text.append(" value ");
                text.append(decimal_string(value as u64).as_str());
                text.append(" does not fit the report representation");
                text
            },
            HarnessError::InvalidByteLength { expected, actual } => {
                let mut text = String::from_str("invalid byte length: expected ");
                text.append(decimal_string(expected as u64).as_str());
                text.append(", got ");
                text.append(decimal_string(actual as u64).as_str());
                text
            },
            HarnessError::InvalidData(message) => String::from_str(message),
        }
    }
}

/// The number of slots of a report with `pair_count` pairs, or overflow.
pub open spec fn report_slots_spec(pair_count: usize) -> Result<usize, HarnessError> {
    if pair_count * 2 + 3 > usize::MAX {
        Err(HarnessError::ReportSlotOverflow { pair_count })
    } else {
        Ok((pair_count * 2 + 3) as usize)
    }
}

pub fn checked_report_slots(pair_count: usize) -> (r: Result<usize, HarnessError>)
    ensures
        r == report_slots_spec(pair_count),
{
    match pair_count.checked_mul(2) {
        Some(slots) => match slots.checked_add(3) {
            Some(total) => Ok(total),
            None => Err(HarnessError::ReportSlotOverflow { pair_count }),
        },
        None => Err(HarnessError::ReportSlotOverflow { pair_count }),
    }
}

/// The key of pair `i` in a frame.
pub open spec fn frame_key(frame: Seq<u64>, i: int) -> u64 {
    frame[3 + 2 * i]
}

/// The value of pair `i` in a frame.
pub open spec fn frame_value(frame: Seq<u64>, i: int) -> u64 {
    frame[4 + 2 * i]
}

/// The check of pair `i` against the expected keys, given that the earlier
/// pairs passed: a zero key, then a repeated key, then a key other than the
/// expected one is rejected.
pub open spec fn pair_check(
    expected: Seq<u64>,
    frame: Seq<u64>,
    i: int,
) -> Result<(), HarnessError> {
    let key = frame_key(frame, i);
    if key == 0 {
        Err(HarnessError::ZeroReportKey { index: i as usize })
    } else if exists|j: int| 0 <= j < i && frame_key(frame, j) == key {
        Err(HarnessError::DuplicateReportKey { key })
    } else if key != expected[i] {
        Err(HarnessError::UnexpectedReportKey { index: i as usize, expected: expected[i], actual: key })
    } else {
        Ok(())
    }
}

/// The first failing pair check among pairs `0..n`, in increasing order.
pub open spec fn pairs_check(
    expected: Seq<u64>,
    frame: Seq<u64>,
    n: int,
) -> Result<(), HarnessError>
    decreases n,
{
    if n <= 0 {
        Ok(())
    } else {
        match pairs_check(expected, frame, n - 1) {
            Err(e) => Err(e),
            Ok(()) => pair_check(expected, frame, n - 1),
        }
    }
}

/// Once a pair check fails, every longer scan reports that same failure.
proof fn lemma_pairs_check_failure_persists(expected: Seq<u64>, frame: Seq<u64>, i: int, n: int)
    requires
        0 <= i < n,
        pairs_check(expected, frame, i) is Ok,
        pair_check(expected, frame, i) is Err,
    ensures
        pairs_check(expected, frame, n) == pair_check(expected, frame, i),
    decreases n - i,
{
    if n > i + 1 {
        lemma_pairs_check_failure_persists(expected, frame, i, n - 1);
    }
}

/// The pairs of a frame with `n` pairs.
pub open spec fn frame_pairs(frame: Seq<u64>, n: nat) -> Seq<KeyValue> {
    Seq::new(n, |i: int| (frame_key(frame, i), frame_value(frame, i)))
}

/// What parsing `slots[..written]` as the report of `expected_case_id` with
/// `expected_keys` gives: every framing check in order, then the pair checks.
pub open spec fn parse_spec(
    expected_case_id: u32,
    expected_keys: Seq<u64>,
    slots: Seq<u64>,
    written: usize,
) -> Result<Seq<KeyValue>, HarnessError> {
    if written > slots.len() {
        Err(HarnessError::WrittenExceedsCapacity { written, capacity: slots.len() as usize })
    } else {
        match report_slots_spec(expected_keys.len() as usize) {
            Err(e) => Err(e),
            Ok(expected_len) => if written != expected_len {
                Err(HarnessError::InvalidReportLength { expected: expected_len, actual: written })
            } else {
                let frame = slots.subrange(0, written as int);
                if frame[0] != 1 {
                    Err(HarnessError::InvalidReportVersion(frame[0]))
                } else if frame[1] > u32::MAX {
                    Err(HarnessError::ReportCaseIdOutOfRange(frame[1]))
                } else if frame[1] != expected_case_id {
                    Err(
                        HarnessError::UnexpectedReportCaseId {
                            expected: expected_case_id,
                            actual: frame[1] as u32,
                        },
                    )
                } else if frame[2] > usize::MAX {
                    Err(HarnessError::ReportPairCountOutOfRange(frame[2]))
                } else if frame[2] != expected_keys.len() {
                    Err(
                        HarnessError::UnexpectedReportPairCount {
                            expected: expected_keys.len() as usize,
                            actual: frame[2] as usize,
                        },
                    )
                } else {
                    match pairs_check(expected_keys, frame, expected_keys.len() as int) {
                        Err(e) => Err(e),
                        Ok(()) => Ok(frame_pairs(frame, expected_keys.len())),
                    }
                }
            },
        }
    }
}

/// A validated report: its pairs, in frame order.
#[derive(Clone, Debug, PartialEq, Eq)]
pub struct Report {
    pairs: Vec<KeyValue>,
}

impl View for Report {
    type V = Seq<KeyValue>;

    closed spec fn view(&self) -> Seq<KeyValue> {
        self.pairs@
    }
}

impl Report {
    /// Parses the first `written` slots of `slots` as the report of
    /// `expected_case_id` whose keys must be exactly `expected_keys`.
    pub fn parse(expected_case_id: u32, expected_keys: &[u64], slots: &[u64], written: usize) -> (r:
        Result<Self, HarnessError>)
        ensures
            match parse_spec(expected_case_id, expected_keys@, slots@, written) {
                Ok(pairs) => r matches Ok(report) && report@ == pairs,
                Err(e) => r == Err::<Report, HarnessError>(e),
            },
    {
        if written > slots.len() {
            return Err(HarnessError::WrittenExceedsCapacity { written, capacity: slots.len() });
        }
        let expected_len = match checked_report_slots(expected_keys.len()) {
            Ok(n) => n,
            Err(e) => return Err(e),
        };
        if written != expected_len {
            return Err(HarnessError::InvalidReportLength { expected: expected_len, actual: written });
        }
        let ghost frame = slots@.subrange(0, written as int);
        if slots[0] != 1 {
            return Err(HarnessError::InvalidReportVersion(slots[0]));
        }
        if slots[1] > 0xffff_ffffu64 {
            return Err(HarnessError::ReportCaseIdOutOfRange(slots[1]));
        }
        let actual_case_id = slots[1] as u32;
        if actual_case_id != expected_case_id {
            return Err(
                HarnessError::UnexpectedReportCaseId {
                    expected: expected_case_id,
                    actual: actual_case_id,
                },
            );
        }
        if slots[2] > usize::MAX as u64 {
            return Err(HarnessError::ReportPairCountOutOfRange(slots[2]));
        }
        let actual_count = slots[2] as usize;
        if actual_count != expected_keys.len() {
            return Err(
                HarnessError::UnexpectedReportPairCount {
                    expected: expected_keys.len(),
                    actual: actual_count,
                },
            );
        }
        // Rechecking the count-derived frame size keeps the parser independent
        // of the expected-key length check above and rejects trailing slots.
        let actual_len = match checked_report_slots(actual_count) {
            Ok(n) => n,
            Err(e) => return Err(e),
        };
        if actual_len != written {
            return Err(HarnessError::InvalidReportLength { expected: actual_len, actual: written });
        }
        let ghost outcome = parse_spec(expected_case_id, expected_keys@, slots@, written);
        assert(outcome == match pairs_check(expected_keys@, frame, actual_count as int) {
            Err(e) => Err(e),
            Ok(()) => Ok(frame_pairs(frame, actual_count as nat)),
        });
        let mut pairs: Vec<KeyValue> = Vec::new();
        let mut index: usize = 0;
        while index < actual_count
            invariant
                actual_count == expected_keys@.len(),
                written == actual_count * 2 + 3,
                written <= slots@.len(),
                frame == slots@.subrange(0, written as int),
                index <= actual_count,
                pairs_check(expected_keys@, frame, index as int) is Ok,
                pairs@ == frame_pairs(frame, index as nat),
                outcome == parse_spec(expected_case_id, expected_keys@, slots@, written),
                outcome == match pairs_check(expected_keys@, frame, actual_count as int) {
                    Err(e) => Err(e),
                    Ok(()) => Ok(frame_pairs(frame, actual_count as nat)),
                },
            decreases actual_count - index,
        {
            let key = slots[3 + 2 * index];
            let value = slots[4 + 2 * index];
            assert(key == frame_key(frame, index as int));
            if key == 0 {
                proof {
                    lemma_pairs_check_failure_persists(
                        expected_keys@,
                        frame,
                        index as int,
                        actual_count as int,
                    );
                }
                return Err(HarnessError::ZeroReportKey { index });
            }
            let mut seen: usize = 0;
            while seen < index
                invariant
                    seen <= index,
                    index < actual_count,
                    pairs@ == frame_pairs(frame, index as nat),
                    forall|j: int| 0 <= j < seen ==> frame_key(frame, j) != key,
                    key != 0,
                    key == frame_key(frame, index as int),
                    pairs_check(expected_keys@, frame, index as int) is Ok,
                    outcome == parse_spec(expected_case_id, expected_keys@, slots@, written),
                    outcome == match pairs_check(expected_keys@, frame, actual_count as int) {
                        Err(e) => Err(e),
                        Ok(()) => Ok(frame_pairs(frame, actual_count as nat)),
                    },
                decreases index - seen,
            {
                if pairs[seen].0 == key {
                    assert(frame_key(frame, seen as int) == key);
                    proof {
                        lemma_pairs_check_failure_persists(
                            expected_keys@,
                            frame,
                            index as int,
                            actual_count as int,
                        );
                    }
                    return Err(HarnessError::DuplicateReportKey { key });
                }
                seen += 1;
            }
            let expected = expected_keys[index];
            if key != expected {
                proof {
                    lemma_pairs_check_failure_persists(
                        expected_keys@,
                        frame,
                        index as int,
                        actual_count as int,
                    );
                }
                return Err(HarnessError::UnexpectedReportKey { index, expected, actual: key });
            }
            assert(pair_check(expected_keys@, frame, index as int) is Ok);
            pairs.push((key, value));
            assert(pairs@ =~= frame_pairs(frame, (index + 1) as nat));
            index += 1;
        }
        Ok(Report { pairs })
    }

    /// The validated pairs, in frame order.
    pub fn pairs(&self) -> (r: &[KeyValue])
        ensures
            r@ == self@,
    {
        self.pairs.as_slice()
    }

    /// Consumes the report and returns its pairs.
    pub fn into_pairs(self) -> (r: Vec<KeyValue>)
        ensures
            r@ == self@,
    {
        self.pairs
    }
}

} // verus!
