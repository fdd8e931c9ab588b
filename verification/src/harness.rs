//! Decisions around the foreign conformance entry points.
//!
//! The foreign calls themselves are made outside this library; these
//! functions decide what a raw status and a reported slot count mean, and
//! which capacity a call must be given.

use vstd::prelude::*;

use crate::report::{status_from_code, FfiError, Status};

verus! {

/// One registered conformance case: its identity and the keys its layout and
/// observation reports carry.
#[derive(Clone, Copy, Debug, PartialEq, Eq)]
pub struct BuildCaseContract {
    pub case_id: u32,
    pub root_id: &'static str,
    pub layout_keys: &'static [u64],
    pub observation_keys: &'static [u64],
}

/// The outcome of a raw status byte: success, a known failure status, or an
/// unknown byte.
pub open spec fn status_outcome(raw: u8) -> Result<(), FfiError> {
    match status_from_code(raw) {
        Ok(Status::Success) => Ok(()),
        Ok(status) => Err(FfiError::Status(status)),
        Err(error) => Err(error),
    }
}

/// Interprets a raw status byte returned by a foreign entry point.
pub fn status(raw: u8) -> (r: Result<(), FfiError>)
    ensures
        r == status_outcome(raw),
{
    match Status::try_from(raw) {
        Ok(Status::Success) => Ok(()),
        Ok(other) => Err(FfiError::Status(other)),
        Err(error) => Err(error),
    }
}

/// Finds the first registered case with `case_id`; an unregistered case is an
/// unknown-ID failure.
pub fn contract(cases: &[BuildCaseContract], case_id: u32) -> (r: Result<&BuildCaseContract, FfiError>)
    ensures
        r is Err <==> forall|i: int| 0 <= i < cases@.len() ==> cases@[i].case_id != case_id,
        r is Err ==> r == Err::<&BuildCaseContract, FfiError>(FfiError::Status(Status::UnknownId)),
        r matches Ok(case) ==> exists|i: int|
            0 <= i < cases@.len() && *case == cases@[i] && cases@[i].case_id == case_id && forall|j: int|
                0 <= j < i ==> cases@[j].case_id != case_id,
{
    let mut i: usize = 0;
    while i < cases.len()
        invariant
            i <= cases@.len(),
            forall|j: int| 0 <= j < i ==> cases@[j].case_id != case_id,
        decreases cases@.len() - i,
    {
        if cases[i].case_id == case_id {
            return Ok(&cases[i]);
        }
        i += 1;
    }
    Err(FfiError::Status(Status::UnknownId))
}

/// The slot count of a report frame with `key_count` pairs: two slots per
/// pair after three header slots. An overflowing count is an internal failure.
pub open spec fn report_capacity_spec(key_count: usize) -> Result<usize, FfiError> {
    if key_count * 2 + 3 > usize::MAX {
        Err(FfiError::Status(Status::CountOverflowOrInternal))
    } else {
        Ok((key_count * 2 + 3) as usize)
    }
}

/// Computes the slot capacity a report with `key_count` pairs needs.
pub fn report_capacity(key_count: usize) -> (r: Result<usize, FfiError>)
    ensures
        r == report_capacity_spec(key_count),
{
    match key_count.checked_mul(2) {
        Some(pairs) => match pairs.checked_add(3) {
            Some(slots) => Ok(slots),
            None => Err(FfiError::Status(Status::CountOverflowOrInternal)),
        },
        None => Err(FfiError::Status(Status::CountOverflowOrInternal)),
    }
}

/// The outcome of a fixture write: its status first, then a written length
/// beyond the supplied capacity is an internal failure.
pub fn written_fixture_len(raw: u8, written: usize, capacity: usize) -> (r: Result<usize, FfiError>)
    ensures
        r == match status_outcome(raw) {
            Err(e) => Err(e),
            Ok(()) => if written > capacity {
                Err(FfiError::Status(Status::CountOverflowOrInternal))
            } else {
                Ok(written)
            },
        },
{
    match status(raw) {
        Ok(()) => {},
        Err(e) => return Err(e),
    }
    if written > capacity {
        return Err(FfiError::Status(Status::CountOverflowOrInternal));
    }
    Ok(written)
}

/// The slots an inspection with `key_count` observation pairs needs, checked
/// against the caller's output length before any foreign call.
pub fn inspect_capacity(key_count: usize, output_len: usize) -> (r: Result<usize, FfiError>)
    ensures
        r == match report_capacity_spec(key_count) {
            Err(e) => Err(e),
            Ok(required) => if output_len < required {
                Err(FfiError::Status(Status::InsufficientCapacity))
            } else {
                Ok(required)
            },
        },
{
    let required = match report_capacity(key_count) {
        Ok(required) => required,
        Err(e) => return Err(e),
    };
    if output_len < required {
        return Err(FfiError::Status(Status::InsufficientCapacity));
    }
    Ok(required)
}

/// The outcome of an inspection: its status first, then exactly `required`
/// slots must have been written within the output.
pub fn inspected_slots(raw: u8, written: usize, required: usize, output_len: usize) -> (r: Result<
    usize,
    FfiError,
>)
    ensures
        r == match status_outcome(raw) {
            Err(e) => Err(e),
            Ok(()) => if written != required || written > output_len {
                Err(FfiError::Status(Status::CountOverflowOrInternal))
            } else {
                Ok(written)
            },
        },
{
    match status(raw) {
        Ok(()) => {},
        Err(e) => return Err(e),
    }
    if written != required || written > output_len {
        return Err(FfiError::Status(Status::CountOverflowOrInternal));
    }
    Ok(written)
}

/// A fixture of an expected length must be written exactly.
pub fn exact_fixture_len(written: usize, expected_len: usize) -> (r: Result<(), FfiError>)
    ensures
        r == if written != expected_len {
            Err(FfiError::Status(Status::CountOverflowOrInternal))
        } else {
            Ok(())
        },
{
    if written != expected_len {
        return Err(FfiError::Status(Status::CountOverflowOrInternal));
    }
    Ok(())
}

} // verus!
