//! Verified runtime for fixed-layout wire schemas.
//!
//! Logical values are read from and written to an existing fixed-layout byte
//! representation. Every access first checks the exact byte span it works on;
//! every constrained write preflights its complete source before the first
//! destination byte changes, and a rejected write leaves the destination as
//! it was.

mod access;
mod address;
mod array;
mod codec;
mod decode;
mod encode;
mod error;
mod handles;
mod layout;
mod mutation;
mod report;
mod strings;
mod tagged;
mod validation;
mod wire;

/// Implementation surface consumed by generated schema support.
pub mod __private;

/// The conformance model and the C++ rendering of its layout metrics.
pub mod conformance;

/// The rules a conformance model must follow.
pub mod frontend;

/// The C++ statements that stage case values.
pub mod staging;

/// The value syntax of conformance cases.
pub mod cases;

/// The attribute grammar of schema declarations.
pub mod attributes;

/// The declaration grammar of the schema corpus.
pub mod corpus;

/// The case-list grammar of the conformance suite.
pub mod case_list;

/// Schema traits implemented by generated types and the sealed scalar codecs.
pub mod schema;

/// Decisions around the foreign conformance entry points.
pub mod harness;

pub use access::SchemaBuffer;
pub use array::{ArrayMut, ArrayMutIter, ArrayRef, ArrayRefIter};
pub use codec::CodecError;
pub use decode::DecodeInput;
pub use encode::{AlignedBytes, Prezeroed};
pub use error::{
    chain_path_segments, chain_path_string, error_path_string, format_error_chain, format_schema_error,
    ErrorKind, ErrorLink, ErrorPathSegment, LayoutError, SchemaError,
};
pub use handles::{BytesMut, OptionMut, ScalarMut, StringMut};
pub use layout::{
    ArrayDescriptor, ArrayElementKind, ByteRange, Endian, EnumValueDescriptor,
    ExternalTagDescriptor, FieldDescriptor, FieldKind, IntegerRepr, LayoutDescriptor,
    LengthDescriptor, LengthRepr, PrimitiveKind, StringDescriptor, StringEncoding, TypeKind,
    VariantDescriptor,
};
pub use report::{checked_report_slots, FfiError, HarnessError, KeyValue, Report, Status};
pub use validation::{
    ValidationContext, ValidationFailure, ValidationOperation, ValidationResult,
};
