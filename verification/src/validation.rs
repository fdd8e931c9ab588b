//! Custom validation failures and the context they are reported in.

use vstd::prelude::*;
use vstd::string::StringExecFns;

use crate::error::{decimal_string, decimal_text};
use crate::layout::LayoutDescriptor;

verus! {

/// A stable custom validation failure: a numeric code and a static message.
#[derive(Clone, Copy, Debug, PartialEq, Eq)]
pub struct ValidationFailure {
    code: u32,
    message: &'static str,
}

/// The outcome of a custom validation.
pub type ValidationResult = Result<(), ValidationFailure>;

impl ValidationFailure {
    pub closed spec fn spec_code(&self) -> u32 {
        self.code
    }

    pub closed spec fn spec_message(&self) -> &'static str {
        self.message
    }

    pub fn new(code: u32, message: &'static str) -> (r: Self)
        ensures
            r.spec_code() == code,
            r.spec_message() == message,
    {
        ValidationFailure { code, message }
    }

    pub fn code(&self) -> (r: u32)
        ensures
            r == self.spec_code(),
    {
        self.code
    }

    pub fn message(&self) -> (r: &'static str)
        ensures
            r == self.spec_message(),
    {
        self.message
    }

    /// The stable display text: the message, then the code in parentheses.
    pub fn describe(&self) -> (r: String)
        ensures
            r@ == self.spec_message()@ + " (validation code "@ + decimal_text(self.spec_code() as nat)
                + ")"@,
    {
        let mut text = String::from_str(self.message);
        text.append(" (validation code ");
        text.append(decimal_string(self.code as u64).as_str());
        text.append(")");
        text
    }
}

/// Whether a validation runs while decoding or encoding.
#[derive(Clone, Copy, Debug, PartialEq, Eq, Structural)]
pub enum ValidationOperation {
    Decode,
    Encode,
}

/// Where a custom validation runs: the containing layout, the field or the
/// selected variant, and the operation.
pub struct ValidationContext<'layout> {
    layout: &'layout LayoutDescriptor,
    field: Option<&'static str>,
    variant: Option<&'static str>,
    operation: ValidationOperation,
}

impl<'layout> ValidationContext<'layout> {
    pub closed spec fn spec_layout(&self) -> &'layout LayoutDescriptor {
        self.layout
    }

    pub closed spec fn spec_field(&self) -> Option<&'static str> {
        self.field
    }

    pub closed spec fn spec_variant(&self) -> Option<&'static str> {
        self.variant
    }

    pub closed spec fn spec_operation(&self) -> ValidationOperation {
        self.operation
    }

    pub fn layout(&self) -> (r: &'layout LayoutDescriptor)
        ensures
            r == self.spec_layout(),
    {
        self.layout
    }

    pub fn field(&self) -> (r: Option<&'static str>)
        ensures
            r == self.spec_field(),
    {
        self.field
    }

    pub fn variant(&self) -> (r: Option<&'static str>)
        ensures
            r == self.spec_variant(),
    {
        self.variant
    }

    pub fn operation(&self) -> (r: ValidationOperation)
        ensures
            r == self.spec_operation(),
    {
        self.operation
    }

    /// A context for one field of `layout`.
    pub fn __field(
        layout: &'layout LayoutDescriptor,
        field: &'static str,
        operation: ValidationOperation,
    ) -> (r:
        Self)
        ensures
            r.spec_layout() == layout,
            r.spec_field() == Some(field),
            r.spec_variant() is None,
            r.spec_operation() == operation,
    {
        ValidationContext { layout, field: Some(field), variant: None, operation }
    }

    /// A context for a whole value of `layout`, optionally naming the
    /// selected variant.
    pub fn __whole(
        layout: &'layout LayoutDescriptor,
        variant: Option<&'static str>,
        operation: ValidationOperation,
    ) -> (r: Self)
        ensures
            r.spec_layout() == layout,
            r.spec_field() is None,
            r.spec_variant() == variant,
            r.spec_operation() == operation,
    {
        ValidationContext { layout, field: None, variant, operation }
    }
}

} // verus!
