//! The errors of the library: transport failures, malformed messages, and requests that the
//! chosen specification version does not allow.

use vstd::prelude::*;
use crate::SpecVersion;

verus! {

/// Where a value that failed a check came from.
#[derive(Clone, Copy, Debug, PartialEq, Eq, Structural)]
pub enum ValueSource {
    Socket,
    Header,
    Field,
}

/// A message, or a value in one, that does not have the required form.
#[derive(Clone, Debug, PartialEq, Eq)]
pub enum MessageFormatError {
    /// An XML document could not be written.
    XmlFormat,
    /// The header section of a message is not valid UTF-8.
    SourceEncoding,
    VersionMismatch { source: ValueSource, target: String },
    MissingRequiredValue { source: ValueSource, name: String },
    ValueTypeMismatch { source: ValueSource, name: String, expected: String, found: String },
    InvalidValue { source: ValueSource, name: String, value: String },
    InvalidValueForType { for_type: String, value: String },
}

/// The error of every fallible operation of the library.
#[derive(Clone, Debug, PartialEq, Eq)]
pub enum Error {
    /// A socket operation failed for a reason other than a timeout; the text describes it.
    NetworkTransport(String),
    MessageFormat(MessageFormatError),
    OperationFailed { operation: String, status: String },
    UnsupportedVersion { version: SpecVersion },
    UnsupportedOperation { operation: String },
}

/// `e` is a `MissingRequiredValue` from `source` naming `name`.
pub open spec fn missing_value(e: MessageFormatError, source: ValueSource, name: Seq<char>) -> bool {
    match e {
        MessageFormatError::MissingRequiredValue { source: s, name: n } => s == source && n@ == name,
        _ => false,
    }
}

/// `e` is an `InvalidValue` from `source` for `name` holding `value`.
pub open spec fn invalid_value(
    e: MessageFormatError,
    source: ValueSource,
    name: Seq<char>,
    value: Seq<char>,
) -> bool {
    match e {
        MessageFormatError::InvalidValue { source: s, name: n, value: v } => s == source && n@
            == name && v@ == value,
        _ => false,
    }
}

/// `e` is an `InvalidValue` from `source` for `name`, whatever value it holds.
pub open spec fn invalid_value_of(e: MessageFormatError, source: ValueSource, name: Seq<char>) -> bool {
    match e {
        MessageFormatError::InvalidValue { source: s, name: n, .. } => s == source && n@ == name,
        _ => false,
    }
}

/// `e` is an `InvalidValueForType` for `for_type` holding `value`.
pub open spec fn invalid_for_type(e: MessageFormatError, for_type: Seq<char>, value: Seq<char>) -> bool {
    match e {
        MessageFormatError::InvalidValueForType { for_type: t, value: v } => t@ == for_type && v@
            == value,
        _ => false,
    }
}

/// `e` wraps a message-format error that satisfies `p`.
pub open spec fn format_error(e: Error, p: spec_fn(MessageFormatError) -> bool) -> bool {
    match e {
        Error::MessageFormat(m) => p(m),
        _ => false,
    }
}

pub fn version_mismatch(source: ValueSource, target: &str) -> (r: MessageFormatError)
    ensures
        r matches MessageFormatError::VersionMismatch { source: s, target: t } && s == source
            && t@ == target@,
{
    MessageFormatError::VersionMismatch { source, target: target.to_string() }
}

pub fn missing_required_header(name: &str) -> (r: MessageFormatError)
    ensures
        missing_value(r, ValueSource::Header, name@),
{
    MessageFormatError::MissingRequiredValue { source: ValueSource::Header, name: name.to_string() }
}

pub fn header_type_mismatch(name: &str, expected: &str, found: &str) -> (r: MessageFormatError)
    ensures
        r matches MessageFormatError::ValueTypeMismatch { source: s, name: n, expected: e, found: f }
            && s == ValueSource::Header && n@ == name@ && e@ == expected@ && f@ == found@,
{
    MessageFormatError::ValueTypeMismatch {
        source: ValueSource::Header,
        name: name.to_string(),
        expected: expected.to_string(),
        found: found.to_string(),
    }
}

pub fn invalid_header_value(name: &str, value: &str) -> (r: MessageFormatError)
    ensures
        invalid_value(r, ValueSource::Header, name@, value@),
{
    MessageFormatError::InvalidValue {
        source: ValueSource::Header,
        name: name.to_string(),
        value: value.to_string(),
    }
}

pub fn missing_required_field(name: &str) -> (r: MessageFormatError)
    ensures
        missing_value(r, ValueSource::Field, name@),
{
    MessageFormatError::MissingRequiredValue { source: ValueSource::Field, name: name.to_string() }
}

pub fn field_type_mismatch(name: &str, expected: &str, found: &str) -> (r: MessageFormatError)
    ensures
        r matches MessageFormatError::ValueTypeMismatch { source: s, name: n, expected: e, found: f }
            && s == ValueSource::Field && n@ == name@ && e@ == expected@ && f@ == found@,
{
    MessageFormatError::ValueTypeMismatch {
        source: ValueSource::Field,
        name: name.to_string(),
        expected: expected.to_string(),
        found: found.to_string(),
    }
}

pub fn invalid_field_value(name: &str, value: &str) -> (r: MessageFormatError)
    ensures
        invalid_value(r, ValueSource::Field, name@, value@),
{
    MessageFormatError::InvalidValue {
        source: ValueSource::Field,
        name: name.to_string(),
        value: value.to_string(),
    }
}

/// As `invalid_field_value`, taking ownership of strings already built.
pub fn invalid_field_value_string(name: String, value: String) -> (r: MessageFormatError)
    ensures
        invalid_value(r, ValueSource::Field, name@, value@),
{
    MessageFormatError::InvalidValue { source: ValueSource::Field, name, value }
}

/// As `invalid_header_value`, taking ownership of strings already built.
pub fn invalid_header_value_string(name: String, value: String) -> (r: MessageFormatError)
    ensures
        invalid_value(r, ValueSource::Header, name@, value@),
{
    MessageFormatError::InvalidValue { source: ValueSource::Header, name, value }
}

pub fn invalid_socket_value(name: &str, value: &str) -> (r: MessageFormatError)
    ensures
        invalid_value(r, ValueSource::Socket, name@, value@),
{
    MessageFormatError::InvalidValue {
        source: ValueSource::Socket,
        name: name.to_string(),
        value: value.to_string(),
    }
}

pub fn unsupported_version(version: SpecVersion) -> (r: Error)
    ensures
        r == (Error::UnsupportedVersion { version }),
{
    Error::UnsupportedVersion { version }
}

pub fn unsupported_operation(operation: &str) -> (r: Error)
    ensures
        r matches Error::UnsupportedOperation { operation: o } && o@ == operation@,
{
    Error::UnsupportedOperation { operation: operation.to_string() }
}

pub fn invalid_value_for_type(for_type: &str, value: &str) -> (r: MessageFormatError)
    ensures
        invalid_for_type(r, for_type@, value@),
{
    MessageFormatError::InvalidValueForType { for_type: for_type.to_string(), value: value.to_string() }
}

impl ValueSource {
    /// The words that describe the source in a diagnostic.
    pub fn describe(&self) -> (r: &'static str)
        ensures
            r@ == match self {
                ValueSource::Socket => "socket"@,
                ValueSource::Header => "message header"@,
                ValueSource::Field => "message field"@,
            },
    {
        match self {
            ValueSource::Socket => "socket",
            ValueSource::Header => "message header",
            ValueSource::Field => "message field",
        }
    }
}

} // verus!
