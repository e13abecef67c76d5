//! The error taxonomy of the transfer engines.
//!
//! Transport failures from the store are carried as text inside `TaskError`;
//! contract violations of the byte protocol (misaligned lengths, short
//! streams, oversized chunks) are `ProtocolError` values and are never
//! retried.

use vstd::prelude::*;

verus! {

#[verifier::external_type_specification]
#[verifier::external_body]
pub struct ExStoreError(aws_sdk_s3::Error);

/// Whether a store error is the absent-key condition.
pub uninterp spec fn no_such_key(e: aws_sdk_s3::Error) -> bool;

/// The diagnostic text of a store error.
pub uninterp spec fn store_error_text(e: aws_sdk_s3::Error) -> Seq<char>;

/// Relies on matching aws_sdk_s3::Error's NoSuchKey variant, the store's
/// report that the requested key does not exist.
#[verifier::external_body]
fn is_no_such_key(e: &aws_sdk_s3::Error) -> (r: bool)
    ensures
        r == no_such_key(*e),
{
    matches!(e, aws_sdk_s3::Error::NoSuchKey(_))
}

/// Relies on aws_sdk_s3::Error's Display impl: the error rendered as text,
/// a function of the error value alone.
#[verifier::external_body]
fn store_error_message(e: &aws_sdk_s3::Error) -> (r: String)
    ensures
        r@ == store_error_text(*e),
{
    e.to_string()
}

/// A domain error surfaced to callers: a store failure, a task-state
/// failure, or an I/O failure, each keeping the underlying message.
pub enum TaskError {
    AWSError(String),
    TaskStateError(String),
    IoError(String),
}

/// A fatal violation of the byte protocol. None of these is a transient
/// condition: each marks bad input or a store that broke its contract.
#[derive(PartialEq, Eq, Structural, Clone, Copy, Debug)]
pub enum ProtocolError {
    /// A declared byte length is not an exact multiple of the record size.
    Misaligned,
    /// The byte stream ended while a record was still incomplete.
    UnexpectedEnd,
    /// An incoming chunk does not fit in the unwritten rest of the buffer.
    ChunkOverflow,
}

impl TaskError {
    /// The message carried by this error, whatever its kind.
    pub fn message(&self) -> (r: &String)
        ensures
            r@ == self.text(),
    {
        match self {
            TaskError::AWSError(m) => m,
            TaskError::TaskStateError(m) => m,
            TaskError::IoError(m) => m,
        }
    }

    /// The message carried by this error, as a sequence of characters.
    pub open spec fn text(self) -> Seq<char> {
        match self {
            TaskError::AWSError(m) => m@,
            TaskError::TaskStateError(m) => m@,
            TaskError::IoError(m) => m@,
        }
    }
}

/// Wrap a store failure as the domain error surfaced to callers, keeping
/// the store's own message for diagnostics.
pub fn from_store_error(e: aws_sdk_s3::Error) -> (r: TaskError)
    ensures
        r matches TaskError::AWSError(m) && m@ == store_error_text(e),
{
    TaskError::AWSError(store_error_message(&e))
}

/// Classify the failure of a read: an absent key is not an error but an
/// explicit "no such object" outcome (`None`); every other store failure is
/// surfaced as a domain error carrying the store's message.
pub fn absent_or_failure(e: aws_sdk_s3::Error) -> (r: Option<TaskError>)
    ensures
        no_such_key(e) <==> r is None,
        !no_such_key(e) ==> (r matches Some(t) && t matches TaskError::AWSError(m) && m@
            == store_error_text(e)),
{
    if is_no_such_key(&e) {
        None
    } else {
        Some(from_store_error(e))
    }
}

} // verus!
