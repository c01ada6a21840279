//! Names, metadata records, errors and the range check shared by the whole store.
use vstd::prelude::*;

verus! {

/// Name of a container; unique within one store.
pub type ContainerName = String;

/// Name of an object; unique within its container.
pub type ObjectName = String;

/// Nanoseconds since the Unix epoch.
pub type Timestamp = u64;

/// Size of an object in bytes.
pub type ObjectSize = u64;

/// Every way an operation of the store can fail.
#[derive(Debug, Clone, PartialEq, Eq)]
pub enum BlobstoreError {
    ContainerNotFound(String),
    ContainerAlreadyExists(String),
    ObjectNotFound(String),
    /// Reserved: writes overwrite silently, so no operation raises it.
    ObjectAlreadyExists(String),
    InvalidRange { start: u64, end: u64 },
    ContainerNotEmpty(String),
    InvalidOperation(String),
    /// Reserved for host layers; the in-memory store never raises it.
    IoError(String),
    /// Reserved for host layers; the in-memory store never raises it.
    InternalError(String),
}

/// What an error says, with its names as character sequences.
pub enum ErrorView {
    ContainerNotFound(Seq<char>),
    ContainerAlreadyExists(Seq<char>),
    ObjectNotFound(Seq<char>),
    ObjectAlreadyExists(Seq<char>),
    InvalidRange { start: u64, end: u64 },
    ContainerNotEmpty(Seq<char>),
    InvalidOperation,
    IoError(Seq<char>),
    InternalError(Seq<char>),
}

impl View for BlobstoreError {
    type V = ErrorView;

    /// The message of `InvalidOperation` is free text and left out.
    open spec fn view(&self) -> ErrorView {
        match self {
            BlobstoreError::ContainerNotFound(n) => ErrorView::ContainerNotFound(n@),
            BlobstoreError::ContainerAlreadyExists(n) => ErrorView::ContainerAlreadyExists(n@),
            BlobstoreError::ObjectNotFound(n) => ErrorView::ObjectNotFound(n@),
            BlobstoreError::ObjectAlreadyExists(n) => ErrorView::ObjectAlreadyExists(n@),
            BlobstoreError::InvalidRange { start, end } => ErrorView::InvalidRange {
                start: *start,
                end: *end,
            },
            BlobstoreError::ContainerNotEmpty(n) => ErrorView::ContainerNotEmpty(n@),
            BlobstoreError::InvalidOperation(_) => ErrorView::InvalidOperation,
            BlobstoreError::IoError(m) => ErrorView::IoError(m@),
            BlobstoreError::InternalError(m) => ErrorView::InternalError(m@),
        }
    }
}

/// Result of every fallible operation.
pub type BlobstoreResult<T> = Result<T, BlobstoreError>;

/// `r` is a failure whose error reads `e`.
pub open spec fn fails_with<T>(r: BlobstoreResult<T>, e: ErrorView) -> bool {
    r is Err && r->Err_0@ == e
}

/// A result with its value and its error seen through their views.
pub open spec fn result_view<T: View>(r: BlobstoreResult<T>) -> Result<T::V, ErrorView> {
    match r {
        Ok(v) => Ok(v@),
        Err(e) => Err(e@),
    }
}

/// Whether a result succeeded, and with which error it failed if not.
pub open spec fn outcome_of<T>(r: BlobstoreResult<T>) -> Result<(), ErrorView> {
    match r {
        Ok(_) => Ok(()),
        Err(e) => Err(e@),
    }
}

/// Metadata of a container.
#[derive(Debug, Clone)]
pub struct ContainerMetadata {
    pub name: ContainerName,
    pub created_at: Timestamp,
}

/// Metadata of an object.
#[derive(Debug, Clone)]
pub struct ObjectMetadata {
    pub name: ObjectName,
    pub container: ContainerName,
    pub created_at: Timestamp,
    pub size: ObjectSize,
}

/// Address of an object: its container and its name there.
#[derive(Debug, Clone, PartialEq, Eq)]
pub struct ObjectId {
    pub container: ContainerName,
    pub object: ObjectName,
}

/// An object as the store keeps it: metadata and bytes.
#[derive(Debug, Clone)]
pub struct StoredObject {
    pub metadata: ObjectMetadata,
    pub data: Vec<u8>,
}

/// A container as the store keeps it: metadata and its objects, no two with one name.
#[derive(Debug, Clone)]
pub struct StoredContainer {
    pub metadata: ContainerMetadata,
    pub objects: Vec<StoredObject>,
}

/// Relies on std's `SystemTime::elapsed` on `UNIX_EPOCH`: the time since the
/// epoch, or nothing when the clock stands before it.
#[verifier::external_body]
fn elapsed_since_epoch() -> (r: Option<std::time::Duration>) {
    std::time::UNIX_EPOCH.elapsed().ok()
}

/// Relies on std's `Duration::as_nanos`: the whole duration in nanoseconds.
pub assume_specification[ core::time::Duration::as_nanos ](d: &core::time::Duration) -> u128;

/// The current time in nanoseconds since the Unix epoch (its low 64 bits),
/// or 0 when the clock stands before the epoch. Nothing is promised of the value.
pub fn current_timestamp() -> Timestamp {
    match elapsed_since_epoch() {
        Some(d) => {
            let nanos: u128 = d.as_nanos();
            #[verifier::truncate]
            (nanos as u64)
        },
        None => 0,
    }
}

/// An inclusive range `[start, end]` is acceptable for an object of `size`
/// bytes: it is not reversed, and it starts inside a non-empty object.
pub open spec fn range_is_valid(start: u64, end: u64, size: u64) -> bool {
    start <= end && (size == 0 || start < size)
}

/// Checks an inclusive byte range against an object's size.
pub fn validate_range(start: u64, end: u64, size: u64) -> (r: BlobstoreResult<()>)
    ensures
        r is Ok <==> range_is_valid(start, end, size),
        !range_is_valid(start, end, size) ==> fails_with(
            r,
            ErrorView::InvalidRange { start, end },
        ),
{
    if start > end {
        return Err(BlobstoreError::InvalidRange { start, end });
    }
    if start >= size && size > 0 {
        return Err(BlobstoreError::InvalidRange { start, end });
    }
    Ok(())
}

} // verus!
