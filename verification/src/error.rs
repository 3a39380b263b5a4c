//! The errors of the library.

use crate::text;
use vstd::prelude::*;
use vstd::string::StringExecFns;

verus! {

/// The family that an error is reported under.
#[derive(Clone, Copy, Debug, PartialEq, Eq, Structural)]
pub enum ErrorKind {
    /// A request or a stored value that the index does not accept.
    IndexError,
    /// An index that cannot be set up as asked.
    AsyncIndexError,
}

/// A call into the key-value store.
#[derive(Clone, Copy, Debug, PartialEq, Eq, Structural)]
pub enum StoreCall {
    Get,
    Put,
    Delete,
    BeginRead,
    OpenTable,
}

/// Why a request was refused or a stored value was rejected.
#[derive(Debug)]
pub enum IndexError {
    /// A stored neighbor list holds less than one id.
    ListShorterThanId,
    /// A stored neighbor list holds more slots than the max degree allows.
    ListLongerThanMaxDegree,
    /// A stored neighbor list does not end on an id boundary.
    ListNotMultipleOfId,
    /// A stored neighbor list declares more ids than it holds.
    ListShorterThanDeclared,
    /// A neighbor list to be stored has more ids than the max degree allows.
    ListExceedsMaxDegree,
    /// A vector to be stored has the wrong number of elements.
    VectorDimension,
    /// A vector to be compressed has the wrong number of elements.
    F32Dimension,
    /// An id at or beyond the number of points.
    VectorIdOutOfRange,
    /// A stored vector has the wrong number of bytes.
    ReadSize { backend: &'static str, id: usize, actual: usize, expected: usize },
    /// No vector is stored under the id.
    VectorNotFound { backend: &'static str, id: usize },
    /// No neighbor list is stored under the id.
    NeighborsNotFound { backend: &'static str },
    /// The buffer for a vector has the wrong number of elements.
    BufferDimension { expected: usize, actual: usize },
    /// The matrix of start points does not fit the parameters.
    StartPointRows { rows: usize, expected: usize },
    /// The matrix of start points does not fit the provider.
    StartPointMismatch { rows: usize, expected: usize },
    /// A position that is no vector id.
    IdConversion { value: usize },
    /// A vector could not be converted to floats.
    Conversion { detail: String },
    /// A vector could not be compressed.
    Compression { detail: String },
    /// The neighbors of a released id could not be reset, because the store failed.
    ResetNeighbors { id: u32, backend: &'static str, detail: String },
    /// The store failed.
    Backend { backend: &'static str, call: StoreCall, detail: String },
}

pub open spec fn store_call_text(call: StoreCall) -> Seq<char> {
    match call {
        StoreCall::Get => "get"@,
        StoreCall::Put => "put"@,
        StoreCall::Delete => "delete"@,
        StoreCall::BeginRead => "begin_read"@,
        StoreCall::OpenTable => "open_table"@,
    }
}

impl StoreCall {
    pub fn name(self) -> (s: &'static str)
        ensures
            s@ == store_call_text(self),
    {
        match self {
            StoreCall::Get => "get",
            StoreCall::Put => "put",
            StoreCall::Delete => "delete",
            StoreCall::BeginRead => "begin_read",
            StoreCall::OpenTable => "open_table",
        }
    }
}

impl IndexError {
    /// The text of the error.
    pub open spec fn text(self) -> Seq<char> {
        match self {
            IndexError::ListShorterThanId =>
                "Retrieved neighbor list is shorter than a single VectorID"@,
            IndexError::ListLongerThanMaxDegree =>
                "Retrieved neighbor list is longer than the max degree"@,
            IndexError::ListNotMultipleOfId =>
                "Retrieved neighbor list length is not in the multiple of VectorID"@,
            IndexError::ListShorterThanDeclared =>
                "The length of the retrieved neighbor list is shorter than the specified length"@,
            IndexError::ListExceedsMaxDegree =>
                "The provided neighbor list is longer than the max degree"@,
            IndexError::VectorDimension =>
                "Vector dimension is not equal to the expected dimension."@,
            IndexError::F32Dimension =>
                "Vector f32 dimension is not equal to the expected dimension."@,
            IndexError::VectorIdOutOfRange => "Vector id is out of boundary in the dataset."@,
            IndexError::ReadSize { backend, id, actual, expected } => "The "@ + backend@
                + " entry for vector id "@ + text::decimal(id as nat) + " has size "@
                + text::decimal(actual as nat) + " instead of the expected size "@
                + text::decimal(expected as nat),
            IndexError::VectorNotFound { backend, id } => "The "@ + backend@
                + " entry for vector id "@ + text::decimal(id as nat) + " is not found"@,
            IndexError::NeighborsNotFound { backend } => "The "@ + backend@
                + " entry for the vector key is not found"@,
            IndexError::BufferDimension { expected, actual } => "expected a buffer with dim "@
                + text::decimal(expected as nat) + ", instead got "@ + text::decimal(actual as nat),
            IndexError::StartPointRows { rows, expected } => "start_points matrix has "@
                + text::decimal(rows as nat) + " rows, but params.num_start_points is "@
                + text::decimal(expected as nat),
            IndexError::StartPointMismatch { rows, expected } =>
                "expected start_points to contain `"@ + text::decimal(expected as nat)
                + "` rows, instead it has "@ + text::decimal(rows as nat),
            IndexError::IdConversion { value } => "could not convert integer usize("@
                + text::decimal(value as nat) + ") to a VectorId of type u32"@,
            IndexError::Conversion { detail } => detail@,
            IndexError::Compression { detail } => detail@,
            IndexError::ResetNeighbors { id, backend, detail } =>
                "resetting neighbors for undeleted id "@ + text::decimal(id as nat) + ": "@ + backend@
                + " put failed: "@ + detail@,
            IndexError::Backend { backend, call, detail } => backend@ + " "@ + store_call_text(call)
                + " failed: "@ + detail@,
        }
    }

    /// The family of the error.
    pub open spec fn family(self) -> ErrorKind {
        match self {
            IndexError::StartPointRows { .. } => ErrorKind::AsyncIndexError,
            IndexError::StartPointMismatch { .. } => ErrorKind::AsyncIndexError,
            _ => ErrorKind::IndexError,
        }
    }

    /// The family of the error.
    pub fn kind(&self) -> (kind: ErrorKind)
        ensures
            kind == self.family(),
    {
        match self {
            IndexError::StartPointRows { .. } => ErrorKind::AsyncIndexError,
            IndexError::StartPointMismatch { .. } => ErrorKind::AsyncIndexError,
            _ => ErrorKind::IndexError,
        }
    }

    /// The text of the error.
    pub fn message(&self) -> (s: String)
        ensures
            s@ == self.text(),
    {
        match self {
            IndexError::ListShorterThanId =>
                "Retrieved neighbor list is shorter than a single VectorID".to_owned(),
            IndexError::ListLongerThanMaxDegree =>
                "Retrieved neighbor list is longer than the max degree".to_owned(),
            IndexError::ListNotMultipleOfId =>
                "Retrieved neighbor list length is not in the multiple of VectorID".to_owned(),
            IndexError::ListShorterThanDeclared =>
                "The length of the retrieved neighbor list is shorter than the specified length".to_owned(),
            IndexError::ListExceedsMaxDegree =>
                "The provided neighbor list is longer than the max degree".to_owned(),
            IndexError::VectorDimension =>
                "Vector dimension is not equal to the expected dimension.".to_owned(),
            IndexError::F32Dimension =>
                "Vector f32 dimension is not equal to the expected dimension.".to_owned(),
            IndexError::VectorIdOutOfRange =>
                "Vector id is out of boundary in the dataset.".to_owned(),
            IndexError::ReadSize { backend, id, actual, expected } => {
                "The ".to_owned().concat(backend).concat(" entry for vector id ").concat(
                    text::decimal_text(*id).as_str(),
                ).concat(" has size ").concat(text::decimal_text(*actual).as_str()).concat(
                    " instead of the expected size ",
                ).concat(text::decimal_text(*expected).as_str())
            },
            IndexError::VectorNotFound { backend, id } => {
                "The ".to_owned().concat(backend).concat(" entry for vector id ").concat(
                    text::decimal_text(*id).as_str(),
                ).concat(" is not found")
            },
            IndexError::NeighborsNotFound { backend } => {
                "The ".to_owned().concat(backend).concat(" entry for the vector key is not found")
            },
            IndexError::BufferDimension { expected, actual } =>
                "expected a buffer with dim ".to_owned().concat(
                text::decimal_text(*expected).as_str(),
            ).concat(", instead got ").concat(text::decimal_text(*actual).as_str()),
            IndexError::StartPointRows { rows, expected } =>
                "start_points matrix has ".to_owned().concat(
                text::decimal_text(*rows).as_str(),
            ).concat(" rows, but params.num_start_points is ").concat(
                text::decimal_text(*expected).as_str(),
            ),
            IndexError::StartPointMismatch { rows, expected } =>
                "expected start_points to contain `".to_owned().concat(
                text::decimal_text(*expected).as_str(),
            ).concat("` rows, instead it has ").concat(text::decimal_text(*rows).as_str()),
            IndexError::IdConversion { value } =>
                "could not convert integer usize(".to_owned().concat(
                text::decimal_text(*value).as_str(),
            ).concat(") to a VectorId of type u32"),
            IndexError::Conversion { detail } => detail.as_str().to_owned(),
            IndexError::Compression { detail } => detail.as_str().to_owned(),
            IndexError::ResetNeighbors { id, backend, detail } =>
                "resetting neighbors for undeleted id ".to_owned().concat(
                text::decimal_text(*id as usize).as_str(),
            ).concat(": ").concat(backend).concat(" put failed: ").concat(detail.as_str()),
            IndexError::Backend { backend, call, detail } => (*backend).to_owned().concat(" ").concat(
                call.name(),
            ).concat(" failed: ").concat(detail.as_str()),
        }
    }
}

} // verus!
