//! The errors that an operation on a document reports.

use vstd::prelude::*;

verus! {

/// Why an operation was refused. Each is reported by the call that caused it;
/// nothing is retried.
#[derive(Clone, Copy, Debug, PartialEq, Eq, Structural, Hash)]
pub enum ErrorKind {
    /// The document holds no such container, or the container was deleted.
    ContainerNotFound,
    /// A tree node that the call names was never created, or is deleted.
    TreeNodeNotExist,
    /// The move would make a node its own ancestor.
    CyclicMoveRejected,
    /// The call places a node at a position, and the tree keeps no positions.
    FractionalIndexDisabled,
    /// No further key fits between two neighbours.
    KeyExhausted,
    /// A position beyond the end of the container.
    IndexOutOfBounds,
    /// A value of a kind that the container cannot hold.
    InvalidValueType,
    /// Any other refusal by the document.
    Other,
}

/// The refusals that `loro` tells apart, as far as this crate reads them.
#[derive(Clone, Copy, Debug, PartialEq, Eq, Structural, Hash)]
pub enum OutsideError {
    CyclicMove,
    InvalidParent,
    TreeNodeParentNotFound,
    TreeNodeNotExist,
    TreeNodeDeletedOrNotExist,
    TreeIndexOutOfBound,
    FractionalIndexNotEnabled,
    OutOfBound,
    ArgErr,
    ContainerDeleted,
    Other,
}

/// The error type of `loro`, of which this crate reads the variant alone.
#[verifier::external_type_specification]
#[verifier::external_body]
pub struct ExLoroError(loro::LoroError);

/// Which refusal a `loro::LoroError` is.
pub uninterp spec fn outside_error(e: loro::LoroError) -> OutsideError;

/// Tells the variants of `loro::LoroError` and of its `LoroTreeError` apart; the
/// result is the variant's name, `Other` for those this crate does not read.
#[verifier::external_body]
pub(crate) fn read_outside_error(e: &loro::LoroError) -> (k: OutsideError)
    ensures
        k == outside_error(*e),
{
    match e {
        loro::LoroError::TreeError(loro::LoroTreeError::CyclicMoveError) => OutsideError::CyclicMove,
        loro::LoroError::TreeError(loro::LoroTreeError::InvalidParent) => OutsideError::InvalidParent,
        loro::LoroError::TreeError(loro::LoroTreeError::TreeNodeParentNotFound(_)) => OutsideError::TreeNodeParentNotFound,
        loro::LoroError::TreeError(loro::LoroTreeError::TreeNodeNotExist(_)) => OutsideError::TreeNodeNotExist,
        loro::LoroError::TreeError(loro::LoroTreeError::TreeNodeDeletedOrNotExist(_)) => OutsideError::TreeNodeDeletedOrNotExist,
        loro::LoroError::TreeError(loro::LoroTreeError::IndexOutOfBound { .. }) => OutsideError::TreeIndexOutOfBound,
        loro::LoroError::TreeError(loro::LoroTreeError::FractionalIndexNotEnabled) => OutsideError::FractionalIndexNotEnabled,
        loro::LoroError::OutOfBound { .. } => OutsideError::OutOfBound,
        loro::LoroError::ArgErr(_) => OutsideError::ArgErr,
        loro::LoroError::ContainerDeleted { .. } => OutsideError::ContainerDeleted,
        _ => OutsideError::Other,
    }
}

/// The error that this crate reports for a refusal of the document.
pub open spec fn error_of(k: OutsideError) -> ErrorKind {
    match k {
        OutsideError::CyclicMove => ErrorKind::CyclicMoveRejected,
        OutsideError::InvalidParent => ErrorKind::TreeNodeNotExist,
        OutsideError::TreeNodeParentNotFound => ErrorKind::TreeNodeNotExist,
        OutsideError::TreeNodeNotExist => ErrorKind::TreeNodeNotExist,
        OutsideError::TreeNodeDeletedOrNotExist => ErrorKind::TreeNodeNotExist,
        OutsideError::TreeIndexOutOfBound => ErrorKind::IndexOutOfBounds,
        OutsideError::FractionalIndexNotEnabled => ErrorKind::FractionalIndexDisabled,
        OutsideError::OutOfBound => ErrorKind::IndexOutOfBounds,
        OutsideError::ArgErr => ErrorKind::InvalidValueType,
        OutsideError::ContainerDeleted => ErrorKind::ContainerNotFound,
        OutsideError::Other => ErrorKind::Other,
    }
}

impl ErrorKind {
    /// The error for a refusal of the document.
    pub fn from_outside(k: OutsideError) -> (e: ErrorKind)
        ensures
            e == error_of(k),
    {
        match k {
            OutsideError::CyclicMove => ErrorKind::CyclicMoveRejected,
            OutsideError::InvalidParent
            | OutsideError::TreeNodeParentNotFound
            | OutsideError::TreeNodeNotExist
            | OutsideError::TreeNodeDeletedOrNotExist => ErrorKind::TreeNodeNotExist,
            OutsideError::TreeIndexOutOfBound | OutsideError::OutOfBound => ErrorKind::IndexOutOfBounds,
            OutsideError::FractionalIndexNotEnabled => ErrorKind::FractionalIndexDisabled,
            OutsideError::ArgErr => ErrorKind::InvalidValueType,
            OutsideError::ContainerDeleted => ErrorKind::ContainerNotFound,
            OutsideError::Other => ErrorKind::Other,
        }
    }

    /// A short name of the error, for messages.
    pub fn name(&self) -> (s: &'static str)
        ensures
            s@ == error_name(*self),
    {
        match self {
            ErrorKind::ContainerNotFound => "ContainerNotFound",
            ErrorKind::TreeNodeNotExist => "TreeNodeNotExist",
            ErrorKind::CyclicMoveRejected => "CyclicMoveRejected",
            ErrorKind::FractionalIndexDisabled => "FractionalIndexDisabled",
            ErrorKind::KeyExhausted => "KeyExhausted",
            ErrorKind::IndexOutOfBounds => "IndexOutOfBounds",
            ErrorKind::InvalidValueType => "InvalidValueType",
            ErrorKind::Other => "Other",
        }
    }
}

pub open spec fn error_name(e: ErrorKind) -> Seq<char> {
    match e {
        ErrorKind::ContainerNotFound => "ContainerNotFound"@,
        ErrorKind::TreeNodeNotExist => "TreeNodeNotExist"@,
        ErrorKind::CyclicMoveRejected => "CyclicMoveRejected"@,
        ErrorKind::FractionalIndexDisabled => "FractionalIndexDisabled"@,
        ErrorKind::KeyExhausted => "KeyExhausted"@,
        ErrorKind::IndexOutOfBounds => "IndexOutOfBounds"@,
        ErrorKind::InvalidValueType => "InvalidValueType"@,
        ErrorKind::Other => "Other"@,
    }
}

/// The refusal in a result of `loro`, as this crate reports it; `None` where the
/// call was accepted or the document holds no such container.
pub open spec fn refusal_of<T>(r: Option<Result<T, loro::LoroError>>) -> Option<ErrorKind> {
    match r {
        Some(Err(e)) => Some(error_of(outside_error(e))),
        _ => None,
    }
}

/// The error of a call, if it returned one.
pub open spec fn error_in<T>(r: Result<T, ErrorKind>) -> Option<ErrorKind> {
    match r {
        Ok(_) => None,
        Err(e) => Some(e),
    }
}

/// The result of `loro` as this crate returns it.
pub(crate) fn settle<T>(r: Option<Result<T, loro::LoroError>>) -> (out: Result<T, ErrorKind>)
    ensures
        r is None ==> out == Err::<T, ErrorKind>(ErrorKind::ContainerNotFound),
        r matches Some(Ok(v)) ==> out == Ok::<T, ErrorKind>(v),
        r matches Some(Err(e)) ==> out == Err::<T, ErrorKind>(error_of(outside_error(e))),
{
    match r {
        None => Err(ErrorKind::ContainerNotFound),
        Some(Ok(v)) => Ok(v),
        Some(Err(e)) => Err(ErrorKind::from_outside(read_outside_error(&e))),
    }
}

} // verus!
