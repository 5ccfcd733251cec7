//! What a decoder answers when a value is not the canonical form of
//! anything.

use vstd::prelude::*;
use crate::address::{Cid, CidView};
use crate::ipld::{Value, ValueView};

verus! {

/// The ways in which decoding fails.
#[derive(Debug, PartialEq)]
pub enum IpldError {
    /// The value has not the shape of the form that was asked for.
    InvalidShape(Value),
    /// The value starts with a discriminator that names no constructor.
    UnknownTag(Value),
    /// The value is no tag of a primitive operation.
    NatOp(Value),
    /// A metadata tree does not fit the anonymous term beside it.
    MetaMismatch,
    /// A metadata tree holds no name where a binder needs one.
    NameMissing,
    /// A name stands twice where names are unique.
    DuplicateName(String),
    /// A term is not closed, or refers to a recursive definition outside
    /// of one.
    InvariantViolated,
    /// No definition in scope has this block.
    UnresolvedRef(Cid),
}

/// What an [`IpldError`] holds, as mathematical values.
pub enum IpldErrorView {
    InvalidShape(ValueView),
    UnknownTag(ValueView),
    NatOp(ValueView),
    MetaMismatch,
    NameMissing,
    DuplicateName(Seq<char>),
    InvariantViolated,
    UnresolvedRef(CidView),
}

impl View for IpldError {
    type V = IpldErrorView;

    open spec fn view(&self) -> IpldErrorView {
        match self {
            IpldError::InvalidShape(v) => IpldErrorView::InvalidShape(v@),
            IpldError::UnknownTag(v) => IpldErrorView::UnknownTag(v@),
            IpldError::NatOp(v) => IpldErrorView::NatOp(v@),
            IpldError::MetaMismatch => IpldErrorView::MetaMismatch,
            IpldError::NameMissing => IpldErrorView::NameMissing,
            IpldError::DuplicateName(n) => IpldErrorView::DuplicateName(n@),
            IpldError::InvariantViolated => IpldErrorView::InvariantViolated,
            IpldError::UnresolvedRef(c) => IpldErrorView::UnresolvedRef(c@),
        }
    }
}

/// The view of what a decoder answered.
pub open spec fn decoded<T: View>(r: Result<T, IpldError>) -> Result<T::V, IpldErrorView> {
    match r {
        Ok(x) => Ok(x@),
        Err(e) => Err(e@),
    }
}

} // verus!
