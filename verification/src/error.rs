//! Error values returned by the registry, the validator and the reply codec.

use vstd::prelude::*;

verus! {

/// Error of a registry or validator operation. Every operation returns a
/// `Result`; a failed operation leaves the registry state unchanged.
#[derive(Debug)]
pub enum TokenFactoryError {
    /// The denom string is malformed; carries the offending string and a
    /// human-readable reason.
    InvalidDenom { denom: String, message: String },
    /// A denom with this exact name has already been created.
    DenomAlreadyExists,
    /// No denom with this name was ever created.
    UnknownDenom,
    /// The sender is not the current admin of the denom.
    NotAdmin,
    /// The proposed new admin does not parse as a valid identity.
    InvalidAddress,
    /// Mint, burn and transfer amounts must be strictly positive.
    ZeroAmount,
    /// The operation is deliberately not implemented yet.
    Unimplemented,
}

/// Error of the binary reply decoder.
#[derive(Debug, Clone, Copy, PartialEq, Eq, Structural)]
pub enum DecodeError {
    /// The tag byte carries a field number other than the requested one.
    FieldMismatch,
    /// The tag byte carries a wire type other than length-delimited.
    WireTypeMismatch,
    /// The buffer ends before the length varint terminates.
    VarintTooShort,
    /// The length varint has no terminator within its first nine bytes.
    VarintTooLong,
    /// Fewer bytes remain than the decoded length claims.
    PayloadTooShort,
    /// The payload bytes are not valid UTF-8.
    InvalidUtf8,
}

/// Mathematical image of a [`TokenFactoryError`].
pub enum ErrorView {
    InvalidDenom { denom: Seq<char>, message: Seq<char> },
    DenomAlreadyExists,
    UnknownDenom,
    NotAdmin,
    InvalidAddress,
    ZeroAmount,
    Unimplemented,
}

impl View for TokenFactoryError {
    type V = ErrorView;

    open spec fn view(&self) -> ErrorView {
        match self {
            TokenFactoryError::InvalidDenom { denom, message } => ErrorView::InvalidDenom {
                denom: denom@,
                message: message@,
            },
            TokenFactoryError::DenomAlreadyExists => ErrorView::DenomAlreadyExists,
            TokenFactoryError::UnknownDenom => ErrorView::UnknownDenom,
            TokenFactoryError::NotAdmin => ErrorView::NotAdmin,
            TokenFactoryError::InvalidAddress => ErrorView::InvalidAddress,
            TokenFactoryError::ZeroAmount => ErrorView::ZeroAmount,
            TokenFactoryError::Unimplemented => ErrorView::Unimplemented,
        }
    }
}

impl PartialEq for TokenFactoryError {
    fn eq(&self, other: &TokenFactoryError) -> bool {
        match (self, other) {
            (
                TokenFactoryError::InvalidDenom { denom: d1, message: m1 },
                TokenFactoryError::InvalidDenom { denom: d2, message: m2 },
            ) => *d1 == *d2 && *m1 == *m2,
            (TokenFactoryError::DenomAlreadyExists, TokenFactoryError::DenomAlreadyExists) => true,
            (TokenFactoryError::UnknownDenom, TokenFactoryError::UnknownDenom) => true,
            (TokenFactoryError::NotAdmin, TokenFactoryError::NotAdmin) => true,
            (TokenFactoryError::InvalidAddress, TokenFactoryError::InvalidAddress) => true,
            (TokenFactoryError::ZeroAmount, TokenFactoryError::ZeroAmount) => true,
            (TokenFactoryError::Unimplemented, TokenFactoryError::Unimplemented) => true,
            _ => false,
        }
    }
}

impl vstd::std_specs::cmp::PartialEqSpecImpl for TokenFactoryError {
    open spec fn obeys_eq_spec() -> bool {
        true
    }

    open spec fn eq_spec(&self, other: &TokenFactoryError) -> bool {
        match (self, other) {
            (
                TokenFactoryError::InvalidDenom { denom: d1, message: m1 },
                TokenFactoryError::InvalidDenom { denom: d2, message: m2 },
            ) => d1@ == d2@ && m1@ == m2@,
            (TokenFactoryError::DenomAlreadyExists, TokenFactoryError::DenomAlreadyExists) => true,
            (TokenFactoryError::UnknownDenom, TokenFactoryError::UnknownDenom) => true,
            (TokenFactoryError::NotAdmin, TokenFactoryError::NotAdmin) => true,
            (TokenFactoryError::InvalidAddress, TokenFactoryError::InvalidAddress) => true,
            (TokenFactoryError::ZeroAmount, TokenFactoryError::ZeroAmount) => true,
            (TokenFactoryError::Unimplemented, TokenFactoryError::Unimplemented) => true,
            _ => false,
        }
    }
}

} // verus!
