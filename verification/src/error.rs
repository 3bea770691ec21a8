//! The error taxonomy: every failing operation returns one of these values.
use vstd::prelude::*;
use crate::numfmt::{dec_of, u128_to_dec};

verus! {

/// An error returned by a ledger, lifecycle, integrity or proof operation.
#[derive(Debug, Clone)]
pub enum IclError {
    AssetNotFound(u128),
    AssetAlreadyExists(u128),
    InvalidAsset(String),
    InvalidEvent(String),
    InvalidEntry(String),
    DepreciationError(String),
    IntegrityViolation(String),
    SerializationError(String),
    IntegrationError(String),
    InvalidDateRange { start: String, end: String },
    OverlappingDepreciation,
    AssetRetired(u128),
    UnsupportedFormat(String),
}

pub type IclResult<T> = Result<T, IclError>;

/// The description of an error value.
pub open spec fn describe_spec(e: IclError) -> Seq<char> {
    match e {
        IclError::AssetNotFound(id) => "Asset "@ + dec_of(id as int) + " not found"@,
        IclError::AssetAlreadyExists(id) => "Asset "@ + dec_of(id as int) + " already exists"@,
        IclError::InvalidAsset(m) => "Invalid asset: "@ + m@,
        IclError::InvalidEvent(m) => "Invalid event: "@ + m@,
        IclError::InvalidEntry(m) => "Invalid entry: "@ + m@,
        IclError::DepreciationError(m) => "Depreciation error: "@ + m@,
        IclError::IntegrityViolation(m) => "Integrity violation: "@ + m@,
        IclError::SerializationError(m) => "Serialization error: "@ + m@,
        IclError::IntegrationError(m) => "Integration error: "@ + m@,
        IclError::InvalidDateRange { start, end } => "Invalid date range: start "@ + start@
            + " must be before end "@ + end@,
        IclError::OverlappingDepreciation => "Overlapping depreciation period detected"@,
        IclError::AssetRetired(id) => "Asset "@ + dec_of(id as int)
            + " is retired and cannot be modified"@,
        IclError::UnsupportedFormat(m) => "Unsupported format: "@ + m@,
    }
}

impl IclError {
    /// A human-readable description of the error.
    pub fn describe(&self) -> (r: String)
        ensures
            r@ == describe_spec(*self),
    {
        match self {
            IclError::AssetNotFound(id) => {
                let mut out = "Asset ".to_owned();
                out.append(u128_to_dec(*id).as_str());
                out.append(" not found");
                assert(out@ =~= describe_spec(*self));
                out
            },
            IclError::AssetAlreadyExists(id) => {
                let mut out = "Asset ".to_owned();
                out.append(u128_to_dec(*id).as_str());
                out.append(" already exists");
                assert(out@ =~= describe_spec(*self));
                out
            },
            IclError::InvalidAsset(m) => {
                let mut out = "Invalid asset: ".to_owned();
                out.append(m.as_str());
                assert(out@ =~= describe_spec(*self));
                out
            },
            IclError::InvalidEvent(m) => {
                let mut out = "Invalid event: ".to_owned();
                out.append(m.as_str());
                assert(out@ =~= describe_spec(*self));
                out
            },
            IclError::InvalidEntry(m) => {
                let mut out = "Invalid entry: ".to_owned();
                out.append(m.as_str());
                assert(out@ =~= describe_spec(*self));
                out
            },
            IclError::DepreciationError(m) => {
                let mut out = "Depreciation error: ".to_owned();
                out.append(m.as_str());
                assert(out@ =~= describe_spec(*self));
                out
            },
            IclError::IntegrityViolation(m) => {
                let mut out = "Integrity violation: ".to_owned();
                out.append(m.as_str());
                assert(out@ =~= describe_spec(*self));
                out
            },
            IclError::SerializationError(m) => {
                let mut out = "Serialization error: ".to_owned();
                out.append(m.as_str());
                assert(out@ =~= describe_spec(*self));
                out
            },
            IclError::IntegrationError(m) => {
                let mut out = "Integration error: ".to_owned();
                out.append(m.as_str());
                assert(out@ =~= describe_spec(*self));
                out
            },
            IclError::InvalidDateRange { start, end } => {
                let mut out = "Invalid date range: start ".to_owned();
                out.append(start.as_str());
                out.append(" must be before end ");
                out.append(end.as_str());
                assert(out@ =~= describe_spec(*self));
                out
            },
            IclError::OverlappingDepreciation => {
                "Overlapping depreciation period detected".to_owned()
            },
            IclError::AssetRetired(id) => {
                let mut out = "Asset ".to_owned();
                out.append(u128_to_dec(*id).as_str());
                out.append(" is retired and cannot be modified");
                assert(out@ =~= describe_spec(*self));
                out
            },
            IclError::UnsupportedFormat(m) => {
                let mut out = "Unsupported format: ".to_owned();
                out.append(m.as_str());
                assert(out@ =~= describe_spec(*self));
                out
            },
        }
    }
}

} // verus!
