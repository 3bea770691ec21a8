pub mod attr;
pub mod date;
pub mod depreciation;
pub mod error;
pub mod integrity;
pub mod ledger;
pub mod lifecycle;
pub mod numfmt;
pub mod proofs;
pub mod outside;
pub mod types;

pub use crate::attr::{AttrBag, AttrModel, AttrValue};
pub use crate::date::{months_between, format_date, parse_date, CalendarDate};
pub use crate::depreciation::{
    calculate_depreciation, declining_balance_depreciation, linear_depreciation,
};
pub use crate::error::{IclError, IclResult};
pub use crate::integrity::IntegrityChecker;
pub use crate::ledger::IntelligenceCapitalLedger;
pub use crate::lifecycle::IntelligenceCapitalLifecycle;
pub use crate::proofs::CapitalProofGenerator;
pub use crate::numfmt::{i64_to_dec, u128_to_dec};
pub use crate::types::{
    AccountType, AssetStatus, CapitalEvent, CapitalProof, DepreciationMethod, IntelligenceAsset,
    JournalEntry, LedgerEntry, RATE_CAP, VALUE_CAP,
};
