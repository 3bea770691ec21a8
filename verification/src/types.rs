//! The shared data model: assets, events, entries, journal entries and
//! audit proofs, each with a mathematical view.
use vstd::prelude::*;
use crate::attr::{
    bag_model, duplicate_bag, append_json_object, model_of, AttrBag, AttrModel, AttrValue,
    json_of,
};
use crate::numfmt::{dec_of, dec_of_signed, i64_to_dec, u128_to_dec};
use crate::outside::{sha256_hex, sha256_hex_of};

verus! {

broadcast use crate::attr::lemma_pair_models_of_len, crate::attr::lemma_pair_models_of_index;

/// The largest monetary amount the ledger accepts, so that every product
/// taken while depreciating fits in a 64-bit value.
pub const VALUE_CAP: i64 = 1_000_000_000_000;

/// The largest declining-balance rate multiplier, in hundredths.
pub const RATE_CAP: u64 = 1_000_000;

/// Status of an intelligence asset in its lifecycle.
#[derive(Debug, Clone, Copy, PartialEq, Eq, Hash, Structural)]
pub enum AssetStatus {
    Active,
    Depreciated,
    Retired,
}

impl AssetStatus {
    /// The fixed textual name of the status.
    pub fn as_text(&self) -> (r: String)
        ensures
            self is Active ==> r@ == "Active"@,
            self is Depreciated ==> r@ == "Depreciated"@,
            self is Retired ==> r@ == "Retired"@,
    {
        match self {
            AssetStatus::Active => "Active".to_owned(),
            AssetStatus::Depreciated => "Depreciated".to_owned(),
            AssetStatus::Retired => "Retired".to_owned(),
        }
    }
}

/// Method used to calculate depreciation over the asset's lifetime.
#[derive(Debug, Clone, Copy, PartialEq, Eq, Hash, Structural)]
pub enum DepreciationMethod {
    Linear,
    DecliningBalance,
}

impl DepreciationMethod {
    /// The fixed textual name of the method.
    pub fn as_text(&self) -> (r: String)
        ensures
            self is Linear ==> r@ == "Linear"@,
            self is DecliningBalance ==> r@ == "DecliningBalance"@,
    {
        match self {
            DepreciationMethod::Linear => "Linear".to_owned(),
            DepreciationMethod::DecliningBalance => "DecliningBalance".to_owned(),
        }
    }
}

/// Account types for double-entry journal entries.
#[derive(Debug, Clone, Copy, PartialEq, Eq, Hash, Structural)]
pub enum AccountType {
    Asset,
    AccumulatedDepreciation,
    DepreciationExpense,
}

impl AccountType {
    /// The fixed textual name of the account.
    pub fn as_text(&self) -> (r: String)
        ensures
            self is Asset ==> r@ == "Asset"@,
            self is AccumulatedDepreciation ==> r@ == "AccumulatedDepreciation"@,
            self is DepreciationExpense ==> r@ == "DepreciationExpense"@,
    {
        match self {
            AccountType::Asset => "Asset".to_owned(),
            AccountType::AccumulatedDepreciation => "AccumulatedDepreciation".to_owned(),
            AccountType::DepreciationExpense => "DepreciationExpense".to_owned(),
        }
    }
}

/// A capitalized intelligence asset with ownership and depreciation rules.
pub struct IntelligenceAsset {
    pub asset_id: u128,
    pub owner: String,
    pub initial_value: i64,
    pub depreciation_method: DepreciationMethod,
    pub useful_life_months: i32,
    pub created_at: i64,
    pub status: AssetStatus,
    pub current_value: Option<i64>,
}

/// The mathematical view of an asset.
pub struct AssetModel {
    pub asset_id: int,
    pub owner: Seq<char>,
    pub initial_value: int,
    pub depreciation_method: DepreciationMethod,
    pub useful_life_months: int,
    pub created_at: int,
    pub status: AssetStatus,
    pub current_value: Option<int>,
}

impl View for IntelligenceAsset {
    type V = AssetModel;

    open spec fn view(&self) -> AssetModel {
        AssetModel {
            asset_id: self.asset_id as int,
            owner: self.owner@,
            initial_value: self.initial_value as int,
            depreciation_method: self.depreciation_method,
            useful_life_months: self.useful_life_months as int,
            created_at: self.created_at as int,
            status: self.status,
            current_value: match self.current_value {
                Option::Some(v) => Option::Some(v as int),
                Option::None => Option::None,
            },
        }
    }
}

impl AssetModel {
    /// The book value: the current value, or the initial value when no
    /// current value has been recorded yet.
    pub open spec fn book_value(self) -> int {
        match self.current_value {
            Option::Some(v) => v,
            Option::None => self.initial_value,
        }
    }

    /// Well-formedness: positive capped initial value, positive life, and a
    /// current value between zero and the initial value when present.
    pub open spec fn wf(self) -> bool {
        &&& 0 < self.initial_value <= VALUE_CAP as int
        &&& 0 < self.useful_life_months
        &&& match self.current_value {
            Option::Some(v) => 0 <= v <= self.initial_value,
            Option::None => true,
        }
    }
}

impl IntelligenceAsset {
    /// A copy of the asset, equal to the original in its view.
    pub fn duplicate(&self) -> (r: Self)
        ensures
            r@ == self@,
    {
        IntelligenceAsset {
            asset_id: self.asset_id,
            owner: self.owner.clone(),
            initial_value: self.initial_value,
            depreciation_method: self.depreciation_method,
            useful_life_months: self.useful_life_months,
            created_at: self.created_at,
            status: self.status,
            current_value: self.current_value,
        }
    }
}

/// A discrete economic event affecting intelligence capital.
pub struct CapitalEvent {
    pub event_id: u128,
    pub asset_id: u128,
    pub event_type: String,
    pub timestamp: i64,
    pub details: AttrBag,
}

/// The mathematical view of an event.
pub struct EventModel {
    pub event_id: int,
    pub asset_id: int,
    pub event_type: Seq<char>,
    pub timestamp: int,
    pub details: Seq<(Seq<char>, AttrModel)>,
}

impl View for CapitalEvent {
    type V = EventModel;

    open spec fn view(&self) -> EventModel {
        EventModel {
            event_id: self.event_id as int,
            asset_id: self.asset_id as int,
            event_type: self.event_type@,
            timestamp: self.timestamp as int,
            details: bag_model(self.details),
        }
    }
}

impl CapitalEvent {
    /// A copy of the event, equal to the original in its view.
    pub fn duplicate(&self) -> (r: Self)
        ensures
            r@ == self@,
    {
        CapitalEvent {
            event_id: self.event_id,
            asset_id: self.asset_id,
            event_type: self.event_type.clone(),
            timestamp: self.timestamp,
            details: duplicate_bag(&self.details),
        }
    }
}

/// An immutable ledger entry derived from a capital event.
pub struct LedgerEntry {
    pub entry_id: u128,
    pub event_id: u128,
    pub asset_id: u128,
    pub timestamp: i64,
    pub amount: i64,
    pub description: String,
    pub metadata: AttrBag,
}

/// The mathematical view of a ledger entry.
pub struct EntryModel {
    pub entry_id: int,
    pub event_id: int,
    pub asset_id: int,
    pub timestamp: int,
    pub amount: int,
    pub description: Seq<char>,
    pub metadata: Seq<(Seq<char>, AttrModel)>,
}

impl View for LedgerEntry {
    type V = EntryModel;

    open spec fn view(&self) -> EntryModel {
        EntryModel {
            entry_id: self.entry_id as int,
            event_id: self.event_id as int,
            asset_id: self.asset_id as int,
            timestamp: self.timestamp as int,
            amount: self.amount as int,
            description: self.description@,
            metadata: bag_model(self.metadata),
        }
    }
}

/// A double-entry accounting journal entry.
pub struct JournalEntry {
    pub entry_id: u128,
    pub event_id: u128,
    pub timestamp: i64,
    pub debit_account: AccountType,
    pub credit_account: AccountType,
    pub amount: i64,
    pub description: String,
    pub metadata: AttrBag,
}

/// The mathematical view of a journal entry.
pub struct JournalModel {
    pub entry_id: int,
    pub event_id: int,
    pub timestamp: int,
    pub debit_account: AccountType,
    pub credit_account: AccountType,
    pub amount: int,
    pub description: Seq<char>,
    pub metadata: Seq<(Seq<char>, AttrModel)>,
}

impl View for JournalEntry {
    type V = JournalModel;

    open spec fn view(&self) -> JournalModel {
        JournalModel {
            entry_id: self.entry_id as int,
            event_id: self.event_id as int,
            timestamp: self.timestamp as int,
            debit_account: self.debit_account,
            credit_account: self.credit_account,
            amount: self.amount as int,
            description: self.description@,
            metadata: bag_model(self.metadata),
        }
    }
}

/// A machine-verifiable proof of capital state for audit purposes.
pub struct CapitalProof {
    pub proof_id: u128,
    pub asset_id: u128,
    pub event_id: Option<u128>,
    pub timestamp: i64,
    pub origin: String,
    pub content: AttrBag,
    pub previous_proof_hash: Option<String>,
    pub proof_hash: Option<String>,
}

/// The mathematical view of a proof.
pub struct ProofModel {
    pub proof_id: int,
    pub asset_id: int,
    pub event_id: Option<int>,
    pub timestamp: int,
    pub origin: Seq<char>,
    pub content: Seq<(Seq<char>, AttrModel)>,
    pub previous_proof_hash: Option<Seq<char>>,
    pub proof_hash: Option<Seq<char>>,
}

impl View for CapitalProof {
    type V = ProofModel;

    open spec fn view(&self) -> ProofModel {
        ProofModel {
            proof_id: self.proof_id as int,
            asset_id: self.asset_id as int,
            event_id: match self.event_id {
                Option::Some(id) => Option::Some(id as int),
                Option::None => Option::None,
            },
            timestamp: self.timestamp as int,
            origin: self.origin@,
            content: bag_model(self.content),
            previous_proof_hash: match &self.previous_proof_hash {
                Option::Some(h) => Option::Some(h@),
                Option::None => Option::None,
            },
            proof_hash: match &self.proof_hash {
                Option::Some(h) => Option::Some(h@),
                Option::None => Option::None,
            },
        }
    }
}

/// The text that a proof's hash is computed over: its identifier, its
/// timestamp, its rendered content, and the previous hash or nothing.
pub open spec fn hash_input_of(p: ProofModel) -> Seq<char> {
    dec_of(p.proof_id) + dec_of_signed(p.timestamp) + json_of(AttrModel::Obj(p.content)) + match p
        .previous_proof_hash {
        Option::Some(h) => h,
        Option::None => Seq::empty(),
    }
}

impl CapitalProof {
    /// A copy of the proof, equal to the original in its view.
    pub fn duplicate(&self) -> (r: Self)
        ensures
            r@ == self@,
    {
        CapitalProof {
            proof_id: self.proof_id,
            asset_id: self.asset_id,
            event_id: self.event_id,
            timestamp: self.timestamp,
            origin: self.origin.clone(),
            content: duplicate_bag(&self.content),
            previous_proof_hash: match &self.previous_proof_hash {
                Option::Some(h) => Option::Some(h.clone()),
                Option::None => Option::None,
            },
            proof_hash: match &self.proof_hash {
                Option::Some(h) => Option::Some(h.clone()),
                Option::None => Option::None,
            },
        }
    }

    /// The digest of the proof's own fields; any change to the identifier,
    /// timestamp, content or chain linkage changes the result.
    pub fn compute_hash(&self) -> (r: String)
        ensures
            r@ == sha256_hex_of(hash_input_of(self@)),
    {
        let mut input = u128_to_dec(self.proof_id);
        let rendered_ts = i64_to_dec(self.timestamp);
        input.append(rendered_ts.as_str());
        append_json_object(&mut input, &self.content);
        match &self.previous_proof_hash {
            Option::Some(h) => input.append(h.as_str()),
            Option::None => {},
        }
        assert(input@ =~= hash_input_of(self@));
        sha256_hex(input.as_str())
    }
}


/// The fixed textual name of a status, at the specification level.
pub open spec fn status_chars(s: AssetStatus) -> Seq<char> {
    match s {
        AssetStatus::Active => "Active"@,
        AssetStatus::Depreciated => "Depreciated"@,
        AssetStatus::Retired => "Retired"@,
    }
}

/// The fixed textual name of a method, at the specification level.
pub open spec fn method_chars(m: DepreciationMethod) -> Seq<char> {
    match m {
        DepreciationMethod::Linear => "Linear"@,
        DepreciationMethod::DecliningBalance => "DecliningBalance"@,
    }
}

/// The content bag a proof snapshots from an asset: its identifier, owner,
/// initial value, method, useful life, status, and current value (zero when
/// none has been recorded).
pub open spec fn spec_proof_content(a: AssetModel) -> Seq<(Seq<char>, AttrModel)> {
    seq![
        ("asset_id"@, AttrModel::Str(dec_of(a.asset_id))),
        ("owner"@, AttrModel::Str(a.owner)),
        ("initial_value"@, AttrModel::Int(a.initial_value)),
        ("depreciation_method"@, AttrModel::Str(method_chars(a.depreciation_method))),
        ("useful_life_months"@, AttrModel::Int(a.useful_life_months)),
        ("status"@, AttrModel::Str(status_chars(a.status))),
        ("current_value"@, AttrModel::Int(
            match a.current_value {
                Option::Some(v) => v,
                Option::None => 0,
            },
        )),
    ]
}

/// Builds the proof content bag for an asset snapshot.
pub fn build_proof_content(asset: &IntelligenceAsset) -> (r: AttrBag)
    ensures
        bag_model(r) == spec_proof_content(asset@),
{
    let mut bag: AttrBag = Vec::new();
    bag.push(("asset_id".to_owned(), AttrValue::Str(u128_to_dec(asset.asset_id))));
    bag.push(("owner".to_owned(), AttrValue::Str(asset.owner.clone())));
    bag.push(("initial_value".to_owned(), AttrValue::Int(asset.initial_value)));
    bag.push(
        ("depreciation_method".to_owned(), AttrValue::Str(asset.depreciation_method.as_text())),
    );
    bag.push(("useful_life_months".to_owned(), AttrValue::Int(asset.useful_life_months as i64)));
    bag.push(("status".to_owned(), AttrValue::Str(asset.status.as_text())));
    let current = match asset.current_value {
        Option::Some(v) => v,
        Option::None => 0i64,
    };
    bag.push(("current_value".to_owned(), AttrValue::Int(current)));
    assert(bag_model(bag) =~= spec_proof_content(asset@));
    bag
}


/// The fixed textual name of an account, at the specification level.
pub open spec fn account_chars(a: AccountType) -> Seq<char> {
    match a {
        AccountType::Asset => "Asset"@,
        AccountType::AccumulatedDepreciation => "AccumulatedDepreciation"@,
        AccountType::DepreciationExpense => "DepreciationExpense"@,
    }
}

/// The attribute form of an asset, as the export renders it.
pub open spec fn asset_attr(a: AssetModel) -> AttrModel {
    AttrModel::Obj(
        seq![
            ("asset_id"@, AttrModel::Str(dec_of(a.asset_id))),
            ("owner"@, AttrModel::Str(a.owner)),
            ("initial_value"@, AttrModel::Int(a.initial_value)),
            ("depreciation_method"@, AttrModel::Str(method_chars(a.depreciation_method))),
            ("useful_life_months"@, AttrModel::Int(a.useful_life_months)),
            ("created_at"@, AttrModel::Int(a.created_at)),
            ("status"@, AttrModel::Str(status_chars(a.status))),
            ("current_value"@, match a.current_value {
                Option::Some(v) => AttrModel::Int(v),
                Option::None => AttrModel::Null,
            }),
        ],
    )
}

/// Renders an asset into its attribute form.
pub fn asset_to_attr(asset: &IntelligenceAsset) -> (r: AttrValue)
    ensures
        model_of(r) == asset_attr(asset@),
{
    let mut bag: AttrBag = Vec::new();
    bag.push(("asset_id".to_owned(), AttrValue::Str(u128_to_dec(asset.asset_id))));
    bag.push(("owner".to_owned(), AttrValue::Str(asset.owner.clone())));
    bag.push(("initial_value".to_owned(), AttrValue::Int(asset.initial_value)));
    bag.push(
        ("depreciation_method".to_owned(), AttrValue::Str(asset.depreciation_method.as_text())),
    );
    bag.push(("useful_life_months".to_owned(), AttrValue::Int(asset.useful_life_months as i64)));
    bag.push(("created_at".to_owned(), AttrValue::Int(asset.created_at)));
    bag.push(("status".to_owned(), AttrValue::Str(asset.status.as_text())));
    let current = match asset.current_value {
        Option::Some(v) => AttrValue::Int(v),
        Option::None => AttrValue::Null,
    };
    bag.push(("current_value".to_owned(), current));
    let out = AttrValue::Obj(bag);
    proof {
        let target = asset_attr(asset@);
        assert(bag_model(bag) =~= target->Obj_0);
    }
    out
}

} // verus!
