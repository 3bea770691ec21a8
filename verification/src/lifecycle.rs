//! The lifecycle orchestrator: the asset state machine, and the only
//! component that performs multi-step writes — an event plus its derived
//! entry, and where owed, a journal entry.
use vstd::prelude::*;
use crate::attr::{bag_get, bag_int_or_zero, bag_model, AttrBag, AttrModel, AttrValue};
use crate::date::{date_chars, format_date, spec_months_between, CalendarDate};
use crate::depreciation::{calculate_depreciation, lemma_calculate_bounds, spec_calculate};
use crate::error::{IclError, IclResult};
use crate::integrity::{period_overlaps_existing, IntegrityChecker};
use crate::ledger::IntelligenceCapitalLedger;
use crate::numfmt::{dec_of, u128_to_dec};
use crate::outside::{fresh_id, now_ts};
use crate::types::{
    AccountType, AssetModel, AssetStatus, CapitalEvent, DepreciationMethod, IntelligenceAsset,
    JournalEntry, RATE_CAP, VALUE_CAP,
};

verus! {

broadcast use crate::attr::lemma_pair_models_of_len, crate::attr::lemma_pair_models_of_index;

/// The asset state machine. Each operation validates against the asset as
/// the ledger holds it, then writes back through the ledger.
pub struct IntelligenceCapitalLifecycle;

/// The outcome a successful depreciation call computes for an asset on the
/// ledger: the amount taken and the new value.
pub open spec fn dep_outcome(
    l: IntelligenceCapitalLedger,
    id: int,
    start: CalendarDate,
    end: CalendarDate,
    salvage: int,
    rate: int,
) -> (int, int) {
    let a = l.spec_asset(id);
    spec_calculate(
        a.depreciation_method,
        a.initial_value,
        a.book_value(),
        a.useful_life_months,
        spec_months_between(start, end),
        salvage,
        rate,
    )
}

impl IntelligenceCapitalLifecycle {
    /// An orchestrator; it borrows the ledger one operation at a time.
    pub fn new() -> (r: Self) {
        IntelligenceCapitalLifecycle
    }

    /// Capitalizes an asset: creates it on the ledger and books the opening
    /// journal entry (debit Asset, credit AccumulatedDepreciation) for its
    /// initial value.
    pub fn capitalize(
        &self,
        ledger: &mut IntelligenceCapitalLedger,
        asset_id: u128,
        owner: String,
        initial_value: i64,
        depreciation_method: DepreciationMethod,
        useful_life_months: i32,
    ) -> (r: IclResult<IntelligenceAsset>)
        requires
            old(ledger).wf(),
            initial_value <= VALUE_CAP,
        ensures
            final(ledger).wf(),
            final(ledger).events@ == old(ledger).events@,
            final(ledger).entries@ == old(ledger).entries@,
            final(ledger).proofs@ == old(ledger).proofs@,
            r is Err ==> final(ledger).assets@ == old(ledger).assets@ && final(ledger).journal_entries@ == old(ledger).journal_entries@,
            old(ledger).has_asset(asset_id as int) ==> (r matches Err(e) && e matches
                IclError::AssetAlreadyExists(id) && id == asset_id),
            !old(ledger).has_asset(asset_id as int) && owner@.len() == 0 ==> (r matches Err(e)
                && e is InvalidAsset),
            !old(ledger).has_asset(asset_id as int) && owner@.len() > 0 && initial_value <= 0 ==> (
            r matches Err(e) && e is InvalidAsset),
            !old(ledger).has_asset(asset_id as int) && owner@.len() > 0 && initial_value > 0
                && useful_life_months <= 0 ==> (r matches Err(e) && e is InvalidAsset),
            !old(ledger).has_asset(asset_id as int) && owner@.len() > 0 && initial_value > 0
                && useful_life_months > 0 ==> (r matches Ok(a) && {
                &&& a@.asset_id == asset_id as int
                &&& a@.owner == owner@
                &&& a@.initial_value == initial_value as int
                &&& a@.status == AssetStatus::Active
                &&& a@.current_value == Option::Some(initial_value as int)
                &&& final(ledger).assets@.len() == old(ledger).assets@.len() + 1
                &&& final(ledger).assets@.last()@ == a@
                &&& final(ledger).assets@.drop_last() == old(ledger).assets@
                &&& final(ledger).journal_entries@.len() == old(ledger).journal_entries@.len()
                    + 1
                &&& final(ledger).journal_entries@.drop_last() == old(ledger).journal_entries@
                &&& {
                    let je = final(ledger).journal_entries@.last()@;
                    &&& je.debit_account == AccountType::Asset
                    &&& je.credit_account == AccountType::AccumulatedDepreciation
                    &&& je.amount == initial_value as int
                    &&& je.description == "Asset capitalization"@
                    &&& je.metadata == seq![
                        ("asset_id"@, AttrModel::Str(dec_of(asset_id as int))),
                        ("owner"@, AttrModel::Str(owner@)),
                        ("initial_value"@, AttrModel::Int(initial_value as int)),
                    ]
                }
            }),
    {
        let asset = match ledger.create_asset(
            asset_id,
            owner,
            initial_value,
            depreciation_method,
            useful_life_months,
        ) {
            Ok(a) => a,
            Err(e) => {
                return Err(e);
            },
        };
        let mut metadata: AttrBag = Vec::new();
        metadata.push(("asset_id".to_owned(), AttrValue::Str(u128_to_dec(asset_id))));
        metadata.push(("owner".to_owned(), AttrValue::Str(asset.owner.clone())));
        metadata.push(("initial_value".to_owned(), AttrValue::Int(initial_value)));
        let journal_entry = JournalEntry {
            entry_id: fresh_id(),
            event_id: fresh_id(),
            timestamp: now_ts(),
            debit_account: AccountType::Asset,
            credit_account: AccountType::AccumulatedDepreciation,
            amount: initial_value,
            description: "Asset capitalization".to_owned(),
            metadata,
        };
        proof {
            assert(bag_model(journal_entry.metadata) =~= seq![
                ("asset_id"@, AttrModel::Str(dec_of(asset_id as int))),
                ("owner"@, AttrModel::Str(asset@.owner)),
                ("initial_value"@, AttrModel::Int(initial_value as int)),
            ]);
        }
        match ledger.record_journal_entry(journal_entry) {
            Ok(_) => {},
            Err(e) => {
                return Err(e);
            },
        }
        Ok(asset)
    }

    /// Reassigns ownership: refused for a retired asset; otherwise the
    /// owner is overwritten in place and an `allocation` event carrying the
    /// old and new owner is recorded.
    pub fn allocate(
        &self,
        ledger: &mut IntelligenceCapitalLedger,
        asset_id: u128,
        target_owner: String,
    ) -> (r: IclResult<CapitalEvent>)
        requires
            old(ledger).wf(),
        ensures
            final(ledger).wf(),
            final(ledger).journal_entries@ == old(ledger).journal_entries@,
            final(ledger).proofs@ == old(ledger).proofs@,
            r is Err ==> final(ledger).assets@ == old(ledger).assets@ && final(ledger).events@
                == old(ledger).events@ && final(ledger).entries@ == old(ledger).entries@,
            !old(ledger).has_asset(asset_id as int) ==> (r matches Err(e) && e matches
                IclError::AssetNotFound(id) && id == asset_id),
            old(ledger).has_asset(asset_id as int) && old(ledger).spec_asset(asset_id as int).status
                is Retired ==> (r matches Err(e) && e matches IclError::AssetRetired(id) && id
                == asset_id),
            old(ledger).has_asset(asset_id as int) && !(old(ledger).spec_asset(
                asset_id as int,
            ).status is Retired) ==> (r matches Ok(ev) && {
                &&& ev@.asset_id == asset_id as int
                &&& ev@.event_type == "allocation"@
                &&& ev@.details == seq![
                    ("from_owner"@, AttrModel::Str(old(ledger).spec_asset(asset_id as int).owner)),
                    ("to_owner"@, AttrModel::Str(target_owner@)),
                ]
                &&& final(ledger).events@.len() == old(ledger).events@.len() + 1
                &&& final(ledger).events@.last()@ == ev@
                &&& final(ledger).events@.drop_last() == old(ledger).events@
                &&& final(ledger).entries@.len() == old(ledger).entries@.len() + 1
                &&& final(ledger).entries@.drop_last() == old(ledger).entries@
                &&& {
                    let entry = final(ledger).entries@.last()@;
                    &&& entry.event_id == ev@.event_id
                    &&& entry.asset_id == asset_id as int
                    &&& entry.timestamp == ev@.timestamp
                    &&& entry.amount == 0
                    &&& entry.description == "allocation"@
                    &&& entry.metadata == ev@.details
                }
                &&& exists|i: int|
                    {
                        &&& 0 <= i < old(ledger).assets@.len()
                        &&& old(ledger).assets@[i]@.asset_id == asset_id as int
                        &&& #[trigger] final(ledger).assets@ == old(ledger).assets@.update(
                            i,
                            final(ledger).assets@[i],
                        )
                        &&& final(ledger).assets@[i]@ == AssetModel {
                            owner: target_owner@,
                            ..old(ledger).assets@[i]@
                        }
                    }
            }),
    {
        let idx = match ledger.find_asset_index(asset_id) {
            Option::Some(i) => i,
            Option::None => {
                return Err(IclError::AssetNotFound(asset_id));
            },
        };
        proof {
            let k = choose|k: int|
                0 <= k < ledger.assets@.len() && ledger.assets@[k]@.asset_id == asset_id as int;
            assert(k == idx);
        }
        if matches!(ledger.assets[idx].status, AssetStatus::Retired) {
            return Err(IclError::AssetRetired(asset_id));
        }
        let old_owner = ledger.assets[idx].owner.clone();
        let mut updated = ledger.assets[idx].duplicate();
        updated.owner = target_owner.clone();
        let ghost pre_assets = ledger.assets@;
        ledger.assets[idx] = updated;
        proof {
            assert(forall|i: int|
                0 <= i < ledger.assets@.len() ==> (#[trigger] ledger.assets@[i])@.asset_id
                    == pre_assets[i]@.asset_id);
            assert(forall|i: int|
                0 <= i < ledger.assets@.len() ==> (#[trigger] ledger.assets@[i])@.wf());
        }
        let mut details: AttrBag = Vec::new();
        details.push(("from_owner".to_owned(), AttrValue::Str(old_owner)));
        details.push(("to_owner".to_owned(), AttrValue::Str(target_owner)));
        let event = CapitalEvent {
            event_id: fresh_id(),
            asset_id,
            event_type: "allocation".to_owned(),
            timestamp: now_ts(),
            details,
        };
        proof {
            reveal_strlit("allocation");
            assert(bag_model(event.details) =~= seq![
                ("from_owner"@, AttrModel::Str(pre_assets[idx as int]@.owner)),
                ("to_owner"@, AttrModel::Str(target_owner@)),
            ]);
            reveal_strlit("amount");
            reveal_strlit("from_owner");
            reveal_strlit("to_owner");
            let dm = bag_model(event.details);
            let d1 = dm.drop_last();
            assert(dm.len() == 2);
            assert(dm.last().0 == "to_owner"@);
            assert(dm.last().0 != "amount"@);
            assert(bag_get(dm, "amount"@) == bag_get(d1, "amount"@));
            assert(d1.len() == 1);
            assert(d1.last() == dm[0]);
            assert(dm[0].0 == "from_owner"@);
            assert("from_owner"@ != "amount"@) by {
                reveal_strlit("from_owner");
                reveal_strlit("amount");
                assert("from_owner"@.len() == 10);
                assert("amount"@.len() == 6);
            };
            assert(d1.last().0 != "amount"@);
            assert(bag_get(d1, "amount"@) == bag_get(d1.drop_last(), "amount"@));
            assert(d1.drop_last().len() == 0);
            assert(bag_get(d1.drop_last(), "amount"@) is None);
            assert(bag_int_or_zero(dm, "amount"@) == 0);
            assert(ledger.has_asset(asset_id as int)) by {
                assert(ledger.assets@[idx as int]@.asset_id == asset_id as int);
            };
        }
        let returned = event.duplicate();
        match ledger.record_event(event) {
            Ok(_) => {},
            Err(e) => {
                return Err(e);
            },
        }
        Ok(returned)
    }

    /// Records a `utilization` event carrying a positive amount; usage is
    /// informational and does not change the asset's value.
    pub fn utilize(
        &self,
        ledger: &mut IntelligenceCapitalLedger,
        asset_id: u128,
        amount: i64,
    ) -> (r: IclResult<CapitalEvent>)
        requires
            old(ledger).wf(),
        ensures
            final(ledger).wf(),
            final(ledger).assets@ == old(ledger).assets@,
            final(ledger).journal_entries@ == old(ledger).journal_entries@,
            final(ledger).proofs@ == old(ledger).proofs@,
            r is Err ==> final(ledger).events@ == old(ledger).events@ && final(ledger).entries@
                == old(ledger).entries@,
            !old(ledger).has_asset(asset_id as int) ==> (r matches Err(e) && e matches
                IclError::AssetNotFound(id) && id == asset_id),
            old(ledger).has_asset(asset_id as int) && amount <= 0 ==> (r matches Err(e) && (
            e matches IclError::InvalidEvent(m) && m@ == "Utilization amount must be positive"@)),
            old(ledger).has_asset(asset_id as int) && amount > 0 ==> (r matches Ok(ev) && {
                &&& ev@.asset_id == asset_id as int
                &&& ev@.event_type == "utilization"@
                &&& ev@.details == seq![("amount"@, AttrModel::Int(amount as int))]
                &&& final(ledger).events@.len() == old(ledger).events@.len() + 1
                &&& final(ledger).events@.last()@ == ev@
                &&& final(ledger).events@.drop_last() == old(ledger).events@
                &&& final(ledger).entries@.len() == old(ledger).entries@.len() + 1
                &&& final(ledger).entries@.drop_last() == old(ledger).entries@
                &&& final(ledger).entries@.last()@.amount == amount as int
            }),
    {
        if ledger.find_asset_index(asset_id).is_none() {
            return Err(IclError::AssetNotFound(asset_id));
        }
        if amount <= 0 {
            return Err(IclError::InvalidEvent("Utilization amount must be positive".to_owned()));
        }
        let mut details: AttrBag = Vec::new();
        details.push(("amount".to_owned(), AttrValue::Int(amount)));
        let event = CapitalEvent {
            event_id: fresh_id(),
            asset_id,
            event_type: "utilization".to_owned(),
            timestamp: now_ts(),
            details,
        };
        proof {
            reveal_strlit("utilization");
            assert(bag_model(event.details) =~= seq![("amount"@, AttrModel::Int(amount as int))]);
        }
        let returned = event.duplicate();
        match ledger.record_event(event) {
            Ok(_) => {},
            Err(e) => {
                return Err(e);
            },
        }
        Ok(returned)
    }

    /// Retires an asset: terminal. The remaining value is captured, the
    /// status becomes Retired and the value zero, a `retirement` event is
    /// recorded, and a write-off journal entry (debit
    /// AccumulatedDepreciation, credit Asset) is booked exactly when the
    /// captured value was positive.
    pub fn retire(&self, ledger: &mut IntelligenceCapitalLedger, asset_id: u128) -> (r: IclResult<
        CapitalEvent,
    >)
        requires
            old(ledger).wf(),
        ensures
            final(ledger).wf(),
            final(ledger).proofs@ == old(ledger).proofs@,
            r is Err ==> final(ledger).assets@ == old(ledger).assets@ && final(ledger).events@
                == old(ledger).events@ && final(ledger).entries@ == old(ledger).entries@ && final(ledger).journal_entries@ == old(ledger).journal_entries@,
            !old(ledger).has_asset(asset_id as int) ==> (r matches Err(e) && e matches
                IclError::AssetNotFound(id) && id == asset_id),
            old(ledger).has_asset(asset_id as int) && old(ledger).spec_asset(asset_id as int).status
                is Retired ==> (r matches Err(e) && e matches IclError::AssetRetired(id) && id
                == asset_id),
            old(ledger).has_asset(asset_id as int) && !(old(ledger).spec_asset(
                asset_id as int,
            ).status is Retired) ==> (r matches Ok(ev) && {
                let captured = old(ledger).spec_asset(asset_id as int).current_value;
                let captured_or_zero = match captured {
                    Option::Some(v) => v,
                    Option::None => 0,
                };
                &&& ev@.asset_id == asset_id as int
                &&& ev@.event_type == "retirement"@
                &&& ev@.details == seq![("retired_value"@, AttrModel::Int(captured_or_zero))]
                &&& final(ledger).events@.len() == old(ledger).events@.len() + 1
                &&& final(ledger).events@.last()@ == ev@
                &&& final(ledger).events@.drop_last() == old(ledger).events@
                &&& final(ledger).entries@.len() == old(ledger).entries@.len() + 1
                &&& final(ledger).entries@.drop_last() == old(ledger).entries@
                &&& {
                    let entry = final(ledger).entries@.last()@;
                    &&& entry.event_id == ev@.event_id
                    &&& entry.asset_id == asset_id as int
                    &&& entry.timestamp == ev@.timestamp
                    &&& entry.amount == 0
                    &&& entry.description == "retirement"@
                    &&& entry.metadata == ev@.details
                }
                &&& exists|i: int|
                    {
                        &&& 0 <= i < old(ledger).assets@.len()
                        &&& old(ledger).assets@[i]@.asset_id == asset_id as int
                        &&& #[trigger] final(ledger).assets@ == old(ledger).assets@.update(
                            i,
                            final(ledger).assets@[i],
                        )
                        &&& final(ledger).assets@[i]@ == AssetModel {
                            status: AssetStatus::Retired,
                            current_value: Option::Some(0),
                            ..old(ledger).assets@[i]@
                        }
                    }
                &&& (captured matches Option::Some(v) && v > 0) ==> {
                    &&& final(ledger).journal_entries@.len() == old(ledger).journal_entries@.len() + 1
                    &&& final(ledger).journal_entries@.drop_last() == old(ledger).journal_entries@
                    &&& {
                        let je = final(ledger).journal_entries@.last()@;
                        &&& je.event_id == ev@.event_id
                        &&& je.debit_account == AccountType::AccumulatedDepreciation
                        &&& je.credit_account == AccountType::Asset
                        &&& je.amount == captured_or_zero
                        &&& je.description == "Asset retirement write-off"@
                    }
                }
                &&& !(captured matches Option::Some(v) && v > 0) ==> final(ledger).journal_entries@ == old(ledger).journal_entries@
            }),
    {
        let idx = match ledger.find_asset_index(asset_id) {
            Option::Some(i) => i,
            Option::None => {
                return Err(IclError::AssetNotFound(asset_id));
            },
        };
        proof {
            let k = choose|k: int|
                0 <= k < ledger.assets@.len() && ledger.assets@[k]@.asset_id == asset_id as int;
            assert(k == idx);
        }
        if matches!(ledger.assets[idx].status, AssetStatus::Retired) {
            return Err(IclError::AssetRetired(asset_id));
        }
        let remaining_value = ledger.assets[idx].current_value;
        let mut updated = ledger.assets[idx].duplicate();
        updated.status = AssetStatus::Retired;
        updated.current_value = Option::Some(0);
        let ghost pre_assets = ledger.assets@;
        ledger.assets[idx] = updated;
        proof {
            assert(forall|i: int|
                0 <= i < ledger.assets@.len() ==> (#[trigger] ledger.assets@[i])@.asset_id
                    == pre_assets[i]@.asset_id);
            assert(forall|i: int|
                0 <= i < ledger.assets@.len() ==> (#[trigger] ledger.assets@[i])@.wf());
            assert(ledger.has_asset(asset_id as int)) by {
                assert(ledger.assets@[idx as int]@.asset_id == asset_id as int);
            };
        }
        let retired_value = match remaining_value {
            Option::Some(v) => v,
            Option::None => 0i64,
        };
        let mut details: AttrBag = Vec::new();
        details.push(("retired_value".to_owned(), AttrValue::Int(retired_value)));
        let event = CapitalEvent {
            event_id: fresh_id(),
            asset_id,
            event_type: "retirement".to_owned(),
            timestamp: now_ts(),
            details,
        };
        proof {
            reveal_strlit("retirement");
            assert(bag_model(event.details) =~= seq![
                ("retired_value"@, AttrModel::Int(retired_value as int)),
            ]);
            reveal_strlit("amount");
            reveal_strlit("retired_value");
            let dm = bag_model(event.details);
            assert(dm.len() == 1);
            assert(dm.last().0 == "retired_value"@);
            assert(dm.last().0 != "amount"@);
            assert(bag_get(dm, "amount"@) == bag_get(dm.drop_last(), "amount"@));
            assert(dm.drop_last().len() == 0);
            assert(bag_get(dm.drop_last(), "amount"@) is None);
            assert(bag_int_or_zero(dm, "amount"@) == 0);
        }
        let returned = event.duplicate();
        let event_id = event.event_id;
        match ledger.record_event(event) {
            Ok(_) => {},
            Err(e) => {
                return Err(e);
            },
        }
        let write_off = match remaining_value {
            Option::Some(v) => v > 0,
            Option::None => false,
        };
        if write_off {
            let mut metadata: AttrBag = Vec::new();
            metadata.push(("asset_id".to_owned(), AttrValue::Str(u128_to_dec(asset_id))));
            metadata.push(("retired_value".to_owned(), AttrValue::Int(retired_value)));
            let journal_entry = JournalEntry {
                entry_id: fresh_id(),
                event_id,
                timestamp: now_ts(),
                debit_account: AccountType::AccumulatedDepreciation,
                credit_account: AccountType::Asset,
                amount: retired_value,
                description: "Asset retirement write-off".to_owned(),
                metadata,
            };
            match ledger.record_journal_entry(journal_entry) {
                Ok(_) => {},
                Err(e) => {
                    return Err(e);
                },
            }
        }
        Ok(returned)
    }

    /// Depreciates an asset over a period: refused for a retired asset, a
    /// backward period, a period overlapping a recorded depreciation, or a
    /// salvage floor that is negative or above the initial value. On
    /// success the value falls to the computed new value, the status
    /// becomes Depreciated when the value reaches the floor, a
    /// `depreciation` event carrying the whole computation is recorded,
    /// and a journal entry (debit DepreciationExpense, credit
    /// AccumulatedDepreciation) is booked exactly when the amount taken
    /// was positive.
    #[verifier::rlimit(100)]
    pub fn depreciate(
        &self,
        ledger: &mut IntelligenceCapitalLedger,
        asset_id: u128,
        start_date: CalendarDate,
        end_date: CalendarDate,
        salvage_value: i64,
        rate_multiplier: u64,
    ) -> (r: IclResult<CapitalEvent>)
        requires
            old(ledger).wf(),
            start_date.valid(),
            end_date.valid(),
            rate_multiplier <= RATE_CAP,
        ensures
            final(ledger).wf(),
            final(ledger).proofs@ == old(ledger).proofs@,
            r is Err ==> final(ledger).assets@ == old(ledger).assets@ && final(ledger).events@
                == old(ledger).events@ && final(ledger).entries@ == old(ledger).entries@ && final(ledger).journal_entries@ == old(ledger).journal_entries@,
            !old(ledger).has_asset(asset_id as int) ==> (r matches Err(e) && e matches
                IclError::AssetNotFound(id) && id == asset_id),
            old(ledger).has_asset(asset_id as int) && old(ledger).spec_asset(asset_id as int).status
                is Retired ==> (r matches Err(e) && e matches IclError::AssetRetired(id) && id
                == asset_id),
            old(ledger).has_asset(asset_id as int) && !(old(ledger).spec_asset(
                asset_id as int,
            ).status is Retired) && !start_date.before(end_date) ==> (r matches Err(e) && (
            e matches IclError::InvalidDateRange { start: s, end: en } && s@ == date_chars(
                start_date,
            ) && en@ == date_chars(end_date))),
            old(ledger).has_asset(asset_id as int) && !(old(ledger).spec_asset(
                asset_id as int,
            ).status is Retired) && start_date.before(end_date) && period_overlaps_existing(
                old(ledger).events@,
                asset_id as int,
                start_date,
                end_date,
            ) ==> r matches Err(IclError::OverlappingDepreciation),
            old(ledger).has_asset(asset_id as int) && !(old(ledger).spec_asset(
                asset_id as int,
            ).status is Retired) && start_date.before(end_date) && !period_overlaps_existing(
                old(ledger).events@,
                asset_id as int,
                start_date,
                end_date,
            ) && salvage_value < 0 ==> (r matches Err(e) && e is DepreciationError),
            old(ledger).has_asset(asset_id as int) && !(old(ledger).spec_asset(
                asset_id as int,
            ).status is Retired) && start_date.before(end_date) && !period_overlaps_existing(
                old(ledger).events@,
                asset_id as int,
                start_date,
                end_date,
            ) && salvage_value >= 0 && salvage_value > old(ledger).spec_asset(
                asset_id as int,
            ).initial_value ==> (r matches Err(e) && e is DepreciationError),
            old(ledger).has_asset(asset_id as int) && !(old(ledger).spec_asset(
                asset_id as int,
            ).status is Retired) && start_date.before(end_date) && !period_overlaps_existing(
                old(ledger).events@,
                asset_id as int,
                start_date,
                end_date,
            ) && 0 <= salvage_value <= old(ledger).spec_asset(asset_id as int).initial_value ==> (
            r matches Ok(ev) && {
                let previous = old(ledger).spec_asset(asset_id as int).book_value();
                let outcome = dep_outcome(
                    *old(ledger),
                    asset_id as int,
                    start_date,
                    end_date,
                    salvage_value as int,
                    rate_multiplier as int,
                );
                &&& ev@.asset_id == asset_id as int
                &&& ev@.event_type == "depreciation"@
                &&& ev@.details == seq![
                    ("amount"@, AttrModel::Int(outcome.0)),
                    ("start_date"@, AttrModel::Str(date_chars(start_date))),
                    ("end_date"@, AttrModel::Str(date_chars(end_date))),
                    ("salvage_value"@, AttrModel::Int(salvage_value as int)),
                    ("rate_multiplier"@, AttrModel::Int(rate_multiplier as int)),
                    ("previous_value"@, AttrModel::Int(previous)),
                    ("new_value"@, AttrModel::Int(outcome.1)),
                ]
                &&& final(ledger).events@.len() == old(ledger).events@.len() + 1
                &&& final(ledger).events@.last()@ == ev@
                &&& final(ledger).events@.drop_last() == old(ledger).events@
                &&& final(ledger).entries@.len() == old(ledger).entries@.len() + 1
                &&& final(ledger).entries@.drop_last() == old(ledger).entries@
                &&& {
                    let entry = final(ledger).entries@.last()@;
                    &&& entry.event_id == ev@.event_id
                    &&& entry.asset_id == asset_id as int
                    &&& entry.timestamp == ev@.timestamp
                    &&& entry.amount == outcome.0
                    &&& entry.description == "depreciation"@
                    &&& entry.metadata == ev@.details
                }
                &&& exists|i: int|
                    {
                        &&& 0 <= i < old(ledger).assets@.len()
                        &&& old(ledger).assets@[i]@.asset_id == asset_id as int
                        &&& #[trigger] final(ledger).assets@ == old(ledger).assets@.update(
                            i,
                            final(ledger).assets@[i],
                        )
                        &&& final(ledger).assets@[i]@ == AssetModel {
                            status: if outcome.1 <= salvage_value as int {
                                AssetStatus::Depreciated
                            } else {
                                old(ledger).assets@[i]@.status
                            },
                            current_value: Option::Some(outcome.1),
                            ..old(ledger).assets@[i]@
                        }
                    }
                &&& outcome.0 > 0 ==> {
                    &&& final(ledger).journal_entries@.len() == old(ledger).journal_entries@.len() + 1
                    &&& final(ledger).journal_entries@.drop_last() == old(ledger).journal_entries@
                    &&& {
                        let je = final(ledger).journal_entries@.last()@;
                        &&& je.event_id == ev@.event_id
                        &&& je.debit_account == AccountType::DepreciationExpense
                        &&& je.credit_account == AccountType::AccumulatedDepreciation
                        &&& je.amount == outcome.0
                        &&& je.description == "Asset depreciation"@
                    }
                }
                &&& outcome.0 <= 0 ==> final(ledger).journal_entries@ == old(ledger).journal_entries@
            }),
    {
        let idx = match ledger.find_asset_index(asset_id) {
            Option::Some(i) => i,
            Option::None => {
                return Err(IclError::AssetNotFound(asset_id));
            },
        };
        proof {
            let k = choose|k: int|
                0 <= k < ledger.assets@.len() && ledger.assets@[k]@.asset_id == asset_id as int;
            assert(k == idx);
        }
        if matches!(ledger.assets[idx].status, AssetStatus::Retired) {
            return Err(IclError::AssetRetired(asset_id));
        }
        {
            let checker = IntegrityChecker::new(ledger);
            match checker.validate_depreciation_period(asset_id, start_date, end_date) {
                Ok(_) => {},
                Err(e) => {
                    return Err(e);
                },
            }
        }
        let previous_value = match ledger.assets[idx].current_value {
            Option::Some(v) => v,
            Option::None => ledger.assets[idx].initial_value,
        };
        let (depreciation_amount, new_value) = match calculate_depreciation(
            &ledger.assets[idx],
            start_date,
            end_date,
            salvage_value,
            rate_multiplier,
        ) {
            Ok(p) => p,
            Err(e) => {
                return Err(e);
            },
        };
        proof {
            lemma_calculate_bounds(
                ledger.assets@[idx as int]@.depreciation_method,
                ledger.assets@[idx as int]@.initial_value,
                ledger.assets@[idx as int]@.book_value(),
                ledger.assets@[idx as int]@.useful_life_months,
                spec_months_between(start_date, end_date),
                salvage_value as int,
                rate_multiplier as int,
            );
        }
        let mut updated = ledger.assets[idx].duplicate();
        updated.current_value = Option::Some(new_value);
        if new_value <= salvage_value {
            updated.status = AssetStatus::Depreciated;
        }
        let ghost pre_assets = ledger.assets@;
        ledger.assets[idx] = updated;
        proof {
            assert(forall|i: int|
                0 <= i < ledger.assets@.len() ==> (#[trigger] ledger.assets@[i])@.asset_id
                    == pre_assets[i]@.asset_id);
            assert(forall|i: int|
                0 <= i < ledger.assets@.len() ==> (#[trigger] ledger.assets@[i])@.wf());
            assert(ledger.has_asset(asset_id as int)) by {
                assert(ledger.assets@[idx as int]@.asset_id == asset_id as int);
            };
        }
        let mut details: AttrBag = Vec::new();
        details.push(("amount".to_owned(), AttrValue::Int(depreciation_amount)));
        details.push(("start_date".to_owned(), AttrValue::Str(format_date(&start_date))));
        details.push(("end_date".to_owned(), AttrValue::Str(format_date(&end_date))));
        details.push(("salvage_value".to_owned(), AttrValue::Int(salvage_value)));
        details.push(("rate_multiplier".to_owned(), AttrValue::Int(rate_multiplier as i64)));
        details.push(("previous_value".to_owned(), AttrValue::Int(previous_value)));
        details.push(("new_value".to_owned(), AttrValue::Int(new_value)));
        let event = CapitalEvent {
            event_id: fresh_id(),
            asset_id,
            event_type: "depreciation".to_owned(),
            timestamp: now_ts(),
            details,
        };
        proof {
            reveal_strlit("depreciation");
            assert(bag_model(event.details) =~= seq![
                ("amount"@, AttrModel::Int(depreciation_amount as int)),
                ("start_date"@, AttrModel::Str(date_chars(start_date))),
                ("end_date"@, AttrModel::Str(date_chars(end_date))),
                ("salvage_value"@, AttrModel::Int(salvage_value as int)),
                ("rate_multiplier"@, AttrModel::Int(rate_multiplier as int)),
                ("previous_value"@, AttrModel::Int(previous_value as int)),
                ("new_value"@, AttrModel::Int(new_value as int)),
            ]);
            reveal_strlit("amount");
            reveal_strlit("start_date");
            reveal_strlit("end_date");
            reveal_strlit("salvage_value");
            reveal_strlit("rate_multiplier");
            reveal_strlit("previous_value");
            reveal_strlit("new_value");
            let dm = bag_model(event.details);
            let d6 = dm.drop_last();
            let d5 = d6.drop_last();
            let d4 = d5.drop_last();
            let d3 = d4.drop_last();
            let d2 = d3.drop_last();
            let d1 = d2.drop_last();
            assert(dm.len() == 7);
            assert(dm[0].0 == "amount"@);
            assert(dm[1].0 == "start_date"@);
            assert(dm[2].0 == "end_date"@);
            assert(dm[3].0 == "salvage_value"@);
            assert(dm[4].0 == "rate_multiplier"@);
            assert(dm[5].0 == "previous_value"@);
            assert(dm[6].0 == "new_value"@);
            assert(dm.last().0 == "new_value"@ && dm.last().0 != "amount"@);
            assert(bag_get(dm, "amount"@) == bag_get(d6, "amount"@));
            assert(d6.len() == 6 && d6.last() == dm[5]);
            assert(d6.last().0 == "previous_value"@ && d6.last().0 != "amount"@);
            assert(bag_get(d6, "amount"@) == bag_get(d5, "amount"@));
            assert(d5.len() == 5 && d5.last() == dm[4]);
            assert(d5.last().0 == "rate_multiplier"@ && d5.last().0 != "amount"@);
            assert(bag_get(d5, "amount"@) == bag_get(d4, "amount"@));
            assert(d4.len() == 4 && d4.last() == dm[3]);
            assert(d4.last().0 == "salvage_value"@ && d4.last().0 != "amount"@);
            assert(bag_get(d4, "amount"@) == bag_get(d3, "amount"@));
            assert(d3.len() == 3 && d3.last() == dm[2]);
            assert(d3.last().0 == "end_date"@ && d3.last().0 != "amount"@);
            assert(bag_get(d3, "amount"@) == bag_get(d2, "amount"@));
            assert(d2.len() == 2 && d2.last() == dm[1]);
            assert(d2.last().0 == "start_date"@ && d2.last().0 != "amount"@);
            assert(bag_get(d2, "amount"@) == bag_get(d1, "amount"@));
            assert(d1.len() == 1 && d1.last() == dm[0]);
            assert(d1.last().0 == "amount"@);
            assert(bag_get(d1, "amount"@) == Option::Some(
                AttrModel::Int(depreciation_amount as int),
            ));
            assert(bag_int_or_zero(dm, "amount"@) == depreciation_amount as int);
        }
        let returned = event.duplicate();
        let event_id = event.event_id;
        let metadata = crate::attr::duplicate_bag(&event.details);
        match ledger.record_event(event) {
            Ok(_) => {},
            Err(e) => {
                return Err(e);
            },
        }
        if depreciation_amount > 0 {
            let mut journal_metadata: AttrBag = Vec::new();
            journal_metadata.push(("asset_id".to_owned(), AttrValue::Str(u128_to_dec(asset_id))));
            journal_metadata.push(("previous_value".to_owned(), AttrValue::Int(previous_value)));
            journal_metadata.push(("new_value".to_owned(), AttrValue::Int(new_value)));
            let mut m: usize = 0;
            let mut merged = journal_metadata;
            while m < metadata.len()
                invariant
                    m <= metadata@.len(),
                decreases metadata@.len() - m,
            {
                merged.push((metadata[m].0.clone(), crate::attr::duplicate_value(&metadata[m].1)));
                m = m + 1;
            }
            let journal_entry = JournalEntry {
                entry_id: fresh_id(),
                event_id,
                timestamp: now_ts(),
                debit_account: AccountType::DepreciationExpense,
                credit_account: AccountType::AccumulatedDepreciation,
                amount: depreciation_amount,
                description: "Asset depreciation".to_owned(),
                metadata: merged,
            };
            match ledger.record_journal_entry(journal_entry) {
                Ok(_) => {},
                Err(e) => {
                    return Err(e);
                },
            }
        }
        Ok(returned)
    }

    /// A read-only aggregation: the asset's attribute form, its event and
    /// journal-entry counts, and the saturating sum of its recorded
    /// depreciation amounts.
    pub fn get_asset_summary(
        &self,
        ledger: &IntelligenceCapitalLedger,
        asset_id: u128,
    ) -> (r: IclResult<AttrValue>)
        requires
            ledger.wf(),
        ensures
            !ledger.has_asset(asset_id as int) ==> (r matches Err(e) && e matches
                IclError::AssetNotFound(id) && id == asset_id),
            ledger.has_asset(asset_id as int) ==> (r matches Ok(v) && {
                let event_count = crate::ledger::events_for_seq(
                    ledger.events@,
                    asset_id as int,
                ).len();
                let journal_count = crate::ledger::journal_for_seq(
                    ledger.journal_entries@,
                    ledger.events@,
                    asset_id as int,
                ).len();
                &&& event_count <= i64::MAX ==> crate::attr::bag_get(
                    crate::attr::model_of(v)->Obj_0,
                    "event_count"@,
                ) == Option::Some(AttrModel::Int(event_count as int))
                &&& journal_count <= i64::MAX ==> crate::attr::bag_get(
                    crate::attr::model_of(v)->Obj_0,
                    "journal_entry_count"@,
                ) == Option::Some(AttrModel::Int(journal_count as int))
                &&& crate::attr::bag_get(crate::attr::model_of(v)->Obj_0, "asset"@)
                    == Option::Some(crate::types::asset_attr(ledger.spec_asset(asset_id as int)))
                &&& crate::attr::bag_get(crate::attr::model_of(v)->Obj_0, "total_depreciation"@)
                    == Option::Some(AttrModel::Int(dep_sum_sat(ledger.events@, asset_id as int)))
            }),
    {
        let idx = match ledger.find_asset_index(asset_id) {
            Option::Some(i) => i,
            Option::None => {
                return Err(IclError::AssetNotFound(asset_id));
            },
        };
        proof {
            let k = choose|k: int|
                0 <= k < ledger.assets@.len() && ledger.assets@[k]@.asset_id == asset_id as int;
            assert(k == idx);
        }
        let events = ledger.get_events_for_asset(asset_id);
        let journal_entries = ledger.get_journal_entries_for_asset(asset_id);
        let total = sum_depreciation_of(&ledger.events, asset_id);
        let mut bag: AttrBag = Vec::new();
        bag.push(("asset".to_owned(), crate::types::asset_to_attr(&ledger.assets[idx])));
        proof {
            assert(crate::ledger::event_views(events@).len() == events@.len());
            assert(crate::ledger::journal_views(journal_entries@).len()
                == journal_entries@.len());
        }
        bag.push((
            "event_count".to_owned(),
            AttrValue::Int(#[verifier::truncate] (events.len() as i64)),
        ));
        bag.push((
            "journal_entry_count".to_owned(),
            AttrValue::Int(#[verifier::truncate] (journal_entries.len() as i64)),
        ));
        bag.push(("total_depreciation".to_owned(), AttrValue::Int(total)));
        let out = AttrValue::Obj(bag);
        proof {
            reveal_strlit("asset");
            reveal_strlit("event_count");
            reveal_strlit("journal_entry_count");
            reveal_strlit("total_depreciation");
            let m = crate::attr::pair_models_of(bag@);
            let m3 = m.drop_last();
            let m2 = m3.drop_last();
            let m1 = m2.drop_last();
            assert(m.len() == 4);
            assert(m[0].0 == "asset"@);
            assert(m[1].0 == "event_count"@);
            assert(m[2].0 == "journal_entry_count"@);
            assert(m[3].0 == "total_depreciation"@);
            assert(m.last() == m[3]);
            assert(m3.len() == 3 && m3[0] == m[0] && m3[1] == m[1] && m3[2] == m[2]);
            assert(m3.last() == m[2]);
            assert(m2.len() == 2 && m2[0] == m[0] && m2[1] == m[1]);
            assert(m2.last() == m[1]);
            assert(m1.len() == 1 && m1[0] == m[0]);
            assert(m1.last() == m[0]);
            assert(bag_get(m, "asset"@) == bag_get(m3, "asset"@));
            assert(bag_get(m3, "asset"@) == bag_get(m2, "asset"@));
            assert(bag_get(m2, "asset"@) == bag_get(m1, "asset"@));
            assert(bag_get(m, "event_count"@) == bag_get(m3, "event_count"@));
            assert(bag_get(m3, "event_count"@) == bag_get(m2, "event_count"@));
            assert(bag_get(m, "journal_entry_count"@) == bag_get(m3, "journal_entry_count"@));
        }
        Ok(out)
    }
}

/// Adds with 64-bit saturation.
pub open spec fn sat_add_i64(a: int, b: int) -> int {
    if a + b > i64::MAX as int {
        i64::MAX as int
    } else if a + b < i64::MIN as int {
        i64::MIN as int
    } else {
        a + b
    }
}

/// The amounts of the asset's recorded depreciation events, summed with
/// 64-bit saturation at each step.
pub open spec fn dep_sum_sat(events: Seq<CapitalEvent>, id: int) -> int
    decreases events,
{
    if events.len() == 0 {
        0
    } else {
        let rest = dep_sum_sat(events.drop_last(), id);
        if events.last()@.asset_id == id && events.last()@.event_type == "depreciation"@ {
            sat_add_i64(rest, crate::attr::bag_int_or_zero(events.last()@.details, "amount"@))
        } else {
            rest
        }
    }
}

/// Sums the asset's recorded depreciation amounts, saturating at the
/// 64-bit bounds.
#[verifier::loop_isolation(false)]
pub fn sum_depreciation_of(events: &Vec<CapitalEvent>, asset_id: u128) -> (r: i64)
    ensures
        r as int == dep_sum_sat(events@, asset_id as int),
{
    let mut acc: i64 = 0;
    let mut i: usize = 0;
    let wanted: String = "depreciation".to_owned();
    proof {
        assert(events@.subrange(0, 0) =~= Seq::<CapitalEvent>::empty());
    }
    while i < events.len()
        invariant
            i <= events@.len(),
            acc as int == dep_sum_sat(events@.subrange(0, i as int), asset_id as int),
        decreases events@.len() - i,
    {
        proof {
            assert(events@.subrange(0, i + 1).drop_last() =~= events@.subrange(0, i as int));
            assert(events@.subrange(0, i + 1).last() == events@[i as int]);
        }
        let e = &events[i];
        if e.asset_id == asset_id && e.event_type == wanted {
            let a = crate::attr::bag_int(&e.details, "amount");
            if a >= 0 && acc > i64::MAX - a {
                acc = i64::MAX;
            } else if a < 0 && acc < i64::MIN - a {
                acc = i64::MIN;
            } else {
                acc = acc + a;
            }
        }
        i = i + 1;
    }
    proof {
        assert(events@.subrange(0, events@.len() as int) =~= events@);
    }
    acc
}

} // verus!
