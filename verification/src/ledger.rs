//! The ledger: owner of all collections — assets, events, entries, journal
//! entries and proofs — with creation, append and query operations.
use vstd::prelude::*;
use crate::attr::{
    bag_int, bag_int_or_zero, bag_model, duplicate_bag, AttrBag, AttrModel, AttrValue,
};
use crate::error::{IclError, IclResult};
use crate::numfmt::{dec_of, u128_to_dec};
use crate::outside::{fresh_id, now_ts, sha256_hex_of};
use crate::types::{
    account_chars, asset_attr, asset_to_attr, build_proof_content, spec_proof_content, AssetModel,
    AssetStatus, CapitalEvent, CapitalProof, DepreciationMethod, EntryModel, EventModel,
    IntelligenceAsset, JournalEntry, JournalModel, LedgerEntry, ProofModel, hash_input_of,
    VALUE_CAP,
};
use crate::attr::{model_of, models_of, render_json};
use crate::numfmt::{dec_of_signed, i64_to_dec};
use crate::outside::{rfc3339_of, ts_to_rfc3339};

verus! {

broadcast use crate::attr::lemma_models_of_len, crate::attr::lemma_models_of_index, crate::attr::lemma_pair_models_of_len, crate::attr::lemma_pair_models_of_index;

/// The ledger owning every collection. Events, entries, journal entries and
/// proofs are append-only; assets are keyed by their unique identifier.
pub struct IntelligenceCapitalLedger {
    pub assets: Vec<IntelligenceAsset>,
    pub events: Vec<CapitalEvent>,
    pub entries: Vec<LedgerEntry>,
    pub journal_entries: Vec<JournalEntry>,
    pub proofs: Vec<CapitalProof>,
}

/// The events recorded for one asset, in recording order.
pub open spec fn events_for_seq(s: Seq<CapitalEvent>, id: int) -> Seq<EventModel>
    decreases s,
{
    if s.len() == 0 {
        Seq::empty()
    } else if s.last()@.asset_id == id {
        events_for_seq(s.drop_last(), id).push(s.last()@)
    } else {
        events_for_seq(s.drop_last(), id)
    }
}

/// The ledger entries recorded for one asset, in recording order.
pub open spec fn entries_for_seq(s: Seq<LedgerEntry>, id: int) -> Seq<EntryModel>
    decreases s,
{
    if s.len() == 0 {
        Seq::empty()
    } else if s.last()@.asset_id == id {
        entries_for_seq(s.drop_last(), id).push(s.last()@)
    } else {
        entries_for_seq(s.drop_last(), id)
    }
}

/// Whether an event with the given identifier is recorded for the asset.
pub open spec fn asset_has_event(s: Seq<CapitalEvent>, id: int, event_id: int) -> bool {
    exists|i: int|
        0 <= i < s.len() && s[i]@.asset_id == id && s[i]@.event_id == event_id
}

/// The journal entries whose originating event belongs to the asset: the
/// lookup joins through event identifiers, not through a per-asset key.
pub open spec fn journal_for_seq(
    js: Seq<JournalEntry>,
    events: Seq<CapitalEvent>,
    id: int,
) -> Seq<JournalModel>
    decreases js,
{
    if js.len() == 0 {
        Seq::empty()
    } else if asset_has_event(events, id, js.last()@.event_id) {
        journal_for_seq(js.drop_last(), events, id).push(js.last()@)
    } else {
        journal_for_seq(js.drop_last(), events, id)
    }
}

/// The hash of the most recent proof recorded for the asset: absent when the
/// asset has no proof yet, the empty text when that proof carries no hash.
pub open spec fn last_proof_hash_for(s: Seq<CapitalProof>, id: int) -> Option<Seq<char>>
    decreases s,
{
    if s.len() == 0 {
        Option::None
    } else if s.last()@.asset_id == id {
        Option::Some(
            match s.last()@.proof_hash {
                Option::Some(h) => h,
                Option::None => Seq::empty(),
            },
        )
    } else {
        last_proof_hash_for(s.drop_last(), id)
    }
}

impl IntelligenceCapitalLedger {
    /// Whether an asset with the identifier is present.
    pub open spec fn has_asset(self, id: int) -> bool {
        exists|i: int| 0 <= i < self.assets@.len() && self.assets@[i]@.asset_id == id
    }

    /// The view of the asset with the identifier.
    pub open spec fn spec_asset(self, id: int) -> AssetModel {
        let i = choose|i: int| 0 <= i < self.assets@.len() && self.assets@[i]@.asset_id == id;
        self.assets@[i]@
    }

    /// No two assets share an identifier.
    pub open spec fn asset_ids_unique(self) -> bool {
        forall|i: int, j: int|
            0 <= i < j < self.assets@.len() ==> self.assets@[i]@.asset_id
                != self.assets@[j]@.asset_id
    }

    /// Well-formedness: unique asset identifiers and well-formed assets.
    pub open spec fn wf(self) -> bool {
        &&& self.asset_ids_unique()
        &&& forall|i: int| 0 <= i < self.assets@.len() ==> (#[trigger] self.assets@[i])@.wf()
    }

    /// An empty ledger.
    pub fn new() -> (r: Self)
        ensures
            r.assets@.len() == 0,
            r.events@.len() == 0,
            r.entries@.len() == 0,
            r.journal_entries@.len() == 0,
            r.proofs@.len() == 0,
            r.wf(),
    {
        IntelligenceCapitalLedger {
            assets: Vec::new(),
            events: Vec::new(),
            entries: Vec::new(),
            journal_entries: Vec::new(),
            proofs: Vec::new(),
        }
    }

    /// The position of the asset with the identifier, if present.
    #[verifier::loop_isolation(false)]
    pub fn find_asset_index(&self, asset_id: u128) -> (r: Option<usize>)
        ensures
            match r {
                Option::Some(i) => i < self.assets@.len() && self.assets@[i as int]@.asset_id
                    == asset_id as int && self.has_asset(asset_id as int),
                Option::None => !self.has_asset(asset_id as int),
            },
    {
        let mut i: usize = 0;
        while i < self.assets.len()
            invariant
                i <= self.assets@.len(),
                forall|j: int|
                    0 <= j < i ==> (#[trigger] self.assets@[j])@.asset_id != asset_id as int,
            decreases self.assets@.len() - i,
        {
            if self.assets[i].asset_id == asset_id {
                return Option::Some(i);
            }
            i = i + 1;
        }
        Option::None
    }

    /// Looks an asset up by its identifier.
    pub fn get_asset(&self, asset_id: u128) -> (r: Option<&IntelligenceAsset>)
        ensures
            match r {
                Option::Some(a) => self.has_asset(asset_id as int) && a@.asset_id
                    == asset_id as int && (self.asset_ids_unique() ==> a@ == self.spec_asset(
                    asset_id as int,
                )),
                Option::None => !self.has_asset(asset_id as int),
            },
    {
        match self.find_asset_index(asset_id) {
            Option::Some(i) => {
                let a = &self.assets[i];
                proof {
                    if self.asset_ids_unique() {
                        let k = choose|k: int|
                            0 <= k < self.assets@.len() && self.assets@[k]@.asset_id
                                == asset_id as int;
                        assert(k == i);
                    }
                }
                Option::Some(a)
            },
            Option::None => Option::None,
        }
    }

    /// Looks an asset up for in-place mutation.
    pub fn get_asset_mut(&mut self, asset_id: u128) -> (r: Option<&mut IntelligenceAsset>)
        ensures
            final(self).events@ == old(self).events@,
            final(self).entries@ == old(self).entries@,
            final(self).journal_entries@ == old(self).journal_entries@,
            final(self).proofs@ == old(self).proofs@,
            !old(self).has_asset(asset_id as int) ==> r is None && final(self).assets@ == old(
                self,
            ).assets@,
            old(self).has_asset(asset_id as int) ==> (r matches Some(a) && exists|i: int|
                {
                    &&& 0 <= i < old(self).assets@.len()
                    &&& old(self).assets@[i]@.asset_id == asset_id as int
                    &&& *a == old(self).assets@[i]
                    &&& #[trigger] final(self).assets@ == old(self).assets@.update(
                        i,
                        *final(a),
                    )
                }),
    {
        match self.find_asset_index(asset_id) {
            Option::Some(i) => Option::Some(&mut self.assets[i]),
            Option::None => Option::None,
        }
    }

    /// Creates and records an Active asset valued at its initial value.
    /// Fails when the identifier is taken, the owner is empty, or the
    /// initial value or useful life is not positive.
    pub fn create_asset(
        &mut self,
        asset_id: u128,
        owner: String,
        initial_value: i64,
        depreciation_method: DepreciationMethod,
        useful_life_months: i32,
    ) -> (r: IclResult<IntelligenceAsset>)
        requires
            old(self).wf(),
            initial_value <= VALUE_CAP,
        ensures
            final(self).wf(),
            final(self).events@ == old(self).events@,
            final(self).entries@ == old(self).entries@,
            final(self).journal_entries@ == old(self).journal_entries@,
            final(self).proofs@ == old(self).proofs@,
            old(self).has_asset(asset_id as int) ==> (r matches Err(e) && e matches
                IclError::AssetAlreadyExists(id) && id == asset_id) && final(self).assets@ == old(self).assets@,
            !old(self).has_asset(asset_id as int) && owner@.len() == 0 ==> (r matches Err(e) && (
            e matches IclError::InvalidAsset(m) && m@ == "Owner cannot be empty"@)) && final(self).assets@ == old(self).assets@,
            !old(self).has_asset(asset_id as int) && owner@.len() > 0 && initial_value <= 0 ==> (
            r matches Err(e) && (e matches IclError::InvalidAsset(m) && m@
                == "Initial value must be positive"@)) && final(self).assets@ == old(self).assets@,
            !old(self).has_asset(asset_id as int) && owner@.len() > 0 && initial_value > 0
                && useful_life_months <= 0 ==> (r matches Err(e) && (e matches
            IclError::InvalidAsset(m) && m@ == "Useful life must be positive"@)) && final(self).assets@ == old(self).assets@,
            !old(self).has_asset(asset_id as int) && owner@.len() > 0 && initial_value > 0
                && useful_life_months > 0 ==> (r matches Ok(a) && {
                &&& a@.asset_id == asset_id as int
                &&& a@.owner == owner@
                &&& a@.initial_value == initial_value as int
                &&& a@.depreciation_method == depreciation_method
                &&& a@.useful_life_months == useful_life_months as int
                &&& a@.status == AssetStatus::Active
                &&& a@.current_value == Option::Some(initial_value as int)
                &&& final(self).assets@.len() == old(self).assets@.len() + 1
                &&& final(self).assets@.last()@ == a@
                &&& final(self).assets@.drop_last() == old(self).assets@
                &&& final(self).has_asset(asset_id as int)
            }),
    {
        if self.find_asset_index(asset_id).is_some() {
            return Err(IclError::AssetAlreadyExists(asset_id));
        }
        if owner.as_str().is_empty() {
            return Err(IclError::InvalidAsset("Owner cannot be empty".to_owned()));
        }
        if initial_value <= 0 {
            return Err(IclError::InvalidAsset("Initial value must be positive".to_owned()));
        }
        if useful_life_months <= 0 {
            return Err(IclError::InvalidAsset("Useful life must be positive".to_owned()));
        }
        let created = now_ts();
        let asset = IntelligenceAsset {
            asset_id,
            owner,
            initial_value,
            depreciation_method,
            useful_life_months,
            created_at: created,
            status: AssetStatus::Active,
            current_value: Option::Some(initial_value),
        };
        let copy = asset.duplicate();
        let ghost pre = self.assets@;
        self.assets.push(asset);
        proof {
            assert(self.assets@.drop_last() =~= pre);
            assert(self.assets@.last()@.asset_id == asset_id as int);
            assert(forall|i: int|
                0 <= i < self.assets@.len() ==> (#[trigger] self.assets@[i])@.wf());
        }
        Ok(copy)
    }

    /// Appends an event and derives its ledger entry; the entry's amount is
    /// the numeric `amount` detail, or zero. Fails when the asset is absent
    /// or the event type is empty.
    pub fn record_event(&mut self, event: CapitalEvent) -> (r: IclResult<()>)
        ensures
            final(self).assets@ == old(self).assets@,
            final(self).journal_entries@ == old(self).journal_entries@,
            final(self).proofs@ == old(self).proofs@,
            !old(self).has_asset(event@.asset_id) ==> (r matches Err(e) && e matches
                IclError::AssetNotFound(id) && id as int == event@.asset_id) && final(self).events@ == old(self).events@ && final(self).entries@ == old(self).entries@,
            old(self).has_asset(event@.asset_id) && event@.event_type.len() == 0 ==> (r matches
                Err(e) && (e matches IclError::InvalidEvent(m) && m@
                == "Event type cannot be empty"@)) && final(self).events@ == old(self).events@
                && final(self).entries@ == old(self).entries@,
            old(self).has_asset(event@.asset_id) && event@.event_type.len() > 0 ==> (r matches Ok(
                u,
            ) && {
                &&& final(self).events@ == old(self).events@.push(event)
                &&& final(self).entries@.len() == old(self).entries@.len() + 1
                &&& final(self).entries@.drop_last() == old(self).entries@
                &&& {
                    let entry = final(self).entries@.last()@;
                    &&& entry.event_id == event@.event_id
                    &&& entry.asset_id == event@.asset_id
                    &&& entry.timestamp == event@.timestamp
                    &&& entry.amount == bag_int_or_zero(event@.details, "amount"@)
                    &&& entry.description == event@.event_type
                    &&& entry.metadata == event@.details
                }
            }),
    {
        if self.find_asset_index(event.asset_id).is_none() {
            return Err(IclError::AssetNotFound(event.asset_id));
        }
        if event.event_type.as_str().is_empty() {
            return Err(IclError::InvalidEvent("Event type cannot be empty".to_owned()));
        }
        let entry = LedgerEntry {
            entry_id: fresh_id(),
            event_id: event.event_id,
            asset_id: event.asset_id,
            timestamp: event.timestamp,
            amount: bag_int(&event.details, "amount"),
            description: event.event_type.clone(),
            metadata: duplicate_bag(&event.details),
        };
        let ghost pre_events = self.events@;
        let ghost pre_entries = self.entries@;
        self.events.push(event);
        self.entries.push(entry);
        proof {
            assert(self.entries@.drop_last() =~= pre_entries);
        }
        Ok(())
    }

    /// Appends a journal entry; the amount must be strictly positive.
    pub fn record_journal_entry(&mut self, journal_entry: JournalEntry) -> (r: IclResult<()>)
        ensures
            final(self).assets@ == old(self).assets@,
            final(self).events@ == old(self).events@,
            final(self).entries@ == old(self).entries@,
            final(self).proofs@ == old(self).proofs@,
            journal_entry@.amount <= 0 ==> (r matches Err(e) && (e matches IclError::InvalidEntry(
                m,
            ) && m@ == "Journal entry amount must be positive"@)) && final(self).journal_entries@ == old(self).journal_entries@,
            journal_entry@.amount > 0 ==> (r matches Ok(u) && final(self).journal_entries@ == old(self).journal_entries@.push(journal_entry)),
    {
        if journal_entry.amount <= 0 {
            return Err(
                IclError::InvalidEntry("Journal entry amount must be positive".to_owned()),
            );
        }
        self.journal_entries.push(journal_entry);
        Ok(())
    }

    /// True exactly when every journal entry's amount is strictly positive.
    #[verifier::loop_isolation(false)]
    pub fn verify_journal_balance(&self) -> (r: bool)
        ensures
            r == forall|i: int|
                0 <= i < self.journal_entries@.len() ==> (#[trigger] self.journal_entries@[i])@.amount
                    > 0,
    {
        let mut i: usize = 0;
        while i < self.journal_entries.len()
            invariant
                i <= self.journal_entries@.len(),
                forall|j: int|
                    0 <= j < i ==> (#[trigger] self.journal_entries@[j])@.amount > 0,
            decreases self.journal_entries@.len() - i,
        {
            if self.journal_entries[i].amount <= 0 {
                return false;
            }
            i = i + 1;
        }
        true
    }

    /// The number of assets on the ledger.
    pub fn asset_count(&self) -> (r: usize)
        ensures
            r == self.assets@.len(),
    {
        self.assets.len()
    }

    /// The number of events on the ledger.
    pub fn event_count(&self) -> (r: usize)
        ensures
            r == self.events@.len(),
    {
        self.events.len()
    }
}


/// The views of a sequence of events.
pub open spec fn event_views(s: Seq<CapitalEvent>) -> Seq<EventModel> {
    Seq::new(s.len(), |i: int| s[i]@)
}

/// The views of a sequence of ledger entries.
pub open spec fn entry_views(s: Seq<LedgerEntry>) -> Seq<EntryModel> {
    Seq::new(s.len(), |i: int| s[i]@)
}

/// The views of a sequence of journal entries.
pub open spec fn journal_views(s: Seq<JournalEntry>) -> Seq<JournalModel> {
    Seq::new(s.len(), |i: int| s[i]@)
}

impl IntelligenceCapitalLedger {
    /// The stored hash of the most recent proof for the asset, if any.
    #[verifier::loop_isolation(false)]
    fn last_proof_hash(&self, asset_id: u128) -> (r: Option<String>)
        ensures
            match r {
                Option::Some(h) => last_proof_hash_for(self.proofs@, asset_id as int)
                    == Option::Some(h@),
                Option::None => last_proof_hash_for(self.proofs@, asset_id as int) is None,
            },
    {
        let mut i: usize = self.proofs.len();
        assert(self.proofs@.subrange(0, self.proofs@.len() as int) =~= self.proofs@);
        while i > 0
            invariant
                i <= self.proofs@.len(),
                last_proof_hash_for(self.proofs@.subrange(0, i as int), asset_id as int)
                    == last_proof_hash_for(self.proofs@, asset_id as int),
            decreases i,
        {
            i = i - 1;
            proof {
                assert(self.proofs@.subrange(0, i + 1).drop_last() =~= self.proofs@.subrange(
                    0,
                    i as int,
                ));
                assert(self.proofs@.subrange(0, i + 1).last() == self.proofs@[i as int]);
            }
            if self.proofs[i].asset_id == asset_id {
                let h = match &self.proofs[i].proof_hash {
                    Option::Some(h) => h.clone(),
                    Option::None => String::new(),
                };
                return Option::Some(h);
            }
        }
        assert(self.proofs@.subrange(0, 0) =~= Seq::<CapitalProof>::empty());
        Option::None
    }

    /// Snapshots the asset's state into a hashed proof, chained to the most
    /// recent prior proof for the asset, and appends it.
    pub fn generate_proof(&mut self, asset_id: u128, event_id: Option<u128>) -> (r: IclResult<
        CapitalProof,
    >)
        requires
            old(self).wf(),
        ensures
            final(self).wf(),
            final(self).assets@ == old(self).assets@,
            final(self).events@ == old(self).events@,
            final(self).entries@ == old(self).entries@,
            final(self).journal_entries@ == old(self).journal_entries@,
            !old(self).has_asset(asset_id as int) ==> (r matches Err(e) && e matches
                IclError::AssetNotFound(id) && id == asset_id) && final(self).proofs@ == old(
                self,
            ).proofs@,
            old(self).has_asset(asset_id as int) ==> (r matches Ok(p) && {
                &&& p@.asset_id == asset_id as int
                &&& p@.event_id == (match event_id {
                    Option::Some(e) => Option::Some(e as int),
                    Option::None => Option::<int>::None,
                })
                &&& p@.origin == "ICL"@
                &&& p@.previous_proof_hash == last_proof_hash_for(
                    old(self).proofs@,
                    asset_id as int,
                )
                &&& p@.content == spec_proof_content(old(self).spec_asset(asset_id as int))
                &&& p@.proof_hash == Option::Some(sha256_hex_of(hash_input_of(p@)))
                &&& final(self).proofs@.len() == old(self).proofs@.len() + 1
                &&& final(self).proofs@.drop_last() == old(self).proofs@
                &&& final(self).proofs@.last()@ == p@
            }),
    {
        let idx = match self.find_asset_index(asset_id) {
            Option::Some(i) => i,
            Option::None => {
                return Err(IclError::AssetNotFound(asset_id));
            },
        };
        proof {
            let k = choose|k: int|
                0 <= k < self.assets@.len() && self.assets@[k]@.asset_id == asset_id as int;
            assert(k == idx);
        }
        let previous_hash = self.last_proof_hash(asset_id);
        let content = build_proof_content(&self.assets[idx]);
        let mut proof_record = CapitalProof {
            proof_id: fresh_id(),
            asset_id,
            event_id,
            timestamp: now_ts(),
            origin: "ICL".to_owned(),
            content,
            previous_proof_hash: previous_hash,
            proof_hash: Option::None,
        };
        let computed = proof_record.compute_hash();
        let ghost before_hash = proof_record@;
        proof_record.proof_hash = Option::Some(computed);
        proof {
            assert(hash_input_of(proof_record@) == hash_input_of(before_hash));
        }
        let stored = proof_record.duplicate();
        let ghost pre = self.proofs@;
        self.proofs.push(stored);
        proof {
            assert(self.proofs@.drop_last() =~= pre);
        }
        Ok(proof_record)
    }

    /// Whether an event with the identifier is recorded for the asset.
    #[verifier::loop_isolation(false)]
    fn has_event_for(&self, asset_id: u128, event_id: u128) -> (r: bool)
        ensures
            r == asset_has_event(self.events@, asset_id as int, event_id as int),
    {
        let mut i: usize = 0;
        while i < self.events.len()
            invariant
                i <= self.events@.len(),
                forall|j: int|
                    0 <= j < i ==> !((#[trigger] self.events@[j])@.asset_id == asset_id as int
                        && self.events@[j]@.event_id == event_id as int),
            decreases self.events@.len() - i,
        {
            if self.events[i].asset_id == asset_id && self.events[i].event_id == event_id {
                return true;
            }
            i = i + 1;
        }
        false
    }

    /// The events recorded for the asset, in recording order.
    #[verifier::loop_isolation(false)]
    pub fn get_events_for_asset(&self, asset_id: u128) -> (r: Vec<CapitalEvent>)
        ensures
            event_views(r@) == events_for_seq(self.events@, asset_id as int),
    {
        let mut out: Vec<CapitalEvent> = Vec::new();
        let mut i: usize = 0;
        while i < self.events.len()
            invariant
                i <= self.events@.len(),
                event_views(out@) =~= events_for_seq(
                    self.events@.subrange(0, i as int),
                    asset_id as int,
                ),
            decreases self.events@.len() - i,
        {
            proof {
                assert(self.events@.subrange(0, i + 1).drop_last() =~= self.events@.subrange(
                    0,
                    i as int,
                ));
                assert(self.events@.subrange(0, i + 1).last() == self.events@[i as int]);
            }
            if self.events[i].asset_id == asset_id {
                let ghost pre = out@;
                out.push(self.events[i].duplicate());
                proof {
                    assert(event_views(out@) =~= event_views(pre).push(out@.last()@));
                }
            }
            i = i + 1;
        }
        proof {
            assert(self.events@.subrange(0, self.events@.len() as int) =~= self.events@);
        }
        out
    }

    /// The ledger entries recorded for the asset, in recording order.
    #[verifier::loop_isolation(false)]
    pub fn get_entries_for_asset(&self, asset_id: u128) -> (r: Vec<LedgerEntry>)
        ensures
            entry_views(r@) == entries_for_seq(self.entries@, asset_id as int),
    {
        let mut out: Vec<LedgerEntry> = Vec::new();
        let mut i: usize = 0;
        while i < self.entries.len()
            invariant
                i <= self.entries@.len(),
                entry_views(out@) =~= entries_for_seq(
                    self.entries@.subrange(0, i as int),
                    asset_id as int,
                ),
            decreases self.entries@.len() - i,
        {
            proof {
                assert(self.entries@.subrange(0, i + 1).drop_last() =~= self.entries@.subrange(
                    0,
                    i as int,
                ));
                assert(self.entries@.subrange(0, i + 1).last() == self.entries@[i as int]);
            }
            if self.entries[i].asset_id == asset_id {
                let ghost pre = out@;
                let e = &self.entries[i];
                out.push(
                    LedgerEntry {
                        entry_id: e.entry_id,
                        event_id: e.event_id,
                        asset_id: e.asset_id,
                        timestamp: e.timestamp,
                        amount: e.amount,
                        description: e.description.clone(),
                        metadata: duplicate_bag(&e.metadata),
                    },
                );
                proof {
                    assert(entry_views(out@) =~= entry_views(pre).push(out@.last()@));
                }
            }
            i = i + 1;
        }
        proof {
            assert(self.entries@.subrange(0, self.entries@.len() as int) =~= self.entries@);
        }
        out
    }

    /// The journal entries for the asset, joined through the identifiers of
    /// the asset's recorded events.
    #[verifier::loop_isolation(false)]
    pub fn get_journal_entries_for_asset(&self, asset_id: u128) -> (r: Vec<JournalEntry>)
        ensures
            journal_views(r@) == journal_for_seq(
                self.journal_entries@,
                self.events@,
                asset_id as int,
            ),
    {
        let mut out: Vec<JournalEntry> = Vec::new();
        let mut i: usize = 0;
        while i < self.journal_entries.len()
            invariant
                i <= self.journal_entries@.len(),
                journal_views(out@) =~= journal_for_seq(
                    self.journal_entries@.subrange(0, i as int),
                    self.events@,
                    asset_id as int,
                ),
            decreases self.journal_entries@.len() - i,
        {
            proof {
                assert(self.journal_entries@.subrange(0, i + 1).drop_last()
                    =~= self.journal_entries@.subrange(0, i as int));
                assert(self.journal_entries@.subrange(0, i + 1).last()
                    == self.journal_entries@[i as int]);
            }
            if self.has_event_for(asset_id, self.journal_entries[i].event_id) {
                let ghost pre = out@;
                let e = &self.journal_entries[i];
                out.push(
                    JournalEntry {
                        entry_id: e.entry_id,
                        event_id: e.event_id,
                        timestamp: e.timestamp,
                        debit_account: e.debit_account,
                        credit_account: e.credit_account,
                        amount: e.amount,
                        description: e.description.clone(),
                        metadata: duplicate_bag(&e.metadata),
                    },
                );
                proof {
                    assert(journal_views(out@) =~= journal_views(pre).push(out@.last()@));
                }
            }
            i = i + 1;
        }
        proof {
            assert(self.journal_entries@.subrange(0, self.journal_entries@.len() as int)
                =~= self.journal_entries@);
        }
        out
    }
}


/// A description with each comma replaced by a semicolon, so that it stays
/// one field of a comma-separated row.
pub open spec fn semi_of(s: Seq<char>) -> Seq<char>
    decreases s,
{
    if s.len() == 0 {
        Seq::empty()
    } else {
        semi_of(s.drop_last()).push(
            if s.last() == ',' {
                ';'
            } else {
                s.last()
            },
        )
    }
}

/// One row of the flattened export: the entry's fields, comma-separated.
pub open spec fn csv_row_of(e: EntryModel) -> Seq<char> {
    dec_of(e.entry_id) + seq![','] + dec_of(e.event_id) + seq![','] + dec_of(e.asset_id)
        + seq![','] + rfc3339_of(e.timestamp) + seq![','] + dec_of_signed(e.amount) + seq![',']
        + semi_of(e.description) + seq!['\n']
}

/// The rows for a sequence of entries, in order.
pub open spec fn csv_rows_of(s: Seq<LedgerEntry>) -> Seq<char>
    decreases s,
{
    if s.len() == 0 {
        Seq::empty()
    } else {
        csv_rows_of(s.drop_last()) + csv_row_of(s.last()@)
    }
}

/// The whole flattened export: a fixed header and one row per entry.
pub open spec fn csv_of(s: Seq<LedgerEntry>) -> Seq<char> {
    "entry_id,event_id,asset_id,timestamp,amount,description\n"@ + csv_rows_of(s)
}

/// The attribute form of an event, as the export renders it.
pub open spec fn event_attr(e: EventModel) -> AttrModel {
    AttrModel::Obj(
        seq![
            ("event_id"@, AttrModel::Str(dec_of(e.event_id))),
            ("asset_id"@, AttrModel::Str(dec_of(e.asset_id))),
            ("event_type"@, AttrModel::Str(e.event_type)),
            ("timestamp"@, AttrModel::Int(e.timestamp)),
            ("details"@, AttrModel::Obj(e.details)),
        ],
    )
}

/// The attribute form of a ledger entry, as the export renders it.
pub open spec fn entry_attr(e: EntryModel) -> AttrModel {
    AttrModel::Obj(
        seq![
            ("entry_id"@, AttrModel::Str(dec_of(e.entry_id))),
            ("event_id"@, AttrModel::Str(dec_of(e.event_id))),
            ("asset_id"@, AttrModel::Str(dec_of(e.asset_id))),
            ("timestamp"@, AttrModel::Int(e.timestamp)),
            ("amount"@, AttrModel::Int(e.amount)),
            ("description"@, AttrModel::Str(e.description)),
            ("metadata"@, AttrModel::Obj(e.metadata)),
        ],
    )
}

/// The attribute form of a journal entry, as the export renders it.
pub open spec fn journal_attr(e: JournalModel) -> AttrModel {
    AttrModel::Obj(
        seq![
            ("entry_id"@, AttrModel::Str(dec_of(e.entry_id))),
            ("event_id"@, AttrModel::Str(dec_of(e.event_id))),
            ("timestamp"@, AttrModel::Int(e.timestamp)),
            ("debit_account"@, AttrModel::Str(account_chars(e.debit_account))),
            ("credit_account"@, AttrModel::Str(account_chars(e.credit_account))),
            ("amount"@, AttrModel::Int(e.amount)),
            ("description"@, AttrModel::Str(e.description)),
            ("metadata"@, AttrModel::Obj(e.metadata)),
        ],
    )
}

/// The attribute form of a proof, as the export renders it.
pub open spec fn proof_attr(p: ProofModel) -> AttrModel {
    AttrModel::Obj(
        seq![
            ("proof_id"@, AttrModel::Str(dec_of(p.proof_id))),
            ("asset_id"@, AttrModel::Str(dec_of(p.asset_id))),
            ("event_id"@, match p.event_id {
                Option::Some(id) => AttrModel::Str(dec_of(id)),
                Option::None => AttrModel::Null,
            }),
            ("timestamp"@, AttrModel::Int(p.timestamp)),
            ("origin"@, AttrModel::Str(p.origin)),
            ("content"@, AttrModel::Obj(p.content)),
            ("previous_proof_hash"@, match p.previous_proof_hash {
                Option::Some(h) => AttrModel::Str(h),
                Option::None => AttrModel::Null,
            }),
            ("proof_hash"@, match p.proof_hash {
                Option::Some(h) => AttrModel::Str(h),
                Option::None => AttrModel::Null,
            }),
        ],
    )
}

/// The attribute forms of all assets, in order.
pub open spec fn asset_attr_seq(s: Seq<IntelligenceAsset>) -> Seq<AttrModel>
    decreases s,
{
    if s.len() == 0 {
        Seq::empty()
    } else {
        asset_attr_seq(s.drop_last()).push(asset_attr(s.last()@))
    }
}

/// The attribute forms of all events, in order.
pub open spec fn event_attr_seq(s: Seq<CapitalEvent>) -> Seq<AttrModel>
    decreases s,
{
    if s.len() == 0 {
        Seq::empty()
    } else {
        event_attr_seq(s.drop_last()).push(event_attr(s.last()@))
    }
}

/// The attribute forms of all ledger entries, in order.
pub open spec fn entry_attr_seq(s: Seq<LedgerEntry>) -> Seq<AttrModel>
    decreases s,
{
    if s.len() == 0 {
        Seq::empty()
    } else {
        entry_attr_seq(s.drop_last()).push(entry_attr(s.last()@))
    }
}

/// The attribute forms of all journal entries, in order.
pub open spec fn journal_attr_seq(s: Seq<JournalEntry>) -> Seq<AttrModel>
    decreases s,
{
    if s.len() == 0 {
        Seq::empty()
    } else {
        journal_attr_seq(s.drop_last()).push(journal_attr(s.last()@))
    }
}

/// The attribute forms of all proofs, in order.
pub open spec fn proof_attr_seq(s: Seq<CapitalProof>) -> Seq<AttrModel>
    decreases s,
{
    if s.len() == 0 {
        Seq::empty()
    } else {
        proof_attr_seq(s.drop_last()).push(proof_attr(s.last()@))
    }
}

/// The whole structured dump: version, export time, and every collection.
pub open spec fn dump_model(l: IntelligenceCapitalLedger, ts: int) -> AttrModel {
    AttrModel::Obj(
        seq![
            ("version"@, AttrModel::Str("1.0.0"@)),
            ("exported_at"@, AttrModel::Str(rfc3339_of(ts))),
            ("assets"@, AttrModel::Arr(asset_attr_seq(l.assets@))),
            ("events"@, AttrModel::Arr(event_attr_seq(l.events@))),
            ("entries"@, AttrModel::Arr(entry_attr_seq(l.entries@))),
            ("journal_entries"@, AttrModel::Arr(journal_attr_seq(l.journal_entries@))),
            ("proofs"@, AttrModel::Arr(proof_attr_seq(l.proofs@))),
        ],
    )
}

/// Renders an event into its attribute form.
fn event_to_attr(e: &CapitalEvent) -> (r: AttrValue)
    ensures
        model_of(r) == event_attr(e@),
{
    let mut bag: AttrBag = Vec::new();
    bag.push(("event_id".to_owned(), AttrValue::Str(u128_to_dec(e.event_id))));
    bag.push(("asset_id".to_owned(), AttrValue::Str(u128_to_dec(e.asset_id))));
    bag.push(("event_type".to_owned(), AttrValue::Str(e.event_type.clone())));
    bag.push(("timestamp".to_owned(), AttrValue::Int(e.timestamp)));
    bag.push(("details".to_owned(), AttrValue::Obj(duplicate_bag(&e.details))));
    let out = AttrValue::Obj(bag);
    proof {
        assert(bag_model(bag) =~= event_attr(e@)->Obj_0);
    }
    out
}

/// Renders a ledger entry into its attribute form.
fn entry_to_attr(e: &LedgerEntry) -> (r: AttrValue)
    ensures
        model_of(r) == entry_attr(e@),
{
    let mut bag: AttrBag = Vec::new();
    bag.push(("entry_id".to_owned(), AttrValue::Str(u128_to_dec(e.entry_id))));
    bag.push(("event_id".to_owned(), AttrValue::Str(u128_to_dec(e.event_id))));
    bag.push(("asset_id".to_owned(), AttrValue::Str(u128_to_dec(e.asset_id))));
    bag.push(("timestamp".to_owned(), AttrValue::Int(e.timestamp)));
    bag.push(("amount".to_owned(), AttrValue::Int(e.amount)));
    bag.push(("description".to_owned(), AttrValue::Str(e.description.clone())));
    bag.push(("metadata".to_owned(), AttrValue::Obj(duplicate_bag(&e.metadata))));
    let out = AttrValue::Obj(bag);
    proof {
        assert(bag_model(bag) =~= entry_attr(e@)->Obj_0);
    }
    out
}

/// Renders a journal entry into its attribute form.
fn journal_to_attr(e: &JournalEntry) -> (r: AttrValue)
    ensures
        model_of(r) == journal_attr(e@),
{
    let mut bag: AttrBag = Vec::new();
    bag.push(("entry_id".to_owned(), AttrValue::Str(u128_to_dec(e.entry_id))));
    bag.push(("event_id".to_owned(), AttrValue::Str(u128_to_dec(e.event_id))));
    bag.push(("timestamp".to_owned(), AttrValue::Int(e.timestamp)));
    bag.push(("debit_account".to_owned(), AttrValue::Str(e.debit_account.as_text())));
    bag.push(("credit_account".to_owned(), AttrValue::Str(e.credit_account.as_text())));
    bag.push(("amount".to_owned(), AttrValue::Int(e.amount)));
    bag.push(("description".to_owned(), AttrValue::Str(e.description.clone())));
    bag.push(("metadata".to_owned(), AttrValue::Obj(duplicate_bag(&e.metadata))));
    let out = AttrValue::Obj(bag);
    proof {
        assert(bag_model(bag) =~= journal_attr(e@)->Obj_0);
    }
    out
}

/// Renders a proof into its attribute form.
fn proof_to_attr(p: &CapitalProof) -> (r: AttrValue)
    ensures
        model_of(r) == proof_attr(p@),
{
    let mut bag: AttrBag = Vec::new();
    bag.push(("proof_id".to_owned(), AttrValue::Str(u128_to_dec(p.proof_id))));
    bag.push(("asset_id".to_owned(), AttrValue::Str(u128_to_dec(p.asset_id))));
    let linked = match p.event_id {
        Option::Some(id) => AttrValue::Str(u128_to_dec(id)),
        Option::None => AttrValue::Null,
    };
    bag.push(("event_id".to_owned(), linked));
    bag.push(("timestamp".to_owned(), AttrValue::Int(p.timestamp)));
    bag.push(("origin".to_owned(), AttrValue::Str(p.origin.clone())));
    bag.push(("content".to_owned(), AttrValue::Obj(duplicate_bag(&p.content))));
    let prev = match &p.previous_proof_hash {
        Option::Some(h) => AttrValue::Str(h.clone()),
        Option::None => AttrValue::Null,
    };
    bag.push(("previous_proof_hash".to_owned(), prev));
    let own = match &p.proof_hash {
        Option::Some(h) => AttrValue::Str(h.clone()),
        Option::None => AttrValue::Null,
    };
    bag.push(("proof_hash".to_owned(), own));
    let out = AttrValue::Obj(bag);
    proof {
        assert(bag_model(bag) =~= proof_attr(p@)->Obj_0);
    }
    out
}

impl IntelligenceCapitalLedger {
    /// Exports the audit trail: `json` gives the full structured dump,
    /// `csv` the flattened ledger entries; any other format is refused.
    #[verifier::loop_isolation(false)]
    #[verifier::rlimit(100)]
    pub fn export_audit_trail(&self, format: &str) -> (r: IclResult<String>)
        ensures
            format@ == "json"@ ==> (r matches Ok(s) && exists|ts: int| s@ == crate::attr::json_of(
                dump_model(*self, ts),
            )),
            format@ != "json"@ && format@ == "csv"@ ==> (r matches Ok(s) && s@ == csv_of(
                self.entries@,
            )),
            format@ != "json"@ && format@ != "csv"@ ==> (r matches Err(e) && (e matches
                IclError::UnsupportedFormat(m) && m@ == format@)),
    {
        let requested = format.to_owned();
        if requested == "json".to_owned() {
            let ts = now_ts();
            let mut assets_vec: Vec<AttrValue> = Vec::new();
            let mut i: usize = 0;
            while i < self.assets.len()
                invariant
                    i <= self.assets@.len(),
                    models_of(assets_vec@) =~= asset_attr_seq(self.assets@.subrange(0, i as int)),
                decreases self.assets@.len() - i,
            {
                proof {
                    assert(self.assets@.subrange(0, i + 1).drop_last() =~= self.assets@.subrange(
                        0,
                        i as int,
                    ));
                }
                let ghost pre = assets_vec@;
                assets_vec.push(asset_to_attr(&self.assets[i]));
                proof {
                    assert(models_of(assets_vec@) =~= models_of(pre).push(
                        model_of(assets_vec@.last()),
                    ));
                }
                i = i + 1;
            }
            assert(self.assets@.subrange(0, self.assets@.len() as int) =~= self.assets@);
            let mut events_vec: Vec<AttrValue> = Vec::new();
            let mut i: usize = 0;
            while i < self.events.len()
                invariant
                    i <= self.events@.len(),
                    models_of(events_vec@) =~= event_attr_seq(self.events@.subrange(0, i as int)),
                decreases self.events@.len() - i,
            {
                proof {
                    assert(self.events@.subrange(0, i + 1).drop_last() =~= self.events@.subrange(
                        0,
                        i as int,
                    ));
                }
                let ghost pre = events_vec@;
                events_vec.push(event_to_attr(&self.events[i]));
                proof {
                    assert(models_of(events_vec@) =~= models_of(pre).push(
                        model_of(events_vec@.last()),
                    ));
                }
                i = i + 1;
            }
            assert(self.events@.subrange(0, self.events@.len() as int) =~= self.events@);
            let mut entries_vec: Vec<AttrValue> = Vec::new();
            let mut i: usize = 0;
            while i < self.entries.len()
                invariant
                    i <= self.entries@.len(),
                    models_of(entries_vec@) =~= entry_attr_seq(
                        self.entries@.subrange(0, i as int),
                    ),
                decreases self.entries@.len() - i,
            {
                proof {
                    assert(self.entries@.subrange(0, i + 1).drop_last()
                        =~= self.entries@.subrange(0, i as int));
                }
                let ghost pre = entries_vec@;
                entries_vec.push(entry_to_attr(&self.entries[i]));
                proof {
                    assert(models_of(entries_vec@) =~= models_of(pre).push(
                        model_of(entries_vec@.last()),
                    ));
                }
                i = i + 1;
            }
            assert(self.entries@.subrange(0, self.entries@.len() as int) =~= self.entries@);
            let mut journal_vec: Vec<AttrValue> = Vec::new();
            let mut i: usize = 0;
            while i < self.journal_entries.len()
                invariant
                    i <= self.journal_entries@.len(),
                    models_of(journal_vec@) =~= journal_attr_seq(
                        self.journal_entries@.subrange(0, i as int),
                    ),
                decreases self.journal_entries@.len() - i,
            {
                proof {
                    assert(self.journal_entries@.subrange(0, i + 1).drop_last()
                        =~= self.journal_entries@.subrange(0, i as int));
                }
                let ghost pre = journal_vec@;
                journal_vec.push(journal_to_attr(&self.journal_entries[i]));
                proof {
                    assert(models_of(journal_vec@) =~= models_of(pre).push(
                        model_of(journal_vec@.last()),
                    ));
                }
                i = i + 1;
            }
            assert(self.journal_entries@.subrange(0, self.journal_entries@.len() as int)
                =~= self.journal_entries@);
            let mut proofs_vec: Vec<AttrValue> = Vec::new();
            let mut i: usize = 0;
            while i < self.proofs.len()
                invariant
                    i <= self.proofs@.len(),
                    models_of(proofs_vec@) =~= proof_attr_seq(self.proofs@.subrange(0, i as int)),
                decreases self.proofs@.len() - i,
            {
                proof {
                    assert(self.proofs@.subrange(0, i + 1).drop_last() =~= self.proofs@.subrange(
                        0,
                        i as int,
                    ));
                }
                let ghost pre = proofs_vec@;
                proofs_vec.push(proof_to_attr(&self.proofs[i]));
                proof {
                    assert(models_of(proofs_vec@) =~= models_of(pre).push(
                        model_of(proofs_vec@.last()),
                    ));
                }
                i = i + 1;
            }
            assert(self.proofs@.subrange(0, self.proofs@.len() as int) =~= self.proofs@);
            let mut root: AttrBag = Vec::new();
            root.push(("version".to_owned(), AttrValue::Str("1.0.0".to_owned())));
            root.push(("exported_at".to_owned(), AttrValue::Str(ts_to_rfc3339(ts))));
            root.push(("assets".to_owned(), AttrValue::Arr(assets_vec)));
            root.push(("events".to_owned(), AttrValue::Arr(events_vec)));
            root.push(("entries".to_owned(), AttrValue::Arr(entries_vec)));
            root.push(("journal_entries".to_owned(), AttrValue::Arr(journal_vec)));
            root.push(("proofs".to_owned(), AttrValue::Arr(proofs_vec)));
            let document = AttrValue::Obj(root);
            proof {
                assert(bag_model(root) =~= dump_model(*self, ts as int)->Obj_0);
            }
            Ok(render_json(&document))
        } else if requested == "csv".to_owned() {
            let mut out = "entry_id,event_id,asset_id,timestamp,amount,description\n".to_owned();
            let mut i: usize = 0;
            while i < self.entries.len()
                invariant
                    i <= self.entries@.len(),
                    out@ == "entry_id,event_id,asset_id,timestamp,amount,description\n"@
                        + csv_rows_of(self.entries@.subrange(0, i as int)),
                decreases self.entries@.len() - i,
            {
                proof {
                    assert(self.entries@.subrange(0, i + 1).drop_last()
                        =~= self.entries@.subrange(0, i as int));
                    assert(self.entries@.subrange(0, i + 1).last() == self.entries@[i as int]);
                    reveal_strlit(",");
                    reveal_strlit("\n");
                }
                let e = &self.entries[i];
                out.append(u128_to_dec(e.entry_id).as_str());
                out.append(",");
                out.append(u128_to_dec(e.event_id).as_str());
                out.append(",");
                out.append(u128_to_dec(e.asset_id).as_str());
                out.append(",");
                out.append(ts_to_rfc3339(e.timestamp).as_str());
                out.append(",");
                out.append(i64_to_dec(e.amount).as_str());
                out.append(",");
                append_semi(&mut out, &e.description);
                out.append("\n");
                proof {
                    assert(out@ =~= "entry_id,event_id,asset_id,timestamp,amount,description\n"@
                        + csv_rows_of(self.entries@.subrange(0, i + 1)));
                }
                i = i + 1;
            }
            proof {
                assert(self.entries@.subrange(0, self.entries@.len() as int) =~= self.entries@);
            }
            Ok(out)
        } else {
            Err(IclError::UnsupportedFormat(requested))
        }
    }
}

/// Appends a description with commas replaced by semicolons.
#[verifier::loop_isolation(false)]
fn append_semi(out: &mut String, s: &String)
    ensures
        final(out)@ == old(out)@ + semi_of(s@),
{
    let n = s.as_str().unicode_len();
    let mut i: usize = 0;
    assert(s@.subrange(0, 0) =~= Seq::<char>::empty());
    while i < n
        invariant
            n == s@.len(),
            i <= n,
            out@ == old(out)@ + semi_of(s@.subrange(0, i as int)),
        decreases n - i,
    {
        let c = s.as_str().get_char(i);
        proof {
            reveal_strlit(";");
        }
        if c == ',' {
            out.append(";");
        } else {
            crate::attr::push_char(out, c);
        }
        proof {
            assert(s@.subrange(0, i + 1).drop_last() =~= s@.subrange(0, i as int));
            assert(s@.subrange(0, i + 1).last() == s@[i as int]);
        }
        i = i + 1;
    }
    assert(s@.subrange(0, n as int) =~= s@);
}


impl Default for IntelligenceCapitalLedger {
    /// The default ledger is empty.
    fn default() -> (r: Self)
        ensures
            r.assets@.len() == 0,
            r.events@.len() == 0,
            r.entries@.len() == 0,
            r.journal_entries@.len() == 0,
            r.proofs@.len() == 0,
            r.wf(),
    {
        IntelligenceCapitalLedger::new()
    }
}

} // verus!
