//! The integrity checker: a read-only validator over a borrowed ledger,
//! enforcing structural invariants, temporal ordering, period-overlap
//! exclusion, and proof-chain linkage.
use vstd::prelude::*;
use crate::attr::{bag_get, bag_lookup, AttrModel, AttrValue};
use crate::date::{date_chars, format_date, parse_date, spec_parse_date, CalendarDate};
use crate::error::{IclError, IclResult};
use crate::ledger::IntelligenceCapitalLedger;
use crate::numfmt::u128_to_dec;
use crate::types::{CapitalEvent, CapitalProof, IntelligenceAsset, LedgerEntry, ProofModel};

verus! {

/// A stateless validator bound to a borrowed ledger.
pub struct IntegrityChecker<'a> {
    pub ledger: &'a IntelligenceCapitalLedger,
}

/// Structural validity of an asset: an owner, a positive initial value and
/// useful life, and a current value within bounds when present.
pub open spec fn asset_valid(a: crate::types::AssetModel) -> bool {
    &&& a.owner.len() > 0
    &&& a.initial_value > 0
    &&& a.useful_life_months > 0
    &&& match a.current_value {
        Option::Some(v) => 0 <= v <= a.initial_value,
        Option::None => true,
    }
}

/// Validity of an event against a ledger: its asset exists and its type is
/// not empty.
pub open spec fn event_valid(l: IntelligenceCapitalLedger, e: crate::types::EventModel) -> bool {
    &&& l.has_asset(e.asset_id)
    &&& e.event_type.len() > 0
}

/// Validity of an entry against a ledger: its asset exists and it is not
/// earlier than the last recorded entry.
pub open spec fn entry_valid(l: IntelligenceCapitalLedger, e: crate::types::EntryModel) -> bool {
    &&& l.has_asset(e.asset_id)
    &&& (l.entries@.len() > 0 ==> e.timestamp >= l.entries@.last()@.timestamp)
}

/// The depreciation period stored in an event's details, when both bounds
/// are strings in the ten-character date form.
pub open spec fn stored_period(details: Seq<(Seq<char>, AttrModel)>) -> Option<
    (CalendarDate, CalendarDate),
> {
    match bag_get(details, "start_date"@) {
        Option::Some(AttrModel::Str(s)) => match bag_get(details, "end_date"@) {
            Option::Some(AttrModel::Str(e)) => match spec_parse_date(s) {
                Option::Some(ds) => match spec_parse_date(e) {
                    Option::Some(de) => Option::Some((ds, de)),
                    Option::None => Option::None,
                },
                Option::None => Option::None,
            },
            _ => Option::None,
        },
        _ => Option::None,
    }
}

/// Whether a proposed period overlaps a recorded depreciation period of the
/// asset whose stored dates parse; both bounds compare strictly.
pub open spec fn period_overlaps_existing(
    events: Seq<CapitalEvent>,
    id: int,
    start: CalendarDate,
    end: CalendarDate,
) -> bool {
    exists|i: int|
        {
            &&& 0 <= i < events.len()
            &&& (#[trigger] events[i])@.asset_id == id
            &&& events[i]@.event_type == "depreciation"@
            &&& match stored_period(events[i]@.details) {
                Option::Some((ds, de)) => start.before(de) && ds.before(end),
                Option::None => false,
            }
        }
}

/// Whether a later proof's stored previous-hash disagrees with the earlier
/// proof's stored hash; absent hashes are skipped, not failed.
pub open spec fn break_between(prev: ProofModel, curr: ProofModel) -> bool {
    match (prev.proof_hash, curr.previous_proof_hash) {
        (Option::Some(h1), Option::Some(h2)) => h1 != h2,
        _ => false,
    }
}

/// The views of the proofs recorded for one asset, in recording order.
pub open spec fn proofs_of(s: Seq<CapitalProof>, id: int) -> Seq<ProofModel>
    decreases s,
{
    if s.len() == 0 {
        Seq::empty()
    } else if s.last()@.asset_id == id {
        proofs_of(s.drop_last(), id).push(s.last()@)
    } else {
        proofs_of(s.drop_last(), id)
    }
}

/// Stable insertion by timestamp: the proof lands after every proof whose
/// timestamp is not later.
pub open spec fn insert_by_ts(p: ProofModel, s: Seq<ProofModel>) -> Seq<ProofModel>
    decreases s,
{
    if s.len() == 0 {
        seq![p]
    } else if s.last().timestamp <= p.timestamp {
        s.push(p)
    } else {
        insert_by_ts(p, s.drop_last()).push(s.last())
    }
}

/// Stable sort by timestamp: proofs with equal timestamps keep their order.
pub open spec fn sort_by_ts(s: Seq<ProofModel>) -> Seq<ProofModel>
    decreases s,
{
    if s.len() == 0 {
        Seq::empty()
    } else {
        insert_by_ts(s.last(), sort_by_ts(s.drop_last()))
    }
}

/// The number of adjacent pairs whose chain linkage disagrees.
pub open spec fn chain_breaks(s: Seq<ProofModel>) -> int
    decreases s,
{
    if s.len() < 2 {
        0
    } else {
        chain_breaks(s.drop_last()) + if break_between(s[s.len() - 2], s.last()) {
            1int
        } else {
            0int
        }
    }
}

/// Whether the proof at a position is the first for its asset.
pub open spec fn first_occurrence(s: Seq<CapitalProof>, i: int) -> bool {
    forall|j: int| 0 <= j < i ==> (#[trigger] s[j])@.asset_id != s[i]@.asset_id
}

/// The chain breaks contributed by the proofs before a position: each asset
/// is counted once, at its first proof, over its timestamp-sorted group.
pub open spec fn breaks_upto(s: Seq<CapitalProof>, i: int) -> int
    decreases i,
{
    if i <= 0 {
        0
    } else {
        breaks_upto(s, i - 1) + if first_occurrence(s, i - 1) {
            chain_breaks(sort_by_ts(proofs_of(s, s[i - 1]@.asset_id)))
        } else {
            0int
        }
    }
}

/// The total number of chain breaks across every asset's proof group.
pub open spec fn total_breaks(s: Seq<CapitalProof>) -> int {
    breaks_upto(s, s.len() as int)
}

/// The views of a sequence of proofs.
pub open spec fn proof_views(s: Seq<CapitalProof>) -> Seq<ProofModel> {
    Seq::new(s.len(), |i: int| s[i]@)
}

impl<'a> IntegrityChecker<'a> {
    /// Binds a checker to a ledger.
    pub fn new(ledger: &'a IntelligenceCapitalLedger) -> (r: Self)
        ensures
            r.ledger == ledger,
    {
        IntegrityChecker { ledger }
    }

    /// Validates one asset's structural invariants.
    pub fn validate_asset(&self, asset: &IntelligenceAsset) -> (r: IclResult<()>)
        ensures
            r is Ok <==> asset_valid(asset@),
            r matches Err(e) ==> e is IntegrityViolation,
    {
        if asset.owner.as_str().is_empty() {
            return Err(IclError::IntegrityViolation("Asset must have an owner".to_owned()));
        }
        if asset.initial_value <= 0 {
            return Err(IclError::IntegrityViolation("Initial value must be positive".to_owned()));
        }
        if asset.useful_life_months <= 0 {
            return Err(IclError::IntegrityViolation("Useful life must be positive".to_owned()));
        }
        match asset.current_value {
            Option::Some(cv) => {
                if cv < 0 {
                    return Err(
                        IclError::IntegrityViolation("Current value cannot be negative".to_owned()),
                    );
                }
                if cv > asset.initial_value {
                    return Err(
                        IclError::IntegrityViolation(
                            "Current value cannot exceed initial value".to_owned(),
                        ),
                    );
                }
            },
            Option::None => {},
        }
        Ok(())
    }

    /// Validates one event against the ledger: an absent asset is reported
    /// as AssetNotFound, an empty event type as an integrity violation.
    pub fn validate_event(&self, event: &CapitalEvent) -> (r: IclResult<()>)
        ensures
            r is Ok <==> event_valid(*self.ledger, event@),
            !self.ledger.has_asset(event@.asset_id) ==> (r matches Err(e) && e matches
                IclError::AssetNotFound(id) && id as int == event@.asset_id),
            self.ledger.has_asset(event@.asset_id) && event@.event_type.len() == 0 ==> (r matches
                Err(e) && (e matches IclError::IntegrityViolation(m) && m@
                == "Event type is required"@)),
    {
        if self.ledger.find_asset_index(event.asset_id).is_none() {
            return Err(IclError::AssetNotFound(event.asset_id));
        }
        if event.event_type.as_str().is_empty() {
            return Err(IclError::IntegrityViolation("Event type is required".to_owned()));
        }
        Ok(())
    }

    /// Validates one entry against the ledger: an absent asset is reported
    /// as AssetNotFound; a timestamp before the last recorded entry's, as
    /// an integrity violation.
    pub fn validate_entry(&self, entry: &LedgerEntry) -> (r: IclResult<()>)
        ensures
            r is Ok <==> entry_valid(*self.ledger, entry@),
            !self.ledger.has_asset(entry@.asset_id) ==> (r matches Err(e) && e matches
                IclError::AssetNotFound(id) && id as int == entry@.asset_id),
            self.ledger.has_asset(entry@.asset_id) && self.ledger.entries@.len() > 0
                && entry@.timestamp < self.ledger.entries@.last()@.timestamp ==> (r matches Err(e)
                && (e matches IclError::IntegrityViolation(m) && m@
                == "Ledger entries must be time-ordered"@)),
    {
        if self.ledger.find_asset_index(entry.asset_id).is_none() {
            return Err(IclError::AssetNotFound(entry.asset_id));
        }
        if self.ledger.entries.len() > 0 {
            let last = &self.ledger.entries[self.ledger.entries.len() - 1];
            if entry.timestamp < last.timestamp {
                return Err(
                    IclError::IntegrityViolation("Ledger entries must be time-ordered".to_owned()),
                );
            }
        }
        Ok(())
    }

    /// Refuses a candidate event dated before the last recorded event.
    pub fn ensure_no_retroactive_modification(&self, new_event: &CapitalEvent) -> (r: IclResult<
        (),
    >)
        ensures
            r is Ok <==> (self.ledger.events@.len() == 0 || new_event@.timestamp
                >= self.ledger.events@.last()@.timestamp),
            r matches Err(e) ==> e is IntegrityViolation,
    {
        if self.ledger.events.len() > 0 {
            let last = &self.ledger.events[self.ledger.events.len() - 1];
            if new_event.timestamp < last.timestamp {
                return Err(
                    IclError::IntegrityViolation(
                        "Cannot add event with timestamp before last recorded event".to_owned(),
                    ),
                );
            }
        }
        Ok(())
    }

    /// Refuses a period that runs backward or overlaps a recorded
    /// depreciation period of the asset; recorded periods whose stored
    /// dates do not parse are skipped.
    #[verifier::loop_isolation(false)]
    pub fn validate_depreciation_period(
        &self,
        asset_id: u128,
        start: CalendarDate,
        end: CalendarDate,
    ) -> (r: IclResult<()>)
        requires
            start.valid(),
            end.valid(),
        ensures
            !start.before(end) ==> (r matches Err(e) && (e matches IclError::InvalidDateRange {
                start: s,
                end: en,
            } && s@ == date_chars(start) && en@ == date_chars(end))),
            start.before(end) && period_overlaps_existing(
                self.ledger.events@,
                asset_id as int,
                start,
                end,
            ) ==> r matches Err(IclError::OverlappingDepreciation),
            start.before(end) && !period_overlaps_existing(
                self.ledger.events@,
                asset_id as int,
                start,
                end,
            ) ==> r is Ok,
    {
        if !start.earlier(&end) {
            return Err(
                IclError::InvalidDateRange { start: format_date(&start), end: format_date(&end) },
            );
        }
        let events = &self.ledger.events;
        let wanted_type: String = "depreciation".to_owned();
        let mut i: usize = 0;
        while i < events.len()
            invariant
                i <= events@.len(),
                forall|j: int|
                    0 <= j < i ==> !((#[trigger] events@[j])@.asset_id == asset_id as int
                        && events@[j]@.event_type == "depreciation"@ && match stored_period(
                        events@[j]@.details,
                    ) {
                        Option::Some((ds, de)) => start.before(de) && ds.before(end),
                        Option::None => false,
                    }),
            decreases events@.len() - i,
        {
            let e = &events[i];
            if e.asset_id == asset_id && e.event_type == wanted_type {
                let stored_start = match bag_lookup(&e.details, "start_date") {
                    Option::Some(AttrValue::Str(s)) => parse_date(s.as_str()),
                    _ => Option::None,
                };
                let stored_end = match bag_lookup(&e.details, "end_date") {
                    Option::Some(AttrValue::Str(s)) => parse_date(s.as_str()),
                    _ => Option::None,
                };
                match (stored_start, stored_end) {
                    (Option::Some(ds), Option::Some(de)) => {
                        if start.earlier(&de) && ds.earlier(&end) {
                            return Err(IclError::OverlappingDepreciation);
                        }
                    },
                    _ => {},
                }
            }
            i = i + 1;
        }
        Ok(())
    }
}


/// The number of invalid assets among the first `i`.
pub open spec fn invalid_assets_upto(l: IntelligenceCapitalLedger, i: int) -> int
    decreases i,
{
    if i <= 0 {
        0
    } else {
        invalid_assets_upto(l, i - 1) + if !asset_valid(l.assets@[i - 1]@) {
            1int
        } else {
            0int
        }
    }
}

/// The number of invalid events among the first `i`.
pub open spec fn invalid_events_upto(l: IntelligenceCapitalLedger, i: int) -> int
    decreases i,
{
    if i <= 0 {
        0
    } else {
        invalid_events_upto(l, i - 1) + if !event_valid(l, l.events@[i - 1]@) {
            1int
        } else {
            0int
        }
    }
}

/// The number of invalid entries among the first `i`.
pub open spec fn invalid_entries_upto(l: IntelligenceCapitalLedger, i: int) -> int
    decreases i,
{
    if i <= 0 {
        0
    } else {
        invalid_entries_upto(l, i - 1) + if !entry_valid(l, l.entries@[i - 1]@) {
            1int
        } else {
            0int
        }
    }
}

proof fn lemma_invalid_assets_zero(l: IntelligenceCapitalLedger, i: int)
    requires
        0 <= i <= l.assets@.len(),
    ensures
        invalid_assets_upto(l, i) >= 0,
        invalid_assets_upto(l, i) == 0 <==> forall|j: int|
            0 <= j < i ==> asset_valid((#[trigger] l.assets@[j])@),
    decreases i,
{
    if i > 0 {
        lemma_invalid_assets_zero(l, i - 1);
    }
}

proof fn lemma_invalid_events_zero(l: IntelligenceCapitalLedger, i: int)
    requires
        0 <= i <= l.events@.len(),
    ensures
        invalid_events_upto(l, i) >= 0,
        invalid_events_upto(l, i) == 0 <==> forall|j: int|
            0 <= j < i ==> event_valid(l, (#[trigger] l.events@[j])@),
    decreases i,
{
    if i > 0 {
        lemma_invalid_events_zero(l, i - 1);
    }
}

proof fn lemma_invalid_entries_zero(l: IntelligenceCapitalLedger, i: int)
    requires
        0 <= i <= l.entries@.len(),
    ensures
        invalid_entries_upto(l, i) >= 0,
        invalid_entries_upto(l, i) == 0 <==> forall|j: int|
            0 <= j < i ==> entry_valid(l, (#[trigger] l.entries@[j])@),
    decreases i,
{
    if i > 0 {
        lemma_invalid_entries_zero(l, i - 1);
    }
}

/// A break count is never negative.
proof fn lemma_chain_breaks_nonneg(s: Seq<ProofModel>)
    ensures
        chain_breaks(s) >= 0,
    decreases s,
{
    if s.len() >= 2 {
        lemma_chain_breaks_nonneg(s.drop_last());
    }
}

proof fn lemma_breaks_upto_nonneg(s: Seq<CapitalProof>, i: int)
    ensures
        breaks_upto(s, i) >= 0,
    decreases i,
{
    if i > 0 {
        lemma_breaks_upto_nonneg(s, i - 1);
        if first_occurrence(s, i - 1) {
            lemma_chain_breaks_nonneg(sort_by_ts(proofs_of(s, s[i - 1]@.asset_id)));
        }
    }
}

proof fn lemma_breaks_upto_zero(s: Seq<CapitalProof>, i: int)
    requires
        0 <= i <= s.len(),
    ensures
        breaks_upto(s, i) == 0 <==> forall|j: int|
            0 <= j < i && first_occurrence(s, j) ==> chain_breaks(
                sort_by_ts(proofs_of(s, (#[trigger] s[j])@.asset_id)),
            ) == 0,
    decreases i,
{
    if i > 0 {
        lemma_breaks_upto_zero(s, i - 1);
        lemma_breaks_upto_nonneg(s, i - 1);
        if first_occurrence(s, i - 1) {
            lemma_chain_breaks_nonneg(sort_by_ts(proofs_of(s, s[i - 1]@.asset_id)));
        }
    }
}

/// Whether a group of proofs is already in timestamp order.
pub open spec fn ts_sorted(s: Seq<ProofModel>) -> bool {
    forall|i: int| 0 <= i < s.len() - 1 ==> (#[trigger] s[i]).timestamp <= s[i + 1].timestamp
}

/// Whether every adjacent pair of a group links correctly.
pub open spec fn links_ok(s: Seq<ProofModel>) -> bool {
    forall|i: int| 0 <= i < s.len() - 1 ==> !break_between(#[trigger] s[i], s[i + 1])
}

/// Sorting a group already in timestamp order leaves it unchanged.
proof fn lemma_sort_of_sorted(s: Seq<ProofModel>)
    requires
        ts_sorted(s),
    ensures
        sort_by_ts(s) == s,
    decreases s,
{
    if s.len() > 0 {
        assert(ts_sorted(s.drop_last())) by {
            assert(forall|i: int|
                0 <= i < s.drop_last().len() - 1 ==> (#[trigger] s.drop_last()[i]).timestamp
                    <= s.drop_last()[i + 1].timestamp) by {
                assert(forall|i: int|
                    0 <= i < s.len() - 1 ==> (#[trigger] s[i]).timestamp <= s[i + 1].timestamp);
            };
        };
        lemma_sort_of_sorted(s.drop_last());
        if s.len() == 1 {
            assert(insert_by_ts(s.last(), Seq::empty()) =~= s);
        } else {
            assert(s.drop_last().last().timestamp <= s.last().timestamp);
            assert(insert_by_ts(s.last(), s.drop_last()) =~= s);
        }
    }
}

/// A correctly linked group reports no breaks.
proof fn lemma_links_ok_no_breaks(s: Seq<ProofModel>)
    requires
        links_ok(s),
    ensures
        chain_breaks(s) == 0,
    decreases s,
{
    if s.len() >= 2 {
        assert(links_ok(s.drop_last())) by {
            assert(forall|i: int|
                0 <= i < s.len() - 1 ==> !break_between(#[trigger] s[i], s[i + 1]));
        };
        lemma_links_ok_no_breaks(s.drop_last());
        assert(!break_between(s[s.len() - 2], s.last()));
    }
}

proof fn lemma_untampered_upto(s: Seq<CapitalProof>, i: int)
    requires
        0 <= i <= s.len(),
        forall|id: int| ts_sorted(#[trigger] proofs_of(s, id)) && links_ok(proofs_of(s, id)),
    ensures
        breaks_upto(s, i) == 0,
    decreases i,
{
    if i > 0 {
        lemma_untampered_upto(s, i - 1);
        if first_occurrence(s, i - 1) {
            let id = s[i - 1]@.asset_id;
            lemma_sort_of_sorted(proofs_of(s, id));
            lemma_links_ok_no_breaks(proofs_of(s, id));
        }
    }
}

/// A freshly generated, untampered ledger reports no chain breaks: when
/// each asset's proofs were appended in timestamp order and each proof's
/// stored previous-hash equals the hash its predecessor stored, the chain
/// verifier counts no break for any asset.
pub proof fn lemma_untampered_chain_has_no_breaks(s: Seq<CapitalProof>)
    requires
        forall|id: int| ts_sorted(#[trigger] proofs_of(s, id)) && links_ok(proofs_of(s, id)),
    ensures
        total_breaks(s) == 0,
{
    lemma_untampered_upto(s, s.len() as int);
}

/// Positions `insert_by_ts` exactly: the proof lands at the first position
/// from the end whose predecessor is not later.
proof fn lemma_insert_position(p: ProofModel, s: Seq<ProofModel>, k: int)
    requires
        0 <= k <= s.len(),
        k == 0 || s[k - 1].timestamp <= p.timestamp,
        forall|j: int| k <= j < s.len() ==> (#[trigger] s[j]).timestamp > p.timestamp,
    ensures
        insert_by_ts(p, s) == s.subrange(0, k) + seq![p] + s.subrange(k, s.len() as int),
    decreases s,
{
    if s.len() == 0 {
        assert(insert_by_ts(p, s) =~= s.subrange(0, k) + seq![p] + s.subrange(k, s.len() as int));
    } else if s.last().timestamp <= p.timestamp {
        assert(k == s.len());
        assert(s.push(p) =~= s.subrange(0, k) + seq![p] + s.subrange(k, s.len() as int));
    } else {
        assert(k < s.len());
        lemma_insert_position(p, s.drop_last(), k);
        assert(insert_by_ts(p, s.drop_last()).push(s.last()) =~= s.subrange(0, k) + seq![p]
            + s.subrange(k, s.len() as int));
    }
}

/// Groups the proofs recorded for one asset, in recording order.
#[verifier::loop_isolation(false)]
fn group_proofs_for(proofs: &Vec<CapitalProof>, asset_id: u128) -> (r: Vec<CapitalProof>)
    ensures
        proof_views(r@) == proofs_of(proofs@, asset_id as int),
{
    let mut out: Vec<CapitalProof> = Vec::new();
    let mut i: usize = 0;
    while i < proofs.len()
        invariant
            i <= proofs@.len(),
            proof_views(out@) =~= proofs_of(proofs@.subrange(0, i as int), asset_id as int),
        decreases proofs@.len() - i,
    {
        proof {
            assert(proofs@.subrange(0, i + 1).drop_last() =~= proofs@.subrange(0, i as int));
            assert(proofs@.subrange(0, i + 1).last() == proofs@[i as int]);
        }
        if proofs[i].asset_id == asset_id {
            let ghost pre = out@;
            out.push(proofs[i].duplicate());
            proof {
                assert(proof_views(out@) =~= proof_views(pre).push(out@.last()@));
            }
        }
        i = i + 1;
    }
    proof {
        assert(proofs@.subrange(0, proofs@.len() as int) =~= proofs@);
    }
    out
}

/// Inserts a proof into a timestamp-sorted group, after its equals.
#[verifier::loop_isolation(false)]
fn insert_sorted(group: &mut Vec<CapitalProof>, p: CapitalProof)
    ensures
        proof_views(final(group)@) == insert_by_ts(p@, proof_views(old(group)@)),
{
    let mut k: usize = group.len();
    while k > 0 && group[k - 1].timestamp > p.timestamp
        invariant
            k <= group@.len(),
            forall|j: int|
                k <= j < group@.len() ==> (#[trigger] group@[j])@.timestamp > p@.timestamp,
        decreases k,
    {
        k = k - 1;
    }
    let ghost pre = group@;
    let ghost kk = k as int;
    group.insert(k, p);
    proof {
        lemma_insert_position(p@, proof_views(pre), kk);
        assert(proof_views(group@) =~= proof_views(pre).subrange(0, kk) + seq![p@] + proof_views(
            pre,
        ).subrange(kk, pre.len() as int));
    }
}

/// Sorts a group of proofs by timestamp, stably.
#[verifier::loop_isolation(false)]
fn sort_group(group: &Vec<CapitalProof>) -> (r: Vec<CapitalProof>)
    ensures
        proof_views(r@) == sort_by_ts(proof_views(group@)),
{
    let mut out: Vec<CapitalProof> = Vec::new();
    let mut i: usize = 0;
    while i < group.len()
        invariant
            i <= group@.len(),
            proof_views(out@) == sort_by_ts(proof_views(group@.subrange(0, i as int))),
        decreases group@.len() - i,
    {
        proof {
            assert(proof_views(group@.subrange(0, i + 1)).drop_last() =~= proof_views(
                group@.subrange(0, i as int),
            ));
            assert(proof_views(group@.subrange(0, i + 1)).last() == group@[i as int]@);
        }
        insert_sorted(&mut out, group[i].duplicate());
        i = i + 1;
    }
    proof {
        assert(group@.subrange(0, group@.len() as int) =~= group@);
        assert(proof_views(group@.subrange(0, group@.len() as int)) =~= proof_views(group@));
    }
    out
}

impl<'a> IntegrityChecker<'a> {
    /// Whether an earlier proof on the ledger has the same asset.
    #[verifier::loop_isolation(false)]
    fn seen_before(&self, i: usize) -> (r: bool)
        requires
            i < self.ledger.proofs@.len(),
        ensures
            r == !first_occurrence(self.ledger.proofs@, i as int),
    {
        let mut j: usize = 0;
        while j < i
            invariant
                j <= i,
                i < self.ledger.proofs@.len(),
                forall|t: int|
                    0 <= t < j ==> (#[trigger] self.ledger.proofs@[t])@.asset_id
                        != self.ledger.proofs@[i as int]@.asset_id,
            decreases i - j,
        {
            if self.ledger.proofs[j].asset_id == self.ledger.proofs[i].asset_id {
                return true;
            }
            j = j + 1;
        }
        false
    }

    /// Verifies every asset's proof chain: groups proofs by asset, orders
    /// each group by timestamp, and reports one break for each adjacent
    /// pair whose linkage disagrees.
    #[verifier::loop_isolation(false)]
    #[verifier::rlimit(50)]
    pub fn verify_proof_chain(&self) -> (r: Vec<String>)
        ensures
            r@.len() == total_breaks(self.ledger.proofs@),
    {
        let proofs = &self.ledger.proofs;
        let mut out: Vec<String> = Vec::new();
        let mut i: usize = 0;
        while i < proofs.len()
            invariant
                i <= proofs@.len(),
                out@.len() == breaks_upto(proofs@, i as int),
            decreases proofs@.len() - i,
        {
            if !self.seen_before(i) {
                let asset_id = proofs[i].asset_id;
                let group = group_proofs_for(proofs, asset_id);
                let sorted = sort_group(&group);
                let ghost sorted_models = sort_by_ts(proofs_of(proofs@, asset_id as int));
                let ghost base = out@.len() as int;
                if sorted.len() > 0 {
                    let mut k: usize = 1;
                    while k < sorted.len()
                        invariant
                            1 <= k <= sorted@.len(),
                            sorted@.len() > 0,
                            proof_views(sorted@) == sorted_models,
                            out@.len() == base + chain_breaks(
                                sorted_models.subrange(0, k as int),
                            ),
                        decreases sorted@.len() - k,
                    {
                        proof {
                            assert(sorted_models.subrange(0, k + 1).drop_last()
                                =~= sorted_models.subrange(0, k as int));
                            assert(sorted_models.subrange(0, k + 1).last()
                                == sorted_models[k as int]);
                            assert(sorted_models.subrange(0, k + 1)[k - 1]
                                == sorted_models[k - 1]);
                            lemma_chain_breaks_nonneg(sorted_models.subrange(0, k as int));
                        }
                        let broken = match (
                            &sorted[k - 1].proof_hash,
                            &sorted[k].previous_proof_hash,
                        ) {
                            (Option::Some(h1), Option::Some(h2)) => !h1.eq(h2),
                            _ => false,
                        };
                        if broken {
                            let mut msg = "Proof chain break for asset ".to_owned();
                            msg.append(u128_to_dec(asset_id).as_str());
                            msg.append(": proof ");
                            msg.append(u128_to_dec(sorted[k].proof_id).as_str());
                            msg.append(" references wrong previous hash");
                            out.push(msg);
                        }
                        k = k + 1;
                    }
                    proof {
                        assert(sorted_models.subrange(0, sorted_models.len() as int)
                            =~= sorted_models);
                    }
                } else {
                    proof {
                        assert(chain_breaks(sorted_models) == 0);
                    }
                }
            }
            i = i + 1;
        }
        out
    }

    /// Scans every asset, event and entry, and the proof chains; returns
    /// one description per violation, without short-circuiting. The result
    /// is empty exactly when the whole ledger is consistent.
    #[verifier::loop_isolation(false)]
    pub fn check_all_integrity(&self) -> (r: Vec<String>)
        ensures
            r@.len() == invalid_assets_upto(*self.ledger, self.ledger.assets@.len() as int)
                + invalid_events_upto(*self.ledger, self.ledger.events@.len() as int)
                + invalid_entries_upto(*self.ledger, self.ledger.entries@.len() as int)
                + total_breaks(self.ledger.proofs@),
            r@.len() == 0 <==> {
                &&& forall|j: int|
                    0 <= j < self.ledger.assets@.len() ==> asset_valid(
                        (#[trigger] self.ledger.assets@[j])@,
                    )
                &&& forall|j: int|
                    0 <= j < self.ledger.events@.len() ==> event_valid(
                        *self.ledger,
                        (#[trigger] self.ledger.events@[j])@,
                    )
                &&& forall|j: int|
                    0 <= j < self.ledger.entries@.len() ==> entry_valid(
                        *self.ledger,
                        (#[trigger] self.ledger.entries@[j])@,
                    )
                &&& total_breaks(self.ledger.proofs@) == 0
            },
    {
        let mut out: Vec<String> = Vec::new();
        let mut i: usize = 0;
        while i < self.ledger.assets.len()
            invariant
                i <= self.ledger.assets@.len(),
                out@.len() == invalid_assets_upto(*self.ledger, i as int),
            decreases self.ledger.assets@.len() - i,
        {
            match self.validate_asset(&self.ledger.assets[i]) {
                Ok(_) => {},
                Err(e) => {
                    let mut msg = "Asset ".to_owned();
                    msg.append(u128_to_dec(self.ledger.assets[i].asset_id).as_str());
                    msg.append(": ");
                    msg.append(e.describe().as_str());
                    out.push(msg);
                },
            }
            i = i + 1;
        }
        let ghost asset_errors = out@.len() as int;
        let mut i: usize = 0;
        while i < self.ledger.events.len()
            invariant
                i <= self.ledger.events@.len(),
                out@.len() == asset_errors + invalid_events_upto(*self.ledger, i as int),
            decreases self.ledger.events@.len() - i,
        {
            match self.validate_event(&self.ledger.events[i]) {
                Ok(_) => {},
                Err(e) => {
                    let mut msg = "Event ".to_owned();
                    msg.append(u128_to_dec(self.ledger.events[i].event_id).as_str());
                    msg.append(": ");
                    msg.append(e.describe().as_str());
                    out.push(msg);
                },
            }
            i = i + 1;
        }
        let ghost event_errors = out@.len() as int;
        let mut i: usize = 0;
        while i < self.ledger.entries.len()
            invariant
                i <= self.ledger.entries@.len(),
                out@.len() == event_errors + invalid_entries_upto(*self.ledger, i as int),
            decreases self.ledger.entries@.len() - i,
        {
            match self.validate_entry(&self.ledger.entries[i]) {
                Ok(_) => {},
                Err(e) => {
                    let mut msg = "Entry ".to_owned();
                    msg.append(u128_to_dec(self.ledger.entries[i].entry_id).as_str());
                    msg.append(": ");
                    msg.append(e.describe().as_str());
                    out.push(msg);
                },
            }
            i = i + 1;
        }
        let ghost entry_errors = out@.len() as int;
        let breaks = self.verify_proof_chain();
        let mut i: usize = 0;
        while i < breaks.len()
            invariant
                i <= breaks@.len(),
                out@.len() == entry_errors + i,
            decreases breaks@.len() - i,
        {
            out.push(breaks[i].clone());
            i = i + 1;
        }
        proof {
            lemma_invalid_assets_zero(*self.ledger, self.ledger.assets@.len() as int);
            lemma_invalid_events_zero(*self.ledger, self.ledger.events@.len() as int);
            lemma_invalid_entries_zero(*self.ledger, self.ledger.entries@.len() as int);
            lemma_breaks_upto_nonneg(self.ledger.proofs@, self.ledger.proofs@.len() as int);
        }
        out
    }
}


/// A group with exactly one disagreeing adjacent pair reports exactly one
/// break.
proof fn lemma_single_break_count(g: Seq<ProofModel>, k: int)
    requires
        0 <= k < g.len() - 1,
        break_between(g[k], g[k + 1]),
        forall|i: int|
            0 <= i < g.len() - 1 && i != k ==> !break_between(#[trigger] g[i], g[i + 1]),
    ensures
        chain_breaks(g) == 1,
    decreases g,
{
    if k == g.len() - 2 {
        assert(links_ok(g.drop_last())) by {
            assert(forall|i: int|
                0 <= i < g.drop_last().len() - 1 ==> !break_between(
                    #[trigger] g.drop_last()[i],
                    g.drop_last()[i + 1],
                )) by {
                assert(forall|i: int|
                    0 <= i < g.len() - 1 && i != k ==> !break_between(
                        #[trigger] g[i],
                        g[i + 1],
                    ));
            };
        };
        lemma_links_ok_no_breaks(g.drop_last());
        assert(break_between(g[g.len() - 2], g.last()));
    } else {
        assert(g.drop_last()[k] == g[k] && g.drop_last()[k + 1] == g[k + 1]);
        lemma_single_break_count(g.drop_last(), k);
        assert(!break_between(g[g.len() - 2], g.last()));
    }
}

/// A proof group that is non-empty names its asset somewhere in the log.
proof fn lemma_proofs_of_nonempty(s: Seq<CapitalProof>, a: int)
    requires
        proofs_of(s, a).len() > 0,
    ensures
        exists|j: int| 0 <= j < s.len() && (#[trigger] s[j])@.asset_id == a,
    decreases s,
{
    if s.len() > 0 {
        if s.last()@.asset_id == a {
            assert(s[s.len() - 1]@.asset_id == a);
        } else {
            lemma_proofs_of_nonempty(s.drop_last(), a);
            let j = choose|j: int|
                0 <= j < s.drop_last().len() && (#[trigger] s.drop_last()[j])@.asset_id == a;
            assert(s[j]@.asset_id == a);
        }
    }
}

proof fn lemma_tampered_upto(s: Seq<CapitalProof>, a: int, k: int, i: int)
    requires
        0 <= i <= s.len(),
        ts_sorted(proofs_of(s, a)),
        0 <= k < proofs_of(s, a).len() - 1,
        break_between(proofs_of(s, a)[k], proofs_of(s, a)[k + 1]),
        forall|t: int|
            0 <= t < proofs_of(s, a).len() - 1 && t != k ==> !break_between(
                #[trigger] proofs_of(s, a)[t],
                proofs_of(s, a)[t + 1],
            ),
        forall|id: int|
            id != a ==> ts_sorted(#[trigger] proofs_of(s, id)) && links_ok(proofs_of(s, id)),
    ensures
        breaks_upto(s, i) == if exists|j: int|
            0 <= j < i && (#[trigger] s[j])@.asset_id == a {
            1int
        } else {
            0int
        },
    decreases i,
{
    if i > 0 {
        lemma_tampered_upto(s, a, k, i - 1);
        if first_occurrence(s, i - 1) {
            let id = s[i - 1]@.asset_id;
            lemma_sort_of_sorted(proofs_of(s, id));
            if id == a {
                lemma_single_break_count(proofs_of(s, a), k);
                assert(s[i - 1]@.asset_id == a);
                assert(!(exists|j: int| 0 <= j < i - 1 && (#[trigger] s[j])@.asset_id == a));
            } else {
                lemma_links_ok_no_breaks(proofs_of(s, id));
            }
        } else {
            if s[i - 1]@.asset_id == a {
                let j = choose|j: int| 0 <= j < i - 1 && (#[trigger] s[j])@.asset_id == a;
                assert(0 <= j < i && s[j]@.asset_id == a);
            }
        }
        if exists|j: int| 0 <= j < i - 1 && (#[trigger] s[j])@.asset_id == a {
            let j = choose|j: int| 0 <= j < i - 1 && (#[trigger] s[j])@.asset_id == a;
            assert(0 <= j < i && s[j]@.asset_id == a);
        }
    }
}

/// Tampering with exactly one link of one asset's otherwise untampered,
/// timestamp-ordered chain introduces exactly one reported break: the
/// chain verifier counts one break in total, at that link.
pub proof fn lemma_single_tamper_one_break(s: Seq<CapitalProof>, a: int, k: int)
    requires
        ts_sorted(proofs_of(s, a)),
        0 <= k < proofs_of(s, a).len() - 1,
        break_between(proofs_of(s, a)[k], proofs_of(s, a)[k + 1]),
        forall|t: int|
            0 <= t < proofs_of(s, a).len() - 1 && t != k ==> !break_between(
                #[trigger] proofs_of(s, a)[t],
                proofs_of(s, a)[t + 1],
            ),
        forall|id: int|
            id != a ==> ts_sorted(#[trigger] proofs_of(s, id)) && links_ok(proofs_of(s, id)),
    ensures
        total_breaks(s) == 1,
{
    lemma_proofs_of_nonempty(s, a);
    lemma_tampered_upto(s, a, k, s.len() as int);
}

/// A depreciation event recorded with rendered period bounds always
/// conflicts with any later period that overlaps it: the stored dates
/// parse back to the dates that were rendered, so the overlap scan cannot
/// miss the recorded period.
pub proof fn lemma_recorded_period_conflicts(
    events: Seq<CapitalEvent>,
    id: int,
    i: int,
    s1: CalendarDate,
    e1: CalendarDate,
    s2: CalendarDate,
    e2: CalendarDate,
)
    requires
        0 <= i < events.len(),
        events[i]@.asset_id == id,
        events[i]@.event_type == "depreciation"@,
        bag_get(events[i]@.details, "start_date"@) == Option::Some(
            AttrModel::Str(date_chars(s1)),
        ),
        bag_get(events[i]@.details, "end_date"@) == Option::Some(AttrModel::Str(date_chars(e1))),
        s1.valid(),
        e1.valid(),
        s2.before(e1),
        s1.before(e2),
    ensures
        period_overlaps_existing(events, id, s2, e2),
{
    crate::date::lemma_date_round_trip(s1);
    crate::date::lemma_date_round_trip(e1);
    assert(stored_period(events[i]@.details) == Option::Some((s1, e1)));
}

} // verus!
