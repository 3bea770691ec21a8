//! The proof generator: builds and verifies hash-chained audit proofs over
//! ledger snapshots, without writing to the ledger.
use vstd::prelude::*;
use crate::attr::{
    bag_int, bag_int_or_zero, bag_lookup, bag_model, duplicate_bag, model_of, models_of, AttrBag,
    AttrModel, AttrValue,
};
use crate::date::{parse_date, spec_parse_date, CalendarDate};
use crate::error::{IclError, IclResult};
use crate::integrity::stored_period;
use crate::ledger::IntelligenceCapitalLedger;
use crate::lifecycle::sat_add_i64;
use crate::numfmt::{dec_of, u128_to_dec};
use crate::outside::{fresh_id, now_ts, rfc3339_of, sha256_hex_of, ts_to_rfc3339};
use crate::types::{
    build_proof_content, hash_input_of, spec_proof_content, CapitalEvent, CapitalProof,
    EventModel, ProofModel,
};

verus! {

broadcast use crate::attr::lemma_pair_models_of_len, crate::attr::lemma_pair_models_of_index;

/// A proof generator bound to a borrowed ledger; it reads state and returns
/// proofs without recording them.
pub struct CapitalProofGenerator<'a> {
    pub ledger: &'a IntelligenceCapitalLedger,
}

/// The stored hash of the most recent proof for the asset: absent when the
/// asset has no proof, or when that proof carries no hash.
pub open spec fn latest_hash_of(s: Seq<CapitalProof>, id: int) -> Option<Seq<char>>
    decreases s,
{
    if s.len() == 0 {
        Option::None
    } else if s.last()@.asset_id == id {
        s.last()@.proof_hash
    } else {
        latest_hash_of(s.drop_last(), id)
    }
}

/// The attribute form of one event in an asset's history.
pub open spec fn history_attr(e: EventModel) -> AttrModel {
    AttrModel::Obj(
        seq![
            ("event_id"@, AttrModel::Str(dec_of(e.event_id))),
            ("event_type"@, AttrModel::Str(e.event_type)),
            ("timestamp"@, AttrModel::Str(rfc3339_of(e.timestamp))),
            ("details"@, AttrModel::Obj(e.details)),
        ],
    )
}

/// The history entries for an asset, in recording order.
pub open spec fn history_of(s: Seq<CapitalEvent>, id: int) -> Seq<AttrModel>
    decreases s,
{
    if s.len() == 0 {
        Seq::empty()
    } else if s.last()@.asset_id == id {
        history_of(s.drop_last(), id).push(history_attr(s.last()@))
    } else {
        history_of(s.drop_last(), id)
    }
}

/// Whether a stored depreciation period lies within the requested bounds.
pub open spec fn period_within(
    p: (CalendarDate, CalendarDate),
    lo: CalendarDate,
    hi: CalendarDate,
) -> bool {
    !p.0.before(lo) && !hi.before(p.1)
}

/// The amounts of the asset's depreciation events whose stored period lies
/// within the bounds, summed with 64-bit saturation at each step; events
/// whose stored dates do not parse are skipped.
pub open spec fn dep_sum_in_range_sat(
    events: Seq<CapitalEvent>,
    id: int,
    lo: CalendarDate,
    hi: CalendarDate,
) -> int
    decreases events,
{
    if events.len() == 0 {
        0
    } else {
        let rest = dep_sum_in_range_sat(events.drop_last(), id, lo, hi);
        if events.last()@.asset_id == id && events.last()@.event_type == "depreciation"@
            && match stored_period(events.last()@.details) {
            Option::Some(p) => period_within(p, lo, hi),
            Option::None => false,
        } {
            sat_add_i64(rest, bag_int_or_zero(events.last()@.details, "amount"@))
        } else {
            rest
        }
    }
}

/// The period sum a financial-outcome proof reports: the asset's
/// depreciation summed over the recorded periods lying within the given
/// bounds, or zero when either bound does not parse as a date.
pub open spec fn outcome_total(
    events: Seq<CapitalEvent>,
    id: int,
    start: Seq<char>,
    end: Seq<char>,
) -> int {
    match spec_parse_date(start) {
        Option::Some(lo) => match spec_parse_date(end) {
            Option::Some(hi) => dep_sum_in_range_sat(events, id, lo, hi),
            Option::None => 0,
        },
        Option::None => 0,
    }
}

/// Sums the asset's depreciation amounts over the recorded periods lying
/// within the bounds, saturating at the 64-bit bounds.
#[verifier::loop_isolation(false)]
fn sum_depreciation_in_range(
    events: &Vec<CapitalEvent>,
    asset_id: u128,
    lo: CalendarDate,
    hi: CalendarDate,
) -> (r: i64)
    ensures
        r as int == dep_sum_in_range_sat(events@, asset_id as int, lo, hi),
{
    let mut acc: i64 = 0;
    let mut i: usize = 0;
    let wanted: String = "depreciation".to_owned();
    proof {
        assert(events@.subrange(0, 0) =~= Seq::<CapitalEvent>::empty());
    }
    while i < events.len()
        invariant
            i <= events@.len(),
            acc as int == dep_sum_in_range_sat(
                events@.subrange(0, i as int),
                asset_id as int,
                lo,
                hi,
            ),
        decreases events@.len() - i,
    {
        proof {
            assert(events@.subrange(0, i + 1).drop_last() =~= events@.subrange(0, i as int));
            assert(events@.subrange(0, i + 1).last() == events@[i as int]);
        }
        let e = &events[i];
        if e.asset_id == asset_id && e.event_type == wanted {
            let recorded_start = match bag_lookup(&e.details, "start_date") {
                Option::Some(AttrValue::Str(t)) => parse_date(t.as_str()),
                _ => Option::None,
            };
            let recorded_end = match bag_lookup(&e.details, "end_date") {
                Option::Some(AttrValue::Str(t)) => parse_date(t.as_str()),
                _ => Option::None,
            };
            match (recorded_start, recorded_end) {
                (Option::Some(ds), Option::Some(de)) => {
                    if !ds.earlier(&lo) && !hi.earlier(&de) {
                        let a = bag_int(&e.details, "amount");
                        if a >= 0 && acc > i64::MAX - a {
                            acc = i64::MAX;
                        } else if a < 0 && acc < i64::MIN - a {
                            acc = i64::MIN;
                        } else {
                            acc = acc + a;
                        }
                    }
                },
                _ => {},
            }
        }
        i = i + 1;
    }
    proof {
        assert(events@.subrange(0, events@.len() as int) =~= events@);
    }
    acc
}

/// A proof whose stored hash is the digest of its own fields verifies: an
/// unaltered proof always passes verification.
pub proof fn lemma_fresh_proof_verifies(p: ProofModel)
    requires
        p.proof_hash == Option::Some(sha256_hex_of(hash_input_of(p))),
    ensures
        match p.proof_hash {
            Option::Some(h) => h == sha256_hex_of(hash_input_of(p)),
            Option::None => false,
        },
{
}

impl<'a> CapitalProofGenerator<'a> {
    /// Binds a generator to a ledger.
    pub fn new(ledger: &'a IntelligenceCapitalLedger) -> (r: Self)
        ensures
            r.ledger == ledger,
    {
        CapitalProofGenerator { ledger }
    }

    /// The stored hash of the most recent proof for the asset, if any.
    #[verifier::loop_isolation(false)]
    fn latest_hash(&self, asset_id: u128) -> (r: Option<String>)
        ensures
            match r {
                Option::Some(h) => latest_hash_of(self.ledger.proofs@, asset_id as int)
                    == Option::Some(h@),
                Option::None => latest_hash_of(self.ledger.proofs@, asset_id as int) is None,
            },
    {
        let proofs = &self.ledger.proofs;
        let mut i: usize = proofs.len();
        assert(proofs@.subrange(0, proofs@.len() as int) =~= proofs@);
        while i > 0
            invariant
                i <= proofs@.len(),
                latest_hash_of(proofs@.subrange(0, i as int), asset_id as int) == latest_hash_of(
                    proofs@,
                    asset_id as int,
                ),
            decreases i,
        {
            i = i - 1;
            proof {
                assert(proofs@.subrange(0, i + 1).drop_last() =~= proofs@.subrange(0, i as int));
                assert(proofs@.subrange(0, i + 1).last() == proofs@[i as int]);
            }
            if proofs[i].asset_id == asset_id {
                return match &proofs[i].proof_hash {
                    Option::Some(h) => Option::Some(h.clone()),
                    Option::None => Option::None,
                };
            }
        }
        assert(proofs@.subrange(0, 0) =~= Seq::<CapitalProof>::empty());
        Option::None
    }

    /// Snapshots the asset's state into a hashed proof chained to the most
    /// recent prior proof; the ledger is not changed.
    pub fn generate_asset_proof(&self, asset_id: u128) -> (r: IclResult<CapitalProof>)
        requires
            self.ledger.wf(),
        ensures
            !self.ledger.has_asset(asset_id as int) ==> (r matches Err(e) && e matches
                IclError::AssetNotFound(id) && id == asset_id),
            self.ledger.has_asset(asset_id as int) ==> (r matches Ok(p) && {
                &&& p@.asset_id == asset_id as int
                &&& p@.event_id is None
                &&& p@.origin == "ICL"@
                &&& p@.previous_proof_hash == latest_hash_of(
                    self.ledger.proofs@,
                    asset_id as int,
                )
                &&& p@.content == spec_proof_content(self.ledger.spec_asset(asset_id as int))
                &&& p@.proof_hash == Option::Some(sha256_hex_of(hash_input_of(p@)))
            }),
    {
        let idx = match self.ledger.find_asset_index(asset_id) {
            Option::Some(i) => i,
            Option::None => {
                return Err(IclError::AssetNotFound(asset_id));
            },
        };
        proof {
            let k = choose|k: int|
                0 <= k < self.ledger.assets@.len() && self.ledger.assets@[k]@.asset_id
                    == asset_id as int;
            assert(k == idx);
        }
        let previous_hash = self.latest_hash(asset_id);
        let content = build_proof_content(&self.ledger.assets[idx]);
        let mut proof_record = CapitalProof {
            proof_id: fresh_id(),
            asset_id,
            event_id: Option::None,
            timestamp: now_ts(),
            origin: "ICL".to_owned(),
            content,
            previous_proof_hash: previous_hash,
            proof_hash: Option::None,
        };
        let computed = proof_record.compute_hash();
        let ghost before_hash = proof_record@;
        proof_record.proof_hash = Option::Some(computed);
        proof {
            assert(hash_input_of(proof_record@) == hash_input_of(before_hash));
        }
        Ok(proof_record)
    }

    /// An asset proof tagged as an execution proof and linked to an event,
    /// with the hash recomputed over the enriched content.
    pub fn generate_execution_proof(&self, asset_id: u128, event_id: u128) -> (r: IclResult<
        CapitalProof,
    >)
        requires
            self.ledger.wf(),
        ensures
            !self.ledger.has_asset(asset_id as int) ==> (r matches Err(e) && e matches
                IclError::AssetNotFound(id) && id == asset_id),
            self.ledger.has_asset(asset_id as int) ==> (r matches Ok(p) && {
                &&& p@.asset_id == asset_id as int
                &&& p@.event_id == Option::Some(event_id as int)
                &&& p@.previous_proof_hash == latest_hash_of(
                    self.ledger.proofs@,
                    asset_id as int,
                )
                &&& p@.content == spec_proof_content(
                    self.ledger.spec_asset(asset_id as int),
                ).push(("proof_type"@, AttrModel::Str("execution"@)))
                &&& p@.proof_hash == Option::Some(sha256_hex_of(hash_input_of(p@)))
            }),
    {
        let mut proof_record = match self.generate_asset_proof(asset_id) {
            Ok(p) => p,
            Err(e) => {
                return Err(e);
            },
        };
        proof_record.event_id = Option::Some(event_id);
        let ghost pre = proof_record.content@;
        proof_record.content.push(("proof_type".to_owned(), AttrValue::Str("execution".to_owned())));
        proof {
            assert(proof_record.content@.drop_last() =~= pre);
        }
        let computed = proof_record.compute_hash();
        let ghost before_hash = proof_record@;
        proof_record.proof_hash = Option::Some(computed);
        proof {
            assert(hash_input_of(proof_record@) == hash_input_of(before_hash));
        }
        Ok(proof_record)
    }

    /// An asset proof tagged as a financial-outcome proof for a period,
    /// carrying the period bounds and the asset's depreciation summed over
    /// the recorded periods lying within those bounds, with the hash
    /// recomputed over the enriched content. Bounds or stored dates that do
    /// not parse contribute nothing to the sum.
    pub fn generate_financial_outcome_proof(
        &self,
        asset_id: u128,
        start_date: &str,
        end_date: &str,
    ) -> (r: IclResult<CapitalProof>)
        requires
            self.ledger.wf(),
        ensures
            !self.ledger.has_asset(asset_id as int) ==> (r matches Err(e) && e matches
                IclError::AssetNotFound(id) && id == asset_id),
            self.ledger.has_asset(asset_id as int) ==> (r matches Ok(p) && {
                &&& p@.asset_id == asset_id as int
                &&& p@.content == spec_proof_content(self.ledger.spec_asset(asset_id as int))
                    .push(("proof_type"@, AttrModel::Str("financial_outcome"@)))
                    .push(("period_start"@, AttrModel::Str(start_date@)))
                    .push(("period_end"@, AttrModel::Str(end_date@)))
                    .push(("total_depreciation"@, AttrModel::Int(outcome_total(
                        self.ledger.events@,
                        asset_id as int,
                        start_date@,
                        end_date@,
                    ))))
                &&& p@.proof_hash == Option::Some(sha256_hex_of(hash_input_of(p@)))
            }),
    {
        let mut proof_record = match self.generate_asset_proof(asset_id) {
            Ok(p) => p,
            Err(e) => {
                return Err(e);
            },
        };
        let ghost pre1 = proof_record.content@;
        proof_record.content.push(
            ("proof_type".to_owned(), AttrValue::Str("financial_outcome".to_owned())),
        );
        proof {
            assert(proof_record.content@.drop_last() =~= pre1);
        }
        let ghost pre2 = proof_record.content@;
        proof_record.content.push(("period_start".to_owned(), AttrValue::Str(start_date.to_owned())));
        proof {
            assert(proof_record.content@.drop_last() =~= pre2);
        }
        let ghost pre3 = proof_record.content@;
        proof_record.content.push(("period_end".to_owned(), AttrValue::Str(end_date.to_owned())));
        proof {
            assert(proof_record.content@.drop_last() =~= pre3);
        }
        let total = match (parse_date(start_date), parse_date(end_date)) {
            (Option::Some(lo), Option::Some(hi)) => sum_depreciation_in_range(
                &self.ledger.events,
                asset_id,
                lo,
                hi,
            ),
            _ => 0i64,
        };
        let ghost pre4 = proof_record.content@;
        proof_record.content.push(("total_depreciation".to_owned(), AttrValue::Int(total)));
        proof {
            assert(proof_record.content@.drop_last() =~= pre4);
        }
        let computed = proof_record.compute_hash();
        let ghost before_hash = proof_record@;
        proof_record.proof_hash = Option::Some(computed);
        proof {
            assert(hash_input_of(proof_record@) == hash_input_of(before_hash));
        }
        Ok(proof_record)
    }

    /// Finds a recorded proof by its identifier.
    #[verifier::loop_isolation(false)]
    pub fn reconstruct_proof(&self, proof_id: u128) -> (r: Option<&CapitalProof>)
        ensures
            match r {
                Option::Some(p) => p@.proof_id == proof_id as int && exists|i: int|
                    0 <= i < self.ledger.proofs@.len() && (#[trigger] self.ledger.proofs@[i])
                        == *p,
                Option::None => forall|i: int|
                    0 <= i < self.ledger.proofs@.len() ==> (#[trigger] self.ledger.proofs@[i])@.proof_id
                        != proof_id as int,
            },
    {
        let proofs = &self.ledger.proofs;
        let mut i: usize = 0;
        while i < proofs.len()
            invariant
                i <= proofs@.len(),
                forall|j: int|
                    0 <= j < i ==> (#[trigger] proofs@[j])@.proof_id != proof_id as int,
            decreases proofs@.len() - i,
        {
            if proofs[i].proof_id == proof_id {
                return Option::Some(&proofs[i]);
            }
            i = i + 1;
        }
        Option::None
    }

    /// The asset's event history as attribute values, in recording order.
    #[verifier::loop_isolation(false)]
    pub fn get_asset_history(&self, asset_id: u128) -> (r: Vec<AttrValue>)
        ensures
            models_of(r@) == history_of(self.ledger.events@, asset_id as int),
    {
        let events = &self.ledger.events;
        let mut out: Vec<AttrValue> = Vec::new();
        let mut i: usize = 0;
        while i < events.len()
            invariant
                i <= events@.len(),
                models_of(out@) =~= history_of(events@.subrange(0, i as int), asset_id as int),
            decreases events@.len() - i,
        {
            proof {
                assert(events@.subrange(0, i + 1).drop_last() =~= events@.subrange(0, i as int));
                assert(events@.subrange(0, i + 1).last() == events@[i as int]);
            }
            if events[i].asset_id == asset_id {
                let e = &events[i];
                let mut bag: AttrBag = Vec::new();
                bag.push(("event_id".to_owned(), AttrValue::Str(u128_to_dec(e.event_id))));
                bag.push(("event_type".to_owned(), AttrValue::Str(e.event_type.clone())));
                bag.push(("timestamp".to_owned(), AttrValue::Str(ts_to_rfc3339(e.timestamp))));
                bag.push(("details".to_owned(), AttrValue::Obj(duplicate_bag(&e.details))));
                let rendered = AttrValue::Obj(bag);
                proof {
                    assert(bag_model(bag) =~= history_attr(events@[i as int]@)->Obj_0);
                }
                let ghost pre = out@;
                out.push(rendered);
                proof {
                    crate::attr::lemma_models_of_len(pre);
                    assert(out@.drop_last() =~= pre);
                    assert(models_of(out@) =~= models_of(pre).push(model_of(out@.last())));
                }
            }
            i = i + 1;
        }
        proof {
            assert(events@.subrange(0, events@.len() as int) =~= events@);
        }
        out
    }

    /// Recomputes a proof's hash from its own stored fields and compares
    /// it to the stored hash: true exactly when they agree; false when no
    /// hash is stored.
    pub fn verify_proof(&self, proof: &CapitalProof) -> (r: bool)
        ensures
            r == match proof@.proof_hash {
                Option::Some(h) => h == sha256_hex_of(hash_input_of(proof@)),
                Option::None => false,
            },
    {
        match &proof.proof_hash {
            Option::Some(stored) => {
                let computed = proof.compute_hash();
                stored.eq(&computed)
            },
            Option::None => false,
        }
    }
}

} // verus!
