use intelligence_capital_ledger::{
    AccountType, AssetStatus, AttrValue, CalendarDate, CapitalEvent, CapitalProofGenerator,
    DepreciationMethod, IclError, IntegrityChecker, IntelligenceCapitalLedger,
    IntelligenceCapitalLifecycle, JournalEntry,
};

fn date(year: i32, month: u32, day: u32) -> CalendarDate {
    CalendarDate { year, month, day }
}

fn capitalized(ledger: &mut IntelligenceCapitalLedger, id: u128, value: i64) {
    let lifecycle = IntelligenceCapitalLifecycle::new();
    lifecycle
        .capitalize(ledger, id, "Research".to_string(), value, DepreciationMethod::Linear, 12)
        .unwrap();
}

#[test]
fn create_asset_starts_active_at_initial_value() {
    let mut ledger = IntelligenceCapitalLedger::new();
    let asset = ledger
        .create_asset(7, "Lab".to_string(), 5000, DepreciationMethod::Linear, 24)
        .unwrap();
    assert!(matches!(asset.status, AssetStatus::Active));
    assert_eq!(asset.current_value, Some(5000));
    assert_eq!(ledger.asset_count(), 1);
}

#[test]
fn create_asset_twice_fails_already_exists() {
    let mut ledger = IntelligenceCapitalLedger::new();
    ledger.create_asset(7, "Lab".to_string(), 5000, DepreciationMethod::Linear, 24).unwrap();
    let r = ledger.create_asset(7, "Lab".to_string(), 5000, DepreciationMethod::Linear, 24);
    assert!(matches!(r, Err(IclError::AssetAlreadyExists(7))));
}

#[test]
fn create_asset_validates_fields() {
    let mut ledger = IntelligenceCapitalLedger::new();
    let r = ledger.create_asset(1, String::new(), 5000, DepreciationMethod::Linear, 24);
    assert!(matches!(r, Err(IclError::InvalidAsset(_))));
    let r = ledger.create_asset(1, "Lab".to_string(), 0, DepreciationMethod::Linear, 24);
    assert!(matches!(r, Err(IclError::InvalidAsset(_))));
    let r = ledger.create_asset(1, "Lab".to_string(), 5000, DepreciationMethod::Linear, 0);
    assert!(matches!(r, Err(IclError::InvalidAsset(_))));
    assert_eq!(ledger.asset_count(), 0);
}

#[test]
fn record_event_requires_known_asset_and_type() {
    let mut ledger = IntelligenceCapitalLedger::new();
    let event = CapitalEvent {
        event_id: 11,
        asset_id: 99,
        event_type: "utilization".to_string(),
        timestamp: 5,
        details: Vec::new(),
    };
    assert!(matches!(ledger.record_event(event), Err(IclError::AssetNotFound(99))));
    capitalized(&mut ledger, 1, 1000);
    let untyped = CapitalEvent {
        event_id: 12,
        asset_id: 1,
        event_type: String::new(),
        timestamp: 5,
        details: Vec::new(),
    };
    assert!(matches!(ledger.record_event(untyped), Err(IclError::InvalidEvent(_))));
}

#[test]
fn record_event_derives_entry_with_amount() {
    let mut ledger = IntelligenceCapitalLedger::new();
    capitalized(&mut ledger, 1, 1000);
    let mut details = Vec::new();
    details.push(("amount".to_string(), AttrValue::Int(250)));
    let event = CapitalEvent {
        event_id: 11,
        asset_id: 1,
        event_type: "utilization".to_string(),
        timestamp: 5,
        details,
    };
    ledger.record_event(event).unwrap();
    let entries = ledger.get_entries_for_asset(1);
    assert_eq!(entries.len(), 1);
    assert_eq!(entries[0].amount, 250);
    assert_eq!(entries[0].description, "utilization");
}

#[test]
fn journal_entry_amount_must_be_positive() {
    let mut ledger = IntelligenceCapitalLedger::new();
    let entry = JournalEntry {
        entry_id: 1,
        event_id: 2,
        timestamp: 0,
        debit_account: AccountType::Asset,
        credit_account: AccountType::AccumulatedDepreciation,
        amount: 0,
        description: "nothing".to_string(),
        metadata: Vec::new(),
    };
    assert!(matches!(ledger.record_journal_entry(entry), Err(IclError::InvalidEntry(_))));
    assert!(ledger.verify_journal_balance());
}

#[test]
fn journal_balance_detects_tampered_amount() {
    let mut ledger = IntelligenceCapitalLedger::new();
    capitalized(&mut ledger, 1, 1000);
    assert!(ledger.verify_journal_balance());
    ledger.journal_entries[0].amount = -5;
    assert!(!ledger.verify_journal_balance());
}

#[test]
fn capitalize_books_opening_journal_entry() {
    let mut ledger = IntelligenceCapitalLedger::new();
    capitalized(&mut ledger, 1, 9000);
    assert_eq!(ledger.journal_entries.len(), 1);
    let je = &ledger.journal_entries[0];
    assert!(matches!(je.debit_account, AccountType::Asset));
    assert!(matches!(je.credit_account, AccountType::AccumulatedDepreciation));
    assert_eq!(je.amount, 9000);
}

#[test]
fn allocate_reassigns_owner_and_records_event() {
    let mut ledger = IntelligenceCapitalLedger::new();
    capitalized(&mut ledger, 1, 1000);
    let lifecycle = IntelligenceCapitalLifecycle::new();
    let event = lifecycle.allocate(&mut ledger, 1, "Applied".to_string()).unwrap();
    assert_eq!(event.event_type, "allocation");
    assert_eq!(ledger.get_asset(1).unwrap().owner, "Applied");
    assert_eq!(ledger.get_events_for_asset(1).len(), 1);
}

#[test]
fn utilize_requires_positive_amount() {
    let mut ledger = IntelligenceCapitalLedger::new();
    capitalized(&mut ledger, 1, 1000);
    let lifecycle = IntelligenceCapitalLifecycle::new();
    assert!(matches!(lifecycle.utilize(&mut ledger, 1, 0), Err(IclError::InvalidEvent(_))));
    assert!(matches!(lifecycle.utilize(&mut ledger, 9, 10), Err(IclError::AssetNotFound(9))));
    let event = lifecycle.utilize(&mut ledger, 1, 10).unwrap();
    assert_eq!(event.event_type, "utilization");
    let asset = ledger.get_asset(1).unwrap();
    assert_eq!(asset.current_value, Some(1000));
}

#[test]
fn depreciate_updates_value_and_books_expense() {
    let mut ledger = IntelligenceCapitalLedger::new();
    capitalized(&mut ledger, 1, 12000);
    let lifecycle = IntelligenceCapitalLifecycle::new();
    let event = lifecycle
        .depreciate(&mut ledger, 1, date(2024, 1, 1), date(2024, 7, 1), 0, 200)
        .unwrap();
    assert_eq!(event.event_type, "depreciation");
    let asset = ledger.get_asset(1).unwrap();
    assert_eq!(asset.current_value, Some(6000));
    assert!(matches!(asset.status, AssetStatus::Active));
    assert_eq!(ledger.journal_entries.len(), 2);
    let je = &ledger.journal_entries[1];
    assert!(matches!(je.debit_account, AccountType::DepreciationExpense));
    assert!(matches!(je.credit_account, AccountType::AccumulatedDepreciation));
    assert_eq!(je.amount, 6000);
}

#[test]
fn depreciate_to_salvage_marks_depreciated() {
    let mut ledger = IntelligenceCapitalLedger::new();
    capitalized(&mut ledger, 1, 12000);
    let lifecycle = IntelligenceCapitalLifecycle::new();
    lifecycle.depreciate(&mut ledger, 1, date(2024, 1, 1), date(2025, 1, 1), 0, 200).unwrap();
    let asset = ledger.get_asset(1).unwrap();
    assert_eq!(asset.current_value, Some(0));
    assert!(matches!(asset.status, AssetStatus::Depreciated));
}

#[test]
fn overlapping_periods_are_refused_in_order() {
    let mut ledger = IntelligenceCapitalLedger::new();
    capitalized(&mut ledger, 1, 12000);
    let lifecycle = IntelligenceCapitalLifecycle::new();
    lifecycle.depreciate(&mut ledger, 1, date(2024, 1, 1), date(2024, 4, 1), 0, 200).unwrap();
    let overlapping =
        lifecycle.depreciate(&mut ledger, 1, date(2024, 3, 1), date(2024, 6, 1), 0, 200);
    assert!(matches!(overlapping, Err(IclError::OverlappingDepreciation)));
    let disjoint =
        lifecycle.depreciate(&mut ledger, 1, date(2024, 4, 1), date(2024, 7, 1), 0, 200);
    assert!(disjoint.is_ok());
}

#[test]
fn malformed_stored_period_is_skipped() {
    let mut ledger = IntelligenceCapitalLedger::new();
    capitalized(&mut ledger, 1, 12000);
    let mut details = Vec::new();
    details.push(("start_date".to_string(), AttrValue::Str("garbled".to_string())));
    details.push(("end_date".to_string(), AttrValue::Str("2024-06-01".to_string())));
    let event = CapitalEvent {
        event_id: 50,
        asset_id: 1,
        event_type: "depreciation".to_string(),
        timestamp: 5,
        details,
    };
    ledger.record_event(event).unwrap();
    let checker = IntegrityChecker::new(&ledger);
    assert!(checker.validate_depreciation_period(1, date(2024, 1, 1), date(2024, 12, 1)).is_ok());
}

#[test]
fn retire_zeroes_value_and_books_write_off() {
    let mut ledger = IntelligenceCapitalLedger::new();
    capitalized(&mut ledger, 1, 8000);
    let lifecycle = IntelligenceCapitalLifecycle::new();
    let event = lifecycle.retire(&mut ledger, 1).unwrap();
    assert_eq!(event.event_type, "retirement");
    let asset = ledger.get_asset(1).unwrap();
    assert!(matches!(asset.status, AssetStatus::Retired));
    assert_eq!(asset.current_value, Some(0));
    assert_eq!(ledger.journal_entries.len(), 2);
    let je = &ledger.journal_entries[1];
    assert!(matches!(je.debit_account, AccountType::AccumulatedDepreciation));
    assert!(matches!(je.credit_account, AccountType::Asset));
    assert_eq!(je.amount, 8000);
}

#[test]
fn retired_asset_blocks_mutation() {
    let mut ledger = IntelligenceCapitalLedger::new();
    capitalized(&mut ledger, 1, 8000);
    let lifecycle = IntelligenceCapitalLifecycle::new();
    lifecycle.retire(&mut ledger, 1).unwrap();
    assert!(matches!(
        lifecycle.allocate(&mut ledger, 1, "Elsewhere".to_string()),
        Err(IclError::AssetRetired(1))
    ));
    assert!(matches!(
        lifecycle.depreciate(&mut ledger, 1, date(2024, 1, 1), date(2024, 7, 1), 0, 200),
        Err(IclError::AssetRetired(1))
    ));
    assert!(matches!(lifecycle.retire(&mut ledger, 1), Err(IclError::AssetRetired(1))));
    // Usage tracking does not consult the status: a retired asset still
    // accepts utilization events.
    assert!(lifecycle.utilize(&mut ledger, 1, 10).is_ok());
}

#[test]
fn retire_without_remaining_value_books_nothing() {
    let mut ledger = IntelligenceCapitalLedger::new();
    capitalized(&mut ledger, 1, 12000);
    let lifecycle = IntelligenceCapitalLifecycle::new();
    lifecycle.depreciate(&mut ledger, 1, date(2024, 1, 1), date(2025, 1, 1), 0, 200).unwrap();
    let booked = ledger.journal_entries.len();
    lifecycle.retire(&mut ledger, 1).unwrap();
    assert_eq!(ledger.journal_entries.len(), booked);
}

#[test]
fn proof_chain_of_fresh_proofs_has_no_breaks() {
    let mut ledger = IntelligenceCapitalLedger::new();
    capitalized(&mut ledger, 1, 8000);
    for _ in 0..4 {
        ledger.generate_proof(1, None).unwrap();
    }
    let checker = IntegrityChecker::new(&ledger);
    assert!(checker.verify_proof_chain().is_empty());
    assert!(checker.check_all_integrity().is_empty());
}

#[test]
fn tampered_chain_reports_exactly_one_break() {
    let mut ledger = IntelligenceCapitalLedger::new();
    capitalized(&mut ledger, 1, 8000);
    for _ in 0..4 {
        ledger.generate_proof(1, None).unwrap();
    }
    ledger.proofs[1].proof_hash = Some("0000".to_string());
    let checker = IntegrityChecker::new(&ledger);
    let breaks = checker.verify_proof_chain();
    assert_eq!(breaks.len(), 1);
    assert!(breaks[0].contains("references wrong previous hash"));
}

#[test]
fn fresh_proof_verifies_and_tampered_proof_does_not() {
    let mut ledger = IntelligenceCapitalLedger::new();
    capitalized(&mut ledger, 1, 8000);
    let generator = CapitalProofGenerator::new(&ledger);
    let proof = generator.generate_asset_proof(1).unwrap();
    assert!(generator.verify_proof(&proof));
    let mut tampered = proof.duplicate();
    tampered.content.push(("owner".to_string(), AttrValue::Str("Forged".to_string())));
    assert!(!generator.verify_proof(&tampered));
    let mut unhashed = proof.duplicate();
    unhashed.proof_hash = None;
    assert!(!generator.verify_proof(&unhashed));
}

#[test]
fn proof_hash_is_hex_digest_of_fields() {
    let mut ledger = IntelligenceCapitalLedger::new();
    capitalized(&mut ledger, 1, 8000);
    let proof = ledger.generate_proof(1, Some(42)).unwrap();
    let hash = proof.proof_hash.clone().unwrap();
    assert_eq!(hash.len(), 64);
    assert!(hash.chars().all(|c| c.is_ascii_hexdigit()));
    assert_eq!(proof.compute_hash(), hash);
    assert_eq!(proof.event_id, Some(42));
}

#[test]
fn execution_and_outcome_proofs_enrich_content() {
    let mut ledger = IntelligenceCapitalLedger::new();
    capitalized(&mut ledger, 1, 8000);
    let generator = CapitalProofGenerator::new(&ledger);
    let exec_proof = generator.generate_execution_proof(1, 7).unwrap();
    assert_eq!(exec_proof.event_id, Some(7));
    assert!(generator.verify_proof(&exec_proof));
    let outcome = generator
        .generate_financial_outcome_proof(1, "2024-01-01", "2024-07-01")
        .unwrap();
    assert!(generator.verify_proof(&outcome));
    let keys: Vec<&str> = outcome.content.iter().map(|p| p.0.as_str()).collect();
    assert!(keys.contains(&"proof_type"));
    assert!(keys.contains(&"period_start"));
    assert!(keys.contains(&"total_depreciation"));
}

#[test]
fn retroactive_events_are_refused() {
    let mut ledger = IntelligenceCapitalLedger::new();
    capitalized(&mut ledger, 1, 8000);
    let mut details = Vec::new();
    details.push(("amount".to_string(), AttrValue::Int(1)));
    let event = CapitalEvent {
        event_id: 60,
        asset_id: 1,
        event_type: "utilization".to_string(),
        timestamp: 100,
        details,
    };
    ledger.record_event(event).unwrap();
    let earlier = CapitalEvent {
        event_id: 61,
        asset_id: 1,
        event_type: "utilization".to_string(),
        timestamp: 50,
        details: Vec::new(),
    };
    let checker = IntegrityChecker::new(&ledger);
    assert!(matches!(
        checker.ensure_no_retroactive_modification(&earlier),
        Err(IclError::IntegrityViolation(_))
    ));
}

#[test]
fn integrity_scan_reports_corrupted_asset() {
    let mut ledger = IntelligenceCapitalLedger::new();
    capitalized(&mut ledger, 1, 8000);
    ledger.assets[0].current_value = Some(9999999);
    let checker = IntegrityChecker::new(&ledger);
    let findings = checker.check_all_integrity();
    assert_eq!(findings.len(), 1);
    assert!(findings[0].contains("Current value cannot exceed initial value"));
}

#[test]
fn summary_aggregates_events_and_depreciation() {
    let mut ledger = IntelligenceCapitalLedger::new();
    capitalized(&mut ledger, 1, 12000);
    let lifecycle = IntelligenceCapitalLifecycle::new();
    lifecycle.utilize(&mut ledger, 1, 10).unwrap();
    lifecycle.depreciate(&mut ledger, 1, date(2024, 1, 1), date(2024, 7, 1), 0, 200).unwrap();
    let summary = lifecycle.get_asset_summary(&ledger, 1).unwrap();
    match summary {
        AttrValue::Obj(pairs) => {
            let get = |key: &str| {
                pairs.iter().rev().find(|p| p.0 == key).map(|p| &p.1)
            };
            assert!(matches!(get("event_count"), Some(AttrValue::Int(2))));
            assert!(matches!(get("journal_entry_count"), Some(AttrValue::Int(1))));
            assert!(matches!(get("total_depreciation"), Some(AttrValue::Int(6000))));
        },
        _ => panic!("expected an object summary"),
    }
}

#[test]
fn journal_lookup_joins_through_event_ids() {
    let mut ledger = IntelligenceCapitalLedger::new();
    capitalized(&mut ledger, 1, 12000);
    let lifecycle = IntelligenceCapitalLifecycle::new();
    lifecycle.depreciate(&mut ledger, 1, date(2024, 1, 1), date(2024, 7, 1), 0, 200).unwrap();
    // The opening journal entry references a synthetic event identifier, so
    // the asset-scoped lookup sees only the depreciation entry.
    let journal = ledger.get_journal_entries_for_asset(1);
    assert_eq!(journal.len(), 1);
    assert_eq!(journal[0].amount, 6000);
}

#[test]
fn export_csv_flattens_entries() {
    let mut ledger = IntelligenceCapitalLedger::new();
    capitalized(&mut ledger, 1, 12000);
    let mut details = Vec::new();
    details.push(("amount".to_string(), AttrValue::Int(7)));
    let event = CapitalEvent {
        event_id: 21,
        asset_id: 1,
        event_type: "usage, heavy".to_string(),
        timestamp: 0,
        details,
    };
    ledger.record_event(event).unwrap();
    let csv = ledger.export_audit_trail("csv").unwrap();
    assert!(csv.starts_with("entry_id,event_id,asset_id,timestamp,amount,description\n"));
    assert!(csv.contains("1970-01-01T00:00:00+00:00"));
    assert!(csv.contains("usage; heavy"));
    assert_eq!(csv.lines().count(), 2);
}

#[test]
fn export_json_dumps_every_collection() {
    let mut ledger = IntelligenceCapitalLedger::new();
    capitalized(&mut ledger, 1, 12000);
    ledger.generate_proof(1, None).unwrap();
    let dump = ledger.export_audit_trail("json").unwrap();
    assert!(dump.starts_with("{\"version\":\"1.0.0\",\"exported_at\":\""));
    assert!(dump.contains("\"assets\":[{\"asset_id\":\"1\""));
    assert!(dump.contains("\"journal_entries\":[{"));
    assert!(dump.contains("\"proofs\":[{"));
}

#[test]
fn export_rejects_unknown_format() {
    let ledger = IntelligenceCapitalLedger::new();
    match ledger.export_audit_trail("xml") {
        Err(IclError::UnsupportedFormat(m)) => assert_eq!(m, "xml"),
        _ => panic!("expected the format to be refused"),
    }
}

#[test]
fn error_descriptions_name_the_asset() {
    let e = IclError::AssetNotFound(12);
    assert_eq!(e.describe(), "Asset 12 not found");
    let e = IclError::OverlappingDepreciation;
    assert_eq!(e.describe(), "Overlapping depreciation period detected");
}

#[test]
fn get_asset_mut_allows_in_place_mutation() {
    let mut ledger = IntelligenceCapitalLedger::new();
    capitalized(&mut ledger, 1, 1000);
    assert!(ledger.get_asset_mut(2).is_none());
    if let Some(asset) = ledger.get_asset_mut(1) {
        asset.owner = "Handed over".to_string();
    } else {
        panic!("expected the asset to be found");
    }
    assert_eq!(ledger.get_asset(1).unwrap().owner, "Handed over");
}

fn outcome_total_of(proof: &intelligence_capital_ledger::CapitalProof) -> i64 {
    match proof.content.iter().rev().find(|p| p.0 == "total_depreciation") {
        Some((_, AttrValue::Int(n))) => *n,
        _ => panic!("expected a total_depreciation amount"),
    }
}

#[test]
fn outcome_proof_sums_only_the_given_period() {
    let mut ledger = IntelligenceCapitalLedger::new();
    capitalized(&mut ledger, 1, 12000);
    let lifecycle = IntelligenceCapitalLifecycle::new();
    lifecycle.depreciate(&mut ledger, 1, date(2024, 1, 1), date(2024, 4, 1), 0, 200).unwrap();
    lifecycle.depreciate(&mut ledger, 1, date(2024, 6, 1), date(2024, 9, 1), 0, 200).unwrap();
    let generator = CapitalProofGenerator::new(&ledger);
    let first_only = generator
        .generate_financial_outcome_proof(1, "2024-01-01", "2024-05-01")
        .unwrap();
    assert_eq!(outcome_total_of(&first_only), 3000);
    let whole_year = generator
        .generate_financial_outcome_proof(1, "2024-01-01", "2024-12-01")
        .unwrap();
    assert_eq!(outcome_total_of(&whole_year), 6000);
    let next_year = generator
        .generate_financial_outcome_proof(1, "2025-01-01", "2025-06-01")
        .unwrap();
    assert_eq!(outcome_total_of(&next_year), 0);
    let malformed = generator
        .generate_financial_outcome_proof(1, "whenever", "2024-12-01")
        .unwrap();
    assert_eq!(outcome_total_of(&malformed), 0);
    assert!(generator.verify_proof(&first_only));
}

#[test]
fn tampered_previous_hash_reports_one_break_at_that_link() {
    let mut ledger = IntelligenceCapitalLedger::new();
    capitalized(&mut ledger, 1, 8000);
    for _ in 0..4 {
        ledger.generate_proof(1, None).unwrap();
    }
    ledger.proofs[2].previous_proof_hash = Some("ffff".to_string());
    let tampered_id = ledger.proofs[2].proof_id;
    let checker = IntegrityChecker::new(&ledger);
    let breaks = checker.verify_proof_chain();
    assert_eq!(breaks.len(), 1);
    assert!(breaks[0].contains("asset 1"));
    assert!(breaks[0].contains(&tampered_id.to_string()));
}
