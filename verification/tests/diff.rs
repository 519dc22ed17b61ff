use reg_watch::diff::{active_state_compared, changed, dedup_by_key};
use reg_watch::excel::{active_state_cells, CellValue, NamedCols};
use reg_watch::purchase::{Purchase, STATUS_NOT_GO};

fn record(registry: &str, estimation: u64) -> Purchase {
    Purchase {
        registry_number: registry.to_string(),
        purchase_subject: "субъект".to_string(),
        purchase_abbr: "сокр".to_string(),
        purchase_type: "форма".to_string(),
        collecting_datetime: "2021-11-16T10:10:00+00:00".to_string(),
        approval_datetime: "2021-11-17T00:00:00+00:00".to_string(),
        bidding_datetime: "2021-11-18T12:00:00+00:00".to_string(),
        region: "регион".to_string(),
        customer_type: "заказчик".to_string(),
        max_price: 5_000_000,
        application_guarantee: 50_000,
        contract_guarantee: 100_000,
        status: "идем".to_string(),
        our_participants: "мы".to_string(),
        estimation,
        etp: "площадка".to_string(),
        winner: "".to_string(),
        winner_price: 0,
        participants: "".to_string(),
    }
}

fn milli(amount: f64) -> u64 {
    (amount * 1000.0).round() as u64
}

#[test]
fn test_equality_tolerance() {
    // records differing only in the fractional part of an amount compare
    // equal; a whole-unit difference makes them unequal
    let a = record("A", milli(1000.1));
    let b = record("A", milli(1000.9));
    assert!(a == b);

    let c = record("A", milli(1000.0));
    let d = record("A", milli(1001.0));
    assert!(c != d);

    // the winner price tolerates fractions the same way
    let mut e = record("A", 1_000_000);
    let mut f = record("A", 1_000_000);
    e.winner_price = milli(500.2);
    f.winner_price = milli(500.8);
    assert!(e == f);
    f.winner_price = milli(501.0);
    assert!(e != f);
}

#[test]
fn test_diff_of_empty_sets() {
    let none: Vec<Purchase> = Vec::new();
    assert!(changed(&none, &none).is_empty());
    assert!(active_state_compared(&none, &none).is_none());
}

#[test]
fn test_purchase_eq_ignores_descriptive_fields() {
    let a = record("A", 1_000_000);
    let mut b = record("A", 1_000_000);
    b.purchase_subject = "другой текст".to_string();
    b.max_price = 9_999_999;
    assert!(a == b);

    let mut c = record("A", 1_000_000);
    c.region = "другой регион".to_string();
    assert!(a != c);
}

#[test]
fn test_diff_idempotence() {
    // an identical new extraction yields an empty changeset
    let snapshot = vec![record("A", 1_000_000), record("B", 2_000_000)];
    let fresh = vec![record("A", 1_000_000), record("B", 2_000_000)];
    let delta = changed(&snapshot, &fresh);
    assert!(delta.is_empty());
}

#[test]
fn test_diff_completeness() {
    // old {A:1, B:2}, new {A:1, C:3}: C is new, B is re-emitted inactive,
    // A does not appear
    let old = vec![record("A", 1_000_000), record("B", 2_000_000)];
    let new = vec![record("A", 1_000_000), record("C", 3_000_000)];
    let delta = changed(&old, &new);
    assert_eq!(delta.len(), 2);
    assert_eq!(delta[0].registry_number, "C".to_string());
    assert_eq!(delta[0].estimation, 3_000_000);
    assert_eq!(delta[0].status, "идем".to_string());
    assert_eq!(delta[1].registry_number, "B".to_string());
    assert_eq!(delta[1].status, STATUS_NOT_GO.to_string());
    assert!(delta.iter().all(|p| p.registry_number != "A".to_string()));
}

#[test]
fn test_diff_reports_changed_record() {
    let old = vec![record("A", 1_000_000)];
    let new = vec![record("A", 2_000_000)];
    let delta = changed(&old, &new);
    assert_eq!(delta.len(), 1);
    // the changeset carries the new value
    assert_eq!(delta[0].estimation, 2_000_000);
}

#[test]
fn test_diff_first_run() {
    // with no prior snapshot every record is new
    let old: Vec<Purchase> = Vec::new();
    let new = vec![record("A", 1_000_000), record("B", 2_000_000)];
    let delta = changed(&old, &new);
    assert_eq!(delta.len(), 2);
    assert_eq!(delta[0].registry_number, "A".to_string());
    assert_eq!(delta[1].registry_number, "B".to_string());
}

#[test]
fn test_active_state_compared_signals_no_changes() {
    // an unchanged extraction is reported as "no changes", not as an empty
    // changeset
    let old = vec![record("A", 1_000_000)];
    let new = vec![record("A", 1_000_499)];
    assert!(active_state_compared(&old, &new).is_none());

    let changed_new = vec![record("A", 1_001_000)];
    let delta = active_state_compared(&old, &changed_new).expect("a change must be reported");
    assert_eq!(delta.len(), 1);
    assert_eq!(delta[0].estimation, 1_001_000);
}

#[test]
fn test_active_state_compared_dedups_by_key() {
    // records sharing a key collapse to the last occurrence before diffing
    let old = vec![record("A", 1_000_000), record("A", 2_000_000)];
    let new = vec![record("A", 2_000_000)];
    assert!(active_state_compared(&old, &new).is_none());
}

#[test]
fn test_dedup_by_key_keeps_last() {
    let rows = vec![
        record("A", 1_000_000),
        record("B", 2_000_000),
        record("A", 3_000_000),
    ];
    let unique = dedup_by_key(&rows);
    assert_eq!(unique.len(), 2);
    assert_eq!(unique[0].registry_number, "B".to_string());
    assert_eq!(unique[1].registry_number, "A".to_string());
    assert_eq!(unique[1].estimation, 3_000_000);
}

#[test]
fn test_end_to_end_first_cycle() {
    // a workbook with one active row and no prior snapshot: the extractor
    // returns one record, the differ forwards it whole, and the persisted
    // snapshot then holds exactly that record
    let cols = NamedCols {
        registry_number: 0,
        purchase_subject: 1,
        purchase_abbr: 2,
        purchase_type: 3,
        collecting_datetime: 4,
        approval_datetime: 5,
        bidding_datetime: 6,
        bidding_date: 7,
        collecting_date: 8,
        region: 9,
        customer_type: 10,
        max_price: 11,
        application_guarantee: 12,
        contract_guarantee: 13,
        status: 14,
        our_participants: 15,
        estimation: 16,
        etp: 17,
        winner: 18,
        winner_price: 19,
        participants: 20,
    };
    let bid: u64 = 44520 * 86400;
    let row = vec![
        CellValue::Text("№777".to_string()),
        CellValue::Text("субъект".to_string()),
        CellValue::Text("сокр".to_string()),
        CellValue::Text("форма".to_string()),
        CellValue::DateTime(44516 * 86400),
        CellValue::DateTime(44517 * 86400),
        CellValue::DateTime(bid),
        CellValue::DateTime(bid),
        CellValue::DateTime(44516 * 86400),
        CellValue::Text("регион".to_string()),
        CellValue::Text("заказчик".to_string()),
        CellValue::Number(1_000_500),
        CellValue::Number(10_000),
        CellValue::Number(20_000),
        CellValue::Text("идем".to_string()),
        CellValue::Text("мы".to_string()),
        CellValue::Number(999_900),
        CellValue::Text("площадка".to_string()),
        CellValue::Text("".to_string()),
        CellValue::Number(0),
        CellValue::Text("".to_string()),
    ];
    let rows = vec![row];
    let cutoff: u64 = 44510 * 86400;

    let extracted = active_state_cells(&rows, cols, cutoff, false);
    assert_eq!(extracted.len(), 1);
    assert_eq!(extracted[0].registry_number, "777".to_string());

    // no prior snapshot: the whole extraction is the changeset
    let delta = changed(&Vec::new(), &extracted);
    assert_eq!(delta.len(), 1);
    assert!(delta[0] == extracted[0]);

    // the snapshot persisted after the cycle holds exactly that record,
    // so the next identical extraction reports no changes
    let snapshot = delta;
    let again = changed(&snapshot, &extracted);
    assert!(again.is_empty());
}
