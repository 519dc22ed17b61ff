use reg_watch::excel::{
    active_state_cells, from_excel_date, is_active_state, is_expectable, named_cols, named_ranges,
    recency_cutoff, today_in_excel_date, CellValue, ColumnPosition, NamedCols, NamedRange,
    WorkbookError, EXCEL_UNIX_EPOCH, HOW_FAR_IN_PAST_DAYS,
};

fn serial_secs(excel_date: f64) -> u64 {
    (excel_date * 86400.0).round() as u64
}

#[test]
fn test_from_excel_date() {
    assert_eq!(
        from_excel_date(serial_secs(44516.42361)),
        "2021-11-16T10:10:00+00:00".to_string()
    );
    assert_eq!(
        from_excel_date(serial_secs(44621.00)),
        "2022-03-01T00:00:00+00:00".to_string()
    );
    assert_eq!(
        from_excel_date(serial_secs(43890.4166666667)),
        "2020-02-29T10:00:00+00:00".to_string()
    );
    assert_eq!(
        from_excel_date(serial_secs(44713.00)),
        "2022-06-01T00:00:00+00:00".to_string()
    );
}

#[test]
fn test_from_excel_date_pre_epoch() {
    // pre-epoch serial values saturate to the epoch instead of crashing
    assert_eq!(from_excel_date(0), "1970-01-01T00:00:00+00:00".to_string());
}

#[test]
fn test_is_active_state() {
    assert!(is_active_state("идем"));
    assert!(is_active_state("допущены"));
    assert!(is_active_state("заявлены"));
    assert!(is_active_state("выиграли"));
    assert!(is_active_state("не выиграли"));
    assert!(is_active_state("расчет"));
    assert!(!is_active_state("invalid status"))
}

#[test]
fn test_is_expectable() {
    assert!(is_expectable("Дата_окончания_подачи_заявок"));
    assert!(is_expectable("Время_окончания_подачи_заявок"));
    assert!(is_expectable("Дата_окончания_срока_рассмотрения_заявок"));
    assert!(is_expectable("Дата_проведения_аукциона_конкурса"));
    assert!(is_expectable("Время_проведения_аукциона_конкурса"));
    assert!(is_expectable("НМЦК"));
    assert!(is_expectable("Номер"));
    assert!(is_expectable("Победитель"));
    assert!(is_expectable("Статус"));
    assert!(is_expectable("Сумма_выигранного_лота"));
    assert!(is_expectable("Участники"));
    assert!(is_expectable("Форма_проведения"));
    assert!(is_expectable("Поставляемые_товары"));
    assert!(is_expectable("Предмет"));
    assert!(is_expectable("Наши_участники"));
    assert!(is_expectable("Площадка"));
    assert!(is_expectable("Размер_обеспечения_заявки"));
    assert!(is_expectable("Размер_обеспечения_контракта"));
    assert!(is_expectable("Заказчик"));
    assert!(is_expectable("Расчет"));
    assert!(is_expectable("Регион"));
    assert!(!is_expectable("invalid name"))
}

fn range_of(expr: &str) -> NamedRange {
    NamedRange {
        name: String::new(),
        sheet: String::new(),
        range: expr.to_string(),
    }
}

#[test]
fn test_col_num_letters() {
    // "A" resolves to index 0, "Z" to 25, "AA" to 26
    assert_eq!(range_of("$A$:$A$").col_num(ColumnPosition::Left).unwrap(), 0);
    assert_eq!(range_of("$Z$:$Z$").col_num(ColumnPosition::Left).unwrap(), 25);
    assert_eq!(range_of("$AA$:$AA$").col_num(ColumnPosition::Left).unwrap(), 26);
    assert_eq!(range_of("$a$:$a$").col_num(ColumnPosition::Left).unwrap(), 0);
    assert_eq!(range_of("$XFD$:$XFD$").col_num(ColumnPosition::Left).unwrap(), 16383);
    assert_eq!(range_of("$A$:$B$").col_num(ColumnPosition::Right).unwrap(), 1);
}

#[test]
fn test_col_num_rejects() {
    // a non-alphabetic token, an empty token, and a token beyond the
    // column bound all fail with InvalidColumnNameError
    assert!(matches!(
        range_of("$1$:$1$").col_num(ColumnPosition::Left),
        Err(WorkbookError::InvalidColumnNameError(_))
    ));
    assert!(matches!(
        range_of("").col_num(ColumnPosition::Left),
        Err(WorkbookError::InvalidColumnNameError(_))
    ));
    assert!(matches!(
        range_of("$XFE$:$XFE$").col_num(ColumnPosition::Left),
        Err(WorkbookError::InvalidColumnNameError(_))
    ));
    assert!(matches!(
        range_of("$AAAA$:$AAAA$").col_num(ColumnPosition::Left),
        Err(WorkbookError::InvalidColumnNameError(_))
    ));
    match range_of("$A1$:$A1$").col_num(ColumnPosition::Left) {
        Err(WorkbookError::InvalidColumnNameError(t)) => assert_eq!(t, "A1".to_string()),
        _ => panic!("expected InvalidColumnNameError"),
    }
}

#[test]
fn test_named_range_new() {
    let def = ("Регион".to_string(), "List1!$C$:$C$".to_string());
    let nr = NamedRange::new(&def);
    assert_eq!(nr.name, "Регион".to_string());
    assert_eq!(nr.sheet, "List1".to_string());
    assert_eq!(nr.range, "$C$:$C$".to_string());
    assert_eq!(nr.col_name(ColumnPosition::Left), "C".to_string());
    assert_eq!(nr.col_num(ColumnPosition::Left).unwrap(), 2);

    let def = ("что-то другое".to_string(), "List1!$D$:$D$".to_string());
    let nr = NamedRange::new(&def);
    assert_eq!(nr.name, "".to_string());
}

#[test]
fn test_match_name() {
    assert_eq!(NamedRange::match_name("Статус"), "Статус".to_string());
    assert_eq!(NamedRange::match_name("invalid name"), "".to_string());
}

#[test]
fn test_parse_sheet_and_range() {
    assert_eq!(NamedRange::parse_sheet("List1!$A$:$A$"), "List1".to_string());
    assert_eq!(NamedRange::parse_range("List1!$A$:$A$"), "$A$:$A$".to_string());
    assert_eq!(NamedRange::parse_sheet("no separator"), "no separator".to_string());
    assert_eq!(NamedRange::parse_range("no separator"), "".to_string());
}

#[test]
fn test_named_ranges_filters() {
    let defs = vec![
        ("Статус".to_string(), "List1!$B$:$B$".to_string()),
        ("мусор".to_string(), "List1!$C$:$C$".to_string()),
        ("Номер".to_string(), "List1!$A$:$A$".to_string()),
    ];
    let ranges = named_ranges(&defs);
    assert_eq!(ranges.len(), 2);
    assert_eq!(ranges[0].name, "Статус".to_string());
    assert_eq!(ranges[1].name, "Номер".to_string());
}

#[test]
fn test_named_cols() {
    let defs = vec![
        ("Статус".to_string(), "List1!$B$:$B$".to_string()),
        ("Номер".to_string(), "List1!$A$:$A$".to_string()),
        ("Регион".to_string(), "List1!$AB$:$AB$".to_string()),
        // a later range for the same label overwrites an earlier one
        ("НМЦК".to_string(), "List1!$D$:$D$".to_string()),
        ("НМЦК".to_string(), "List1!$E$:$E$".to_string()),
        // a malformed token falls back to the default index 0
        ("Площадка".to_string(), "List1!$9$:$9$".to_string()),
    ];
    let cols = named_cols(&named_ranges(&defs));
    assert_eq!(cols.status, 1);
    assert_eq!(cols.registry_number, 0);
    assert_eq!(cols.region, 27);
    assert_eq!(cols.max_price, 4);
    assert_eq!(cols.etp, 0);
    // an absent label keeps the default index 0
    assert_eq!(cols.winner, 0);
}

#[test]
fn test_recency_cutoff() {
    assert_eq!(recency_cutoff(25569, 16), (25569 - 16) * 86400);
    assert_eq!(recency_cutoff(10, 16), 0);
    assert_eq!(recency_cutoff(16, 16), 0);
    assert!(today_in_excel_date() >= EXCEL_UNIX_EPOCH);
    assert_eq!(HOW_FAR_IN_PAST_DAYS, 16);
}

fn test_cols() -> NamedCols {
    NamedCols {
        registry_number: 0,
        purchase_subject: 1,
        purchase_abbr: 2,
        purchase_type: 3,
        collecting_datetime: 4,
        approval_datetime: 5,
        bidding_datetime: 6,
        bidding_date: 7,
        collecting_date: 8,
        region: 9,
        customer_type: 10,
        max_price: 11,
        application_guarantee: 12,
        contract_guarantee: 13,
        status: 14,
        our_participants: 15,
        estimation: 16,
        etp: 17,
        winner: 18,
        winner_price: 19,
        participants: 20,
    }
}

fn active_row(registry: &str, status: &str, bidding_serial_secs: u64) -> Vec<CellValue> {
    vec![
        CellValue::Text(registry.to_string()),
        CellValue::Text("субъект".to_string()),
        CellValue::Text("сокр".to_string()),
        CellValue::Text("форма".to_string()),
        CellValue::DateTime(serial_secs(44516.5)),
        CellValue::DateTime(serial_secs(44517.0)),
        CellValue::DateTime(serial_secs(0.4375)),
        CellValue::DateTime(bidding_serial_secs),
        CellValue::DateTime(serial_secs(44516.0)),
        CellValue::Text("регион".to_string()),
        CellValue::Text("заказчик".to_string()),
        CellValue::Number(1_000_500),
        CellValue::Number(10_000),
        CellValue::Number(20_000),
        CellValue::Text(status.to_string()),
        CellValue::Text("мы".to_string()),
        CellValue::Number(999_900),
        CellValue::Text("площадка".to_string()),
        CellValue::Text("победитель".to_string()),
        CellValue::Number(1_001_000),
        CellValue::Text("участники".to_string()),
    ]
}

#[test]
fn test_active_state_cells_filters_and_coerces() {
    let cols = test_cols();
    let bid = serial_secs(44520.0);
    let cutoff = serial_secs(44510.0);
    let rows = vec![
        active_row("№111", "идем", bid),
        // wrong status: dropped
        active_row("222", "не идем", bid),
        // bidding date at or before the cutoff: dropped
        active_row("333", "идем", cutoff),
        // status cell not text: dropped
        {
            let mut r = active_row("444", "идем", bid);
            r[14] = CellValue::Number(5);
            r
        },
    ];
    let res = active_state_cells(&rows, cols, cutoff, false);
    assert_eq!(res.len(), 1);
    let p = &res[0];
    // the leading ordinal marker is stripped
    assert_eq!(p.registry_number, "111".to_string());
    assert_eq!(p.purchase_subject, "субъект".to_string());
    assert_eq!(p.status, "идем".to_string());
    assert_eq!(p.max_price, 1_000_500);
    assert_eq!(p.estimation, 999_900);
    // a time-only bidding cell is replaced by the paired date cell
    assert_eq!(p.bidding_datetime, from_excel_date(bid));
    // a full date-time collecting cell stands alone
    assert_eq!(p.collecting_datetime, from_excel_date(serial_secs(44516.5)));
    assert_eq!(p.approval_datetime, from_excel_date(serial_secs(44517.0)));
}

#[test]
fn test_active_state_cells_sums_when_configured() {
    let cols = test_cols();
    let bid = serial_secs(44520.0);
    let cutoff = serial_secs(44510.0);
    let rows = vec![active_row("555", "расчет", bid)];
    let res = active_state_cells(&rows, cols, cutoff, true);
    assert_eq!(res.len(), 1);
    // under the summing convention the time-only cell adds to its date
    assert_eq!(
        res[0].bidding_datetime,
        from_excel_date(bid + serial_secs(0.4375))
    );
    assert_eq!(
        res[0].collecting_datetime,
        from_excel_date(serial_secs(44516.5))
    );
}

#[test]
fn test_active_state_cells_row_cap() {
    // scanning stops after 7000 rows: an active row beyond the cap is not
    // seen
    let cols = test_cols();
    let bid = serial_secs(44520.0);
    let cutoff = serial_secs(44510.0);
    let mut rows: Vec<Vec<CellValue>> = Vec::new();
    for _ in 0..7000 {
        rows.push(active_row("inactive", "не идем", bid));
    }
    rows.push(active_row("late", "идем", bid));
    let res = active_state_cells(&rows, cols, cutoff, false);
    assert!(res.is_empty());

    // the same active row inside the cap is seen
    rows[6999] = active_row("in-range", "идем", bid);
    let res = active_state_cells(&rows, cols, cutoff, false);
    assert_eq!(res.len(), 1);
    assert_eq!(res[0].registry_number, "in-range".to_string());
}

#[test]
fn test_active_state_cells_empty() {
    let rows: Vec<Vec<CellValue>> = Vec::new();
    let res = active_state_cells(&rows, test_cols(), 0, false);
    assert!(res.is_empty());
}

#[test]
fn test_workbook_error_from_serde() {
    let bad = serde_json::from_str::<serde_json::Value>("{ not json");
    let err = bad.expect_err("malformed input must fail");
    let we = WorkbookError::from(err);
    assert!(matches!(we, WorkbookError::JsonSerializeError(_)));
}
