#![allow(dead_code)]

use payment_engine::domain::transaction::Transaction;
use payment_engine::engine::payment_engine::PaymentEngine;
use payment_engine::error::app_error::AppError;
use payment_engine::io::csv_output::account_records;
use payment_engine::io::record::CsvTransactionRecord;
use payment_engine::ledger::in_memory::InMemoryLedger;
use payment_engine::traits::ledger::Ledger;

/// Reads CSV text the way the application does (header row, fields
/// trimmed) and turns each row into the library's input record.
fn csv_rows(input: &str) -> Vec<Result<CsvTransactionRecord, AppError>> {
    let mut reader = csv::ReaderBuilder::new()
        .trim(csv::Trim::All)
        .from_reader(input.as_bytes());
    let headers = reader.headers().expect("header row").clone();
    let column = |name: &str| headers.iter().position(|h| h == name);
    let (type_col, client_col, tx_col, amount_col) =
        (column("type"), column("client"), column("tx"), column("amount"));
    reader
        .records()
        .map(|row| {
            let row = row.map_err(|_| AppError::Error)?;
            let field = |col: Option<usize>| col.and_then(|c| row.get(c)).map(str::to_string);
            let tx_type = field(type_col).ok_or(AppError::Error)?;
            let client = field(client_col)
                .and_then(|c| c.parse::<u16>().ok())
                .ok_or(AppError::Error)?;
            let tx = field(tx_col)
                .and_then(|t| t.parse::<u32>().ok())
                .ok_or(AppError::Error)?;
            let amount = field(amount_col).filter(|a| !a.is_empty());
            Ok(CsvTransactionRecord { tx_type, client, tx, amount })
        })
        .collect()
}

const OUTPUT_HEADER: &str = "client,available,held,total,locked";

/// Runs the whole flow on CSV text: parse, apply in order, report.
fn run_app(input: &str) -> String {
    let mut ledger = InMemoryLedger::new();
    let mut engine = PaymentEngine::new();
    for row in csv_rows(input) {
        let record = row.expect("runner should complete for integration test input");
        let tx = Transaction::try_from(record).expect("runner should complete for integration test input");
        let _ = engine.apply(tx, &mut ledger);
    }
    assert!(ledger.totals_fit());
    let snapshots = ledger.snapshot_accounts();
    let records = account_records(&snapshots);
    let mut output = Vec::<u8>::new();
    {
        let mut writer = csv::Writer::from_writer(&mut output);
        if !records.is_empty() {
            writer.write_record(OUTPUT_HEADER.split(',')).unwrap();
        }
        for r in records {
            writer
                .write_record([r.client.to_string(), r.available, r.held, r.total, r.locked.to_string()])
                .unwrap();
        }
        writer.flush().unwrap();
    }
    String::from_utf8(output).expect("runner output should be valid UTF-8")
}

fn data_rows(output: &str) -> Vec<String> {
    output
        .lines()
        .skip(1)
        .filter(|line| !line.trim().is_empty())
        .map(str::to_string)
        .collect()
}

fn sorted_data_rows(output: &str) -> Vec<String> {
    let mut rows = data_rows(output);
    rows.sort();
    rows
}

fn row_for_client(output: &str, client_id: u16) -> String {
    let client_text = client_id.to_string();

    data_rows(output)
        .into_iter()
        .find(|row| row.split(',').next() == Some(client_text.as_str()))
        .unwrap_or_else(|| panic!("expected row for client {}", client_id))
}

fn csv_fields(row: &str) -> Vec<&str> {
    row.split(',').collect()
}

fn parse_output_amount(raw: &str) -> i32 {
    let raw = raw.trim();
    let (sign, body) = if let Some(rest) = raw.strip_prefix('-') {
        (-1_i64, rest)
    } else if let Some(rest) = raw.strip_prefix('+') {
        (1_i64, rest)
    } else {
        (1_i64, raw)
    };

    let (whole_text, frac_text) = body.split_once('.').unwrap_or((body, ""));
    let whole = whole_text
        .parse::<i64>()
        .unwrap_or_else(|_| panic!("invalid amount whole part: {}", raw));

    let mut frac = frac_text.to_string();
    assert!(frac.len() <= 4, "output amount has more than 4 decimal places: {}", raw);
    while frac.len() < 4 {
        frac.push('0');
    }

    let fractional = frac
        .parse::<i64>()
        .unwrap_or_else(|_| panic!("invalid amount fractional part: {}", raw));

    i32::try_from(sign * (whole * 10_000 + fractional))
        .unwrap_or_else(|_| panic!("amount out of i32 range: {}", raw))
}

fn csv(rows: &str) -> String {
    format!("type,client,tx,amount\n{rows}")
}
#[test]
fn deposit_then_dispute_moves_funds_from_available_to_held() {
    let output = run_app(&csv("deposit,1,1,1.5\ndispute,1,1,\n"));
    let row = row_for_client(&output, 1);

    assert_eq!(row, "1,0,1.5,1.5,false");
}

#[test]
fn deposit_then_dispute_then_resolve_returns_funds_to_available() {
    let output = run_app(&csv("deposit,1,1,1.5\ndispute,1,1,\nresolve,1,1,\n"));
    let row = row_for_client(&output, 1);

    assert_eq!(row, "1,1.5,0,1.5,false");
}

#[test]
fn total_remains_constant_during_dispute_and_resolve() {
    let deposited = run_app(&csv("deposit,1,1,1.5\n"));
    let disputed = run_app(&csv("deposit,1,1,1.5\ndispute,1,1,\n"));
    let resolved = run_app(&csv("deposit,1,1,1.5\ndispute,1,1,\nresolve,1,1,\n"));

    let deposited_total = parse_output_amount(csv_fields(&row_for_client(&deposited, 1))[3]);
    let disputed_total = parse_output_amount(csv_fields(&row_for_client(&disputed, 1))[3]);
    let resolved_total = parse_output_amount(csv_fields(&row_for_client(&resolved, 1))[3]);

    assert_eq!(deposited_total, disputed_total);
    assert_eq!(deposited_total, resolved_total);
}

#[test]
fn dispute_unknown_tx_leaves_output_unchanged() {
    let output = run_app(&csv("dispute,1,999,\n"));

    assert_eq!(output, "");
}

#[test]
fn dispute_wrong_client_leaves_output_unchanged() {
    let output = run_app(&csv("deposit,1,1,1.0\ndispute,1,1,\ndispute,2,1,\n"));

    assert_eq!(data_rows(&output), vec!["1,0,1,1,false".to_string()]);
}

#[test]
fn resolve_without_dispute_leaves_output_unchanged() {
    let output = run_app(&csv("deposit,1,1,1.5\nresolve,1,1,\n"));

    assert_eq!(data_rows(&output), vec!["1,1.5,0,1.5,false".to_string()]);
}
