use stock_signals::report::closing_series;
use stock_signals::report::report_rows;
use stock_signals::report::row_for_symbol;
use stock_signals::report::sort_quotes;
use stock_signals::report::Quote;

fn bits_of(xs: &[f64]) -> Vec<u64> {
    xs.iter().map(|x| x.to_bits()).collect()
}

#[test]
fn closing_series_sorts_by_timestamp_and_projects() {
    let quotes = vec![
        Quote { timestamp: 30, adjclose: 3.0_f64.to_bits() },
        Quote { timestamp: 10, adjclose: 1.0_f64.to_bits() },
        Quote { timestamp: 20, adjclose: 2.0_f64.to_bits() },
    ];
    let series: Vec<f64> = closing_series(&quotes).iter().map(|b| f64::from_bits(*b)).collect();
    assert_eq!(series, vec![1.0, 2.0, 3.0]);
}

#[test]
fn sort_quotes_is_stable_on_equal_timestamps() {
    let quotes = vec![
        Quote { timestamp: 10, adjclose: 1.0_f64.to_bits() },
        Quote { timestamp: 5, adjclose: 7.0_f64.to_bits() },
        Quote { timestamp: 10, adjclose: 2.0_f64.to_bits() },
    ];
    let sorted = sort_quotes(&quotes);
    let keys: Vec<u64> = sorted.iter().map(|q| q.timestamp).collect();
    let vals: Vec<f64> = sorted.iter().map(|q| f64::from_bits(q.adjclose)).collect();
    assert_eq!(keys, vec![5, 10, 10]);
    assert_eq!(vals, vec![7.0, 1.0, 2.0]);
}

#[test]
fn row_assembles_all_signals() {
    let series = bits_of(&[2.0, 3.0, 5.0, 6.0, 1.0, 2.0, 10.0]);
    let row = row_for_symbol("ACME".to_string(), 86400, &series).unwrap();
    assert_eq!(row.symbol, "ACME");
    assert_eq!(row.period_start, 86400);
    assert_eq!(f64::from_bits(row.price), 10.0);
    assert_eq!(f64::from_bits(row.pct_change), 4.0);
    assert_eq!(f64::from_bits(row.min), 1.0);
    assert_eq!(f64::from_bits(row.max), 10.0);
    // Fewer prices than the window width: the moving-average sequence is
    // empty and the row falls back to zero.
    assert_eq!(f64::from_bits(row.sma), 0.0);
}

#[test]
fn row_uses_latest_moving_average_value() {
    let xs: Vec<f64> = (0..31).map(|i| i as f64).collect();
    let series = bits_of(&xs);
    let row = row_for_symbol("ACME".to_string(), 0, &series).unwrap();
    // Two windows of width 30 over 0..=30: the later one averages 1..=30.
    assert_eq!(f64::from_bits(row.sma), 15.5);
    assert_eq!(f64::from_bits(row.price), 30.0);
}

#[test]
fn report_keeps_request_order_and_skips_empty_series() {
    let inputs = vec![
        ("A".to_string(), bits_of(&[1.0, 2.0])),
        ("B".to_string(), Vec::new()),
        ("C".to_string(), bits_of(&[4.0, 3.0])),
    ];
    let rows = report_rows(inputs, 0);
    assert_eq!(rows.len(), 2);
    assert_eq!(rows[0].symbol, "A");
    assert_eq!(f64::from_bits(rows[0].price), 2.0);
    assert_eq!(f64::from_bits(rows[0].pct_change), 1.0);
    assert_eq!(rows[1].symbol, "C");
    assert_eq!(f64::from_bits(rows[1].price), 3.0);
    assert_eq!(f64::from_bits(rows[1].pct_change), -0.25);
}

#[test]
fn empty_series_yields_no_row_and_leaves_others_alone() {
    let empty: Vec<u64> = Vec::new();
    let series = bits_of(&[2.0, 3.0, 5.0, 6.0, 1.0, 2.0, 10.0]);
    assert!(row_for_symbol("NONE".to_string(), 0, &empty).is_none());
    let row = row_for_symbol("ACME".to_string(), 0, &series).unwrap();
    assert_eq!(f64::from_bits(row.max), 10.0);
    assert_eq!(f64::from_bits(row.min), 1.0);
    assert_eq!(f64::from_bits(row.pct_change), 4.0);
}
