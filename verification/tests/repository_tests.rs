use position_and_risk_engine::{AssetType, PositionBook, PositionRecord, RepositoryError};

fn record(ticker: &str, asset_type: AssetType, quantity: f64, buy: f64, current: f64) -> PositionRecord<f64> {
    PositionRecord {
        ticker: ticker.to_string(),
        asset_type,
        quantity,
        buy_price: buy,
        current_price: current,
    }
}

fn sample_book() -> PositionBook<f64> {
    PositionBook::with_positions(vec![
        record("AAPL", AssetType::Share, 10.0, 150.0, 170.0),
        record("BTC", AssetType::Crypto, 0.5, 60000.0, 55000.0),
        record("US10Y", AssetType::Bond, 50.0, 100.0, 105.0),
    ])
}

#[test]
fn error_messages() {
    assert_eq!(
        RepositoryError::NotFound("XYZ".to_string()).to_string(),
        "Position not found: XYZ"
    );
    assert_eq!(
        RepositoryError::Internal("disk on fire".to_string()).to_string(),
        "Repository internal error: disk on fire"
    );
}

#[test]
fn get_all_positions_returns_the_book_in_order() {
    let book = sample_book();
    let all = book.get_all_positions().unwrap();
    assert_eq!(all.len(), 3);
    assert_eq!(book.len(), 3);
    let tickers: Vec<&str> = all.iter().map(|p| p.ticker.as_str()).collect();
    assert_eq!(tickers, vec!["AAPL", "BTC", "US10Y"]);
    assert_eq!(all[1].asset_type, AssetType::Crypto);
    assert_eq!(all[1].quantity, 0.5);
    assert_eq!(all[1].buy_price, 60000.0);
    assert_eq!(all[1].current_price, 55000.0);
}

#[test]
fn update_btc_price_is_read_back() {
    let mut book = sample_book();
    assert_eq!(book.update_price("BTC", 65000.0), Ok(()));
    let all = book.get_all_positions().unwrap();
    let btc = all.iter().find(|p| p.ticker == "BTC").unwrap();
    assert_eq!(btc.current_price, 65000.0);
    // Everything else is untouched.
    assert_eq!(btc.buy_price, 60000.0);
    assert_eq!(btc.quantity, 0.5);
    assert_eq!(all[0].current_price, 170.0);
    assert_eq!(all[2].current_price, 105.0);
}

#[test]
fn update_matches_ticker_ignoring_case() {
    let mut book = sample_book();
    assert_eq!(book.update_price("us10y", 99.5), Ok(()));
    assert_eq!(book.position_index("Us10Y"), Some(2));
    assert_eq!(book.get_all_positions().unwrap()[2].current_price, 99.5);
}

#[test]
fn update_unknown_ticker_is_not_found_and_changes_nothing() {
    let mut book = sample_book();
    assert_eq!(
        book.update_price("DOGE", 1.0),
        Err(RepositoryError::NotFound("DOGE".to_string()))
    );
    let all = book.get_all_positions().unwrap();
    let prices: Vec<f64> = all.iter().map(|p| p.current_price).collect();
    assert_eq!(prices, vec![170.0, 55000.0, 105.0]);
    assert_eq!(book.position_index("DOGE"), None);
}

#[test]
fn duplicate_tickers_update_the_first_only() {
    let mut book = PositionBook::with_positions(vec![
        record("eth", AssetType::Crypto, 1.0, 3000.0, 3100.0),
        record("ETH", AssetType::Crypto, 2.0, 3200.0, 3450.0),
    ]);
    assert_eq!(book.position_index("ETH"), Some(0));
    assert_eq!(book.update_price("ETH", 4000.0), Ok(()));
    let all = book.get_all_positions().unwrap();
    assert_eq!(all[0].current_price, 4000.0);
    assert_eq!(all[1].current_price, 3450.0);
}

#[test]
fn last_write_wins() {
    let mut book = sample_book();
    book.update_price("AAPL", 180.0).unwrap();
    book.update_price("aapl", 175.0).unwrap();
    assert_eq!(book.get_all_positions().unwrap()[0].current_price, 175.0);
}

#[test]
fn updates_of_distinct_positions_commute() {
    let mut a = sample_book();
    a.update_price("AAPL", 1.0).unwrap();
    a.update_price("BTC", 2.0).unwrap();
    let mut b = sample_book();
    b.update_price("BTC", 2.0).unwrap();
    b.update_price("AAPL", 1.0).unwrap();
    let pa: Vec<f64> = a.get_all_positions().unwrap().iter().map(|p| p.current_price).collect();
    let pb: Vec<f64> = b.get_all_positions().unwrap().iter().map(|p| p.current_price).collect();
    assert_eq!(pa, pb);
}

#[test]
fn empty_book() {
    let mut book: PositionBook<f64> = PositionBook::with_positions(Vec::new());
    assert_eq!(book.len(), 0);
    assert!(book.get_all_positions().unwrap().is_empty());
    assert_eq!(
        book.update_price("AAPL", 1.0),
        Err(RepositoryError::NotFound("AAPL".to_string()))
    );
}

#[test]
fn cloned_record_is_identical() {
    let r = record("SOL", AssetType::Crypto, 25.0, 140.0, 160.0);
    let c = r.clone();
    assert_eq!(c.ticker, "SOL");
    assert_eq!(c.asset_type, AssetType::Crypto);
    assert_eq!(c.quantity, 25.0);
    assert_eq!(c.buy_price, 140.0);
    assert_eq!(c.current_price, 160.0);
}
