use position_and_risk_engine::eq_ignore_ascii_case;

#[test]
fn ascii_case_is_ignored() {
    assert!(eq_ignore_ascii_case("BTC", "btc"));
    assert!(eq_ignore_ascii_case("us10y", "US10Y"));
    assert!(eq_ignore_ascii_case("BuNd10Y", "bUnD10y"));
    assert!(eq_ignore_ascii_case("", ""));
}

#[test]
fn different_tickers_do_not_match() {
    assert!(!eq_ignore_ascii_case("BTC", "ETH"));
    assert!(!eq_ignore_ascii_case("BTC", "BTCX"));
    assert!(!eq_ignore_ascii_case("", "A"));
    // '@' and '`' sit just outside the letter ranges and do not fold.
    assert!(!eq_ignore_ascii_case("@", "`"));
    assert!(!eq_ignore_ascii_case("[", "{"));
}

#[test]
fn non_ascii_characters_must_be_identical() {
    assert!(eq_ignore_ascii_case("ÉTF", "Étf"));
    assert!(!eq_ignore_ascii_case("É", "é"));
}

#[test]
fn matching_agrees_with_std() {
    let words = ["AAPL", "aapl", "AaPl", "NVDA", "nvda", "Ü", "ü", "", "a", "A1", "a1", "z", "Z"];
    for a in words {
        for b in words {
            assert_eq!(eq_ignore_ascii_case(a, b), a.eq_ignore_ascii_case(b), "{a} vs {b}");
        }
    }
}
