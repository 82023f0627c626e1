use crypto_msg_norm::bitmex::{get_market_type, infer, normalize_currency, normalize_pair};
use crypto_msg_norm::model::{MarketType, ParseError};

#[test]
fn inverse_swap_fixture() {
    let (pair, m) = infer("XBTUSD").unwrap();
    assert_eq!(pair, "BTC/USD");
    assert_eq!(m, MarketType::InverseSwap);
}

#[test]
fn linear_swap_fixture() {
    let (pair, m) = infer("XBTUSDT").unwrap();
    assert_eq!(pair, "BTC/USDT");
    assert_eq!(m, MarketType::LinearSwap);
}

#[test]
fn dated_contracts_are_futures() {
    assert_eq!(get_market_type("XBTZ21"), Some(MarketType::InverseFuture));
    assert_eq!(normalize_pair("XBTZ21").as_deref(), Some("BTC/USD"));
    assert_eq!(get_market_type("XBTUSDTZ21"), Some(MarketType::LinearFuture));
    assert_eq!(normalize_pair("XBTUSDTZ21").as_deref(), Some("BTC/USDT"));
    assert_eq!(get_market_type("ETHUSDZ21"), Some(MarketType::QuantoFuture));
    assert_eq!(normalize_pair("ETHUSDZ21").as_deref(), Some("ETH/USD"));
}

#[test]
fn quanto_swaps() {
    assert_eq!(infer("ETHUSD").unwrap(), ("ETH/USD".to_string(), MarketType::QuantoSwap));
    assert_eq!(infer("XBTEUR").unwrap(), ("BTC/EUR".to_string(), MarketType::InverseSwap));
    assert_eq!(infer("LINKEUR").unwrap(), ("LINK/EUR".to_string(), MarketType::QuantoSwap));
}

#[test]
fn crypto_quoted_default_to_linear_and_reserve_quote() {
    assert_eq!(infer("ETHH22").unwrap(), ("ETH/BTC".to_string(), MarketType::LinearFuture));
    assert_eq!(infer("ADAXBT").unwrap(), ("ADAXBT/BTC".to_string(), MarketType::LinearSwap));
}

#[test]
fn signed_two_character_suffix_counts_as_dated() {
    assert_eq!(get_market_type("XBTUSD+1"), Some(MarketType::InverseFuture));
    assert_eq!(get_market_type("XBTUSD-1"), Some(MarketType::InverseFuture));
    assert_eq!(get_market_type("XBTUSD1"), Some(MarketType::InverseSwap));
}

#[test]
fn symbols_outside_grammar_are_unknown() {
    assert_eq!(infer("X"), Err(ParseError::UnknownSymbol));
    assert_eq!(infer(""), Err(ParseError::UnknownSymbol));
    assert_eq!(infer("12"), Err(ParseError::UnknownSymbol));
    assert_eq!(infer("USD"), Err(ParseError::UnknownSymbol));
    assert_eq!(get_market_type("X"), None);
    assert_eq!(get_market_type("12"), None);
    assert_eq!(get_market_type("USD"), Some(MarketType::QuantoSwap));
    assert_eq!(normalize_pair("USD"), None);
}

#[test]
fn currency_alias() {
    assert_eq!(normalize_currency("XBT"), "BTC");
    assert_eq!(normalize_currency("ETH"), "ETH");
    assert_eq!(normalize_currency("XBTX"), "XBTX");
}

#[test]
fn infer_is_deterministic() {
    for s in ["XBTUSD", "XBTUSDT", "XBTZ21", "ETHUSD", "ADAXBT", "X"] {
        assert_eq!(infer(s), infer(s));
    }
}
