use crypto_msg_norm::mexc::{
    extract_symbol, extract_timestamp, l2_timestamp, l2_timestamp_source, TimestampSource,
};
use crypto_msg_norm::model::{MarketType, ParseError};

const SPOT_DEALS: &str = r#"["push.symbol",{"symbol":"BTC_USDT","data":{"deals":[{"t":1616373554541,"p":"57005.6","q":"0.01","T":1},{"t":1616373554987,"p":"57005.7","q":"0.02","T":2},{"t":1616373554700,"p":"57005.5","q":"0.03","T":1}]}}]"#;

#[test]
fn symbol_from_array_frame() {
    assert_eq!(extract_symbol(SPOT_DEALS).unwrap(), "BTC_USDT");
}

#[test]
fn symbol_from_object_frame() {
    let msg = r#"{"channel":"push.deal","data":{"p":1,"t":1616373554541},"symbol":"BTC_USDT","ts":1616373554541}"#;
    assert_eq!(extract_symbol(msg).unwrap(), "BTC_USDT");
}

#[test]
fn symbol_errors() {
    assert_eq!(extract_symbol("not json"), Err(ParseError::MalformedPayload));
    assert_eq!(extract_symbol(r#"["push.symbol"]"#), Err(ParseError::MalformedPayload));
    assert_eq!(extract_symbol(r#"{"ts":1}"#), Err(ParseError::MissingField));
    assert_eq!(extract_symbol(r#"{"symbol":7}"#), Err(ParseError::MalformedPayload));
    assert_eq!(extract_symbol("42"), Err(ParseError::MalformedPayload));
}

#[test]
fn timestamp_is_latest_deal() {
    assert_eq!(extract_timestamp(SPOT_DEALS), Ok(Some(1616373554987)));
}

#[test]
fn empty_deals_is_an_error() {
    let msg = r#"["push.symbol",{"symbol":"BTC_USDT","data":{"deals":[]}}]"#;
    assert_eq!(extract_timestamp(msg), Err(ParseError::MalformedPayload));
    let obj = r#"{"symbol":"BTC_USDT","data":{"deals":[]}}"#;
    assert_eq!(extract_timestamp(obj), Err(ParseError::MalformedPayload));
}

#[test]
fn no_deals_means_no_timestamp() {
    let msg = r#"["push.symbol",{"symbol":"BTC_USDT","data":{"bids":[]}}]"#;
    assert_eq!(extract_timestamp(msg), Ok(None));
    let obj = r#"{"symbol":"BTC_USDT","data":{"asks":[]}}"#;
    assert_eq!(extract_timestamp(obj), Ok(None));
}

#[test]
fn object_frame_timestamp() {
    let msg = r#"{"channel":"push.deal","data":{"p":1},"symbol":"BTC_USDT","ts":1616373554541}"#;
    assert_eq!(extract_timestamp(msg), Ok(Some(1616373554541)));
    let deals = r#"{"symbol":"BTC_USDT","data":{"deals":[{"t":5},{"t":9},{"t":7}]}}"#;
    assert_eq!(extract_timestamp(deals), Ok(Some(9)));
}

#[test]
fn timestamp_errors() {
    assert_eq!(
        extract_timestamp(r#"["push.depth",{"symbol":"BTC_USDT","data":{}}]"#),
        Err(ParseError::UnknownChannel)
    );
    assert_eq!(extract_timestamp(r#"{"symbol":"BTC_USDT"}"#), Err(ParseError::MissingField));
    assert_eq!(extract_timestamp(r#"{"ts":"soon"}"#), Err(ParseError::MalformedPayload));
    assert_eq!(
        extract_timestamp(r#"["push.symbol",{"data":{"deals":[{"t":1},{"p":2}]}}]"#),
        Err(ParseError::MissingField)
    );
    assert_eq!(extract_timestamp("{"), Err(ParseError::MalformedPayload));
    assert_eq!(extract_timestamp(r#"[1,2]"#), Err(ParseError::MalformedPayload));
}

#[test]
fn spot_order_books_need_a_supplied_timestamp() {
    assert_eq!(l2_timestamp_source(MarketType::Spot), TimestampSource::ExternallySupplied);
    assert_eq!(l2_timestamp_source(MarketType::LinearSwap), TimestampSource::Embedded);
    assert_eq!(l2_timestamp(MarketType::Spot, None), Err(ParseError::MissingTimestamp));
    assert_eq!(l2_timestamp(MarketType::Spot, Some(17)), Ok(Some(17)));
    assert_eq!(l2_timestamp(MarketType::LinearSwap, None), Ok(None));
}

#[test]
fn extraction_is_repeatable() {
    assert_eq!(extract_timestamp(SPOT_DEALS), extract_timestamp(SPOT_DEALS));
    assert_eq!(extract_symbol(SPOT_DEALS), extract_symbol(SPOT_DEALS));
}
