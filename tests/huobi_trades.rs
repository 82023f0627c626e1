use crypto_msg_norm::huobi_linear::{pair_of_symbol, parse_trade, symbol_of_channel};
use crypto_msg_norm::json::Json;
use crypto_msg_norm::model::{MarketType, MessageType, ParseError, TradeSide};

const TWO_TRADES: &str = r#"{"ch":"market.BTC-USDT.trade.detail","ts":1616231995793,"tick":{"id":21229216,"ts":1616231995787,"data":[{"amount":2,"quantity":0.002,"trade_turnover":117.4616,"ts":1616231995787,"id":212292160000,"price":58730.8,"direction":"buy"},{"amount":4,"quantity":0.004,"trade_turnover":234.9208,"ts":1616231995790,"id":212292160001,"price":58730.2,"direction":"sell"}]}}"#;

#[test]
fn two_records_give_two_trades() {
    let trades = parse_trade(MarketType::LinearSwap, TWO_TRADES).unwrap();
    assert_eq!(trades.len(), 2);
    let t = &trades[0];
    assert_eq!(t.exchange, "huobi");
    assert_eq!(t.market_type, MarketType::LinearSwap);
    assert_eq!(t.symbol, "BTC-USDT");
    assert_eq!(t.pair, "BTC/USDT");
    assert_eq!(t.msg_type, MessageType::Trade);
    assert_eq!(t.timestamp, 1616231995787);
    assert_eq!(t.price.text.parse::<f64>().unwrap(), 58730.8);
    assert_eq!(t.quantity.text.parse::<f64>().unwrap(), 0.002);
    assert_eq!(t.volume.text.parse::<f64>().unwrap(), 117.4616);
    assert_eq!(t.side, TradeSide::Buy);
    assert_eq!(t.trade_id, "212292160000");
    assert!(matches!(t.raw, Json::Object(_)));
    let u = &trades[1];
    assert_eq!(u.timestamp, 1616231995790);
    assert_eq!(u.price.text.parse::<f64>().unwrap(), 58730.2);
    assert_eq!(u.quantity.text.parse::<f64>().unwrap(), 0.004);
    assert_eq!(u.side, TradeSide::Sell);
    assert_eq!(u.trade_id, "212292160001");
}

#[test]
fn empty_batch_gives_no_trades() {
    let msg = r#"{"ch":"market.ETH-USDT.trade.detail","ts":1,"tick":{"id":2,"ts":3,"data":[]}}"#;
    assert_eq!(parse_trade(MarketType::LinearSwap, msg).unwrap().len(), 0);
}

#[test]
fn unknown_direction_fails_the_batch() {
    let msg = r#"{"ch":"market.BTC-USDT.trade.detail","ts":1,"tick":{"id":2,"ts":3,"data":[{"amount":2,"quantity":0.002,"trade_turnover":1.5,"ts":4,"id":5,"price":6.5,"direction":"buy"},{"amount":2,"quantity":0.002,"trade_turnover":1.5,"ts":4,"id":6,"price":6.5,"direction":"hold"}]}}"#;
    assert_eq!(parse_trade(MarketType::LinearSwap, msg).unwrap_err(), ParseError::MalformedPayload);
}

#[test]
fn malformed_payloads_are_typed_errors() {
    assert_eq!(parse_trade(MarketType::LinearSwap, "{\"ch\":").unwrap_err(), ParseError::MalformedPayload);
    assert_eq!(parse_trade(MarketType::LinearSwap, "[1]").unwrap_err(), ParseError::MalformedPayload);
    let no_tick = r#"{"ch":"market.BTC-USDT.trade.detail","ts":1}"#;
    assert_eq!(parse_trade(MarketType::LinearSwap, no_tick).unwrap_err(), ParseError::MissingField);
    let no_price = r#"{"ch":"market.BTC-USDT.trade.detail","ts":1,"tick":{"id":2,"ts":3,"data":[{"amount":2,"quantity":0.002,"trade_turnover":1.5,"ts":4,"id":5,"direction":"buy"}]}}"#;
    assert_eq!(parse_trade(MarketType::LinearSwap, no_price).unwrap_err(), ParseError::MissingField);
    let text_price = r#"{"ch":"market.BTC-USDT.trade.detail","ts":1,"tick":{"id":2,"ts":3,"data":[{"amount":2,"quantity":0.002,"trade_turnover":1.5,"ts":4,"id":5,"price":"6.5","direction":"buy"}]}}"#;
    assert_eq!(parse_trade(MarketType::LinearSwap, text_price).unwrap_err(), ParseError::MalformedPayload);
}

#[test]
fn channel_and_symbol_errors() {
    let no_dot = r#"{"ch":"trades","ts":1,"tick":{"id":2,"ts":3,"data":[]}}"#;
    assert_eq!(parse_trade(MarketType::LinearSwap, no_dot).unwrap_err(), ParseError::MalformedPayload);
    let bad_symbol = r#"{"ch":"market.BTCUSDT.trade.detail","ts":1,"tick":{"id":2,"ts":3,"data":[]}}"#;
    assert_eq!(parse_trade(MarketType::LinearSwap, bad_symbol).unwrap_err(), ParseError::UnknownSymbol);
}

#[test]
fn other_market_types_are_unsupported() {
    assert_eq!(parse_trade(MarketType::Spot, TWO_TRADES).unwrap_err(), ParseError::UnsupportedMarketType);
    assert_eq!(parse_trade(MarketType::InverseFuture, "oops").unwrap_err(), ParseError::UnsupportedMarketType);
}

#[test]
fn channel_symbol_and_pair() {
    assert_eq!(symbol_of_channel("market.BTC-USDT.trade.detail"), Some("BTC-USDT"));
    assert_eq!(symbol_of_channel("market.ETH-USDT"), Some("ETH-USDT"));
    assert_eq!(symbol_of_channel("market"), None);
    assert_eq!(pair_of_symbol("BTC-USDT").as_deref(), Some("BTC/USDT"));
    assert_eq!(pair_of_symbol("BTCUSDT"), None);
    assert_eq!(pair_of_symbol("-USDT"), None);
    assert_eq!(pair_of_symbol("BTC-"), None);
    assert_eq!(pair_of_symbol("A-B-C"), None);
}

#[test]
fn parsing_is_repeatable() {
    let a = parse_trade(MarketType::LinearSwap, TWO_TRADES).unwrap();
    let b = parse_trade(MarketType::LinearSwap, TWO_TRADES).unwrap();
    assert_eq!(a.len(), b.len());
    for (x, y) in a.iter().zip(b.iter()) {
        assert_eq!(x.timestamp, y.timestamp);
        assert_eq!(x.price.text, y.price.text);
        assert_eq!(x.trade_id, y.trade_id);
        assert_eq!(x.side, y.side);
        assert_eq!(format!("{:?}", x.raw), format!("{:?}", y.raw));
    }
}
