//! The canonical record and enumeration types.
use crate::json::{Json, JsonNumber};
use vstd::prelude::*;

verus! {

/// The kind of market an instrument trades in.
#[derive(Clone, Copy, Debug, PartialEq, Eq, Structural)]
pub enum MarketType {
    Spot,
    LinearFuture,
    InverseFuture,
    LinearSwap,
    InverseSwap,
    Option,
    QuantoFuture,
    QuantoSwap,
}

/// The kind of a canonical message.
#[derive(Clone, Copy, Debug, PartialEq, Eq, Structural)]
pub enum MessageType {
    Trade,
    L2Event,
    L2Snapshot,
    L3Event,
    L3Snapshot,
    BBO,
    Ticker,
    Candlestick,
}

/// The direction of a trade.
#[derive(Clone, Copy, Debug, PartialEq, Eq, Structural)]
pub enum TradeSide {
    Buy,
    Sell,
}

/// Why a payload or a symbol could not be normalized.
#[derive(Clone, Copy, Debug, PartialEq, Eq, Structural)]
pub enum ParseError {
    /// The envelope does not have the expected shape.
    MalformedPayload,
    /// An expected field is absent.
    MissingField,
    /// The wire shape carries no timestamp and none was supplied.
    MissingTimestamp,
    /// The embedded channel name is not one this parser handles.
    UnknownChannel,
    /// The symbol lies outside the exchange's grammar.
    UnknownSymbol,
    /// The parser does not implement the requested market type.
    UnsupportedMarketType,
}

/// One trade in canonical form.
#[derive(Debug)]
pub struct TradeMsg {
    /// The exchange's identifier.
    pub exchange: String,
    pub market_type: MarketType,
    /// The exchange-native symbol.
    pub symbol: String,
    /// The canonical `BASE/QUOTE` pair.
    pub pair: String,
    pub msg_type: MessageType,
    /// Event time in epoch milliseconds, as the exchange reported it.
    pub timestamp: i64,
    pub price: JsonNumber,
    /// Quantity in base units.
    pub quantity: JsonNumber,
    /// Notional in the quote currency.
    pub volume: JsonNumber,
    pub side: TradeSide,
    pub trade_id: String,
    /// The native record, as decoded.
    pub raw: Json,
}

} // verus!
