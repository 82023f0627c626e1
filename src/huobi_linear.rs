//! Huobi USDT-margined swaps: trade messages.
use crate::json::{
    decoded, field, get, get_int, get_num, get_str, int_field, num_field, parse_json, position,
    str_field, Json,
};
use crate::model::{MarketType, MessageType, ParseError, TradeMsg, TradeSide};
use crate::text::{first_of, lemma_first_of_bounds, is_pair_text, lemma_join_is_pair, index_of, owned, slice, str_eq};
use vstd::prelude::*;

verus! {

pub open spec fn exchange_name() -> Seq<char> {
    seq!['h', 'u', 'o', 'b', 'i']
}

/// The symbol in a channel name: its second `.`-separated segment.
pub open spec fn channel_symbol(ch: Seq<char>) -> Option<Seq<char>> {
    let a = first_of(ch, '.', 0);
    if a >= ch.len() {
        None
    } else {
        Some(ch.subrange(a + 1, first_of(ch, '.', a + 1)))
    }
}

/// The pair of a linear swap symbol `BASE-QUOTE`.
pub open spec fn linear_pair(sym: Seq<char>) -> Option<Seq<char>> {
    let d = first_of(sym, '-', 0);
    if d == 0 || d + 1 >= sym.len() || first_of(sym, '-', d + 1) < sym.len() {
        None
    } else {
        Some(sym.subrange(0, d) + seq!['/'] + sym.subrange(d + 1, sym.len() as int))
    }
}

/// The side that a `direction` token names.
pub open spec fn side_of(d: Seq<char>) -> Result<TradeSide, ParseError> {
    if d == seq!['b', 'u', 'y'] {
        Ok(TradeSide::Buy)
    } else if d == seq!['s', 'e', 'l', 'l'] {
        Ok(TradeSide::Sell)
    } else {
        Err(ParseError::MalformedPayload)
    }
}

/// Checks one native trade record's fields in order, giving its side.
pub open spec fn record_side(rec: Json) -> Result<TradeSide, ParseError> {
    if !(rec is Object) {
        Err(ParseError::MalformedPayload)
    } else if int_field(rec, seq!['i', 'd']) is Err {
        Err(int_field(rec, seq!['i', 'd'])->Err_0)
    } else if int_field(rec, seq!['t', 's']) is Err {
        Err(int_field(rec, seq!['t', 's'])->Err_0)
    } else if num_field(rec, seq!['a', 'm', 'o', 'u', 'n', 't']) is Err {
        Err(num_field(rec, seq!['a', 'm', 'o', 'u', 'n', 't'])->Err_0)
    } else if num_field(rec, quantity_key()) is Err {
        Err(num_field(rec, quantity_key())->Err_0)
    } else if num_field(rec, turnover_key()) is Err {
        Err(num_field(rec, turnover_key())->Err_0)
    } else if num_field(rec, seq!['p', 'r', 'i', 'c', 'e']) is Err {
        Err(num_field(rec, seq!['p', 'r', 'i', 'c', 'e'])->Err_0)
    } else {
        match str_field(rec, direction_key()) {
            Err(e) => Err(e),
            Ok(d) => side_of(d),
        }
    }
}

pub open spec fn quantity_key() -> Seq<char> {
    seq!['q', 'u', 'a', 'n', 't', 'i', 't', 'y']
}

pub open spec fn turnover_key() -> Seq<char> {
    seq!['t', 'r', 'a', 'd', 'e', '_', 't', 'u', 'r', 'n', 'o', 'v', 'e', 'r']
}

pub open spec fn direction_key() -> Seq<char> {
    seq!['d', 'i', 'r', 'e', 'c', 't', 'i', 'o', 'n']
}

/// The first error among the first `n` records, if any.
pub open spec fn records_check(recs: Seq<Json>, n: int) -> Result<(), ParseError>
    decreases n,
{
    if n <= 0 {
        Ok(())
    } else {
        match records_check(recs, n - 1) {
            Err(e) => Err(e),
            Ok(_) => match record_side(recs[n - 1]) {
                Err(e) => Err(e),
                Ok(_) => Ok(()),
            },
        }
    }
}

/// The channel name and the native records of an envelope.
pub open spec fn envelope(j: Json) -> Result<(Seq<char>, Seq<Json>), ParseError> {
    if !(j is Object) {
        Err(ParseError::MalformedPayload)
    } else if str_field(j, seq!['c', 'h']) is Err {
        Err(str_field(j, seq!['c', 'h'])->Err_0)
    } else if int_field(j, seq!['t', 's']) is Err {
        Err(int_field(j, seq!['t', 's'])->Err_0)
    } else {
        match field(j, seq!['t', 'i', 'c', 'k']) {
            None => Err(ParseError::MissingField),
            Some(tick) => if !(tick is Object) {
                Err(ParseError::MalformedPayload)
            } else if int_field(tick, seq!['i', 'd']) is Err {
                Err(int_field(tick, seq!['i', 'd'])->Err_0)
            } else if int_field(tick, seq!['t', 's']) is Err {
                Err(int_field(tick, seq!['t', 's'])->Err_0)
            } else {
                match field(tick, seq!['d', 'a', 't', 'a']) {
                    None => Err(ParseError::MissingField),
                    Some(Json::Array(d)) => Ok((str_field(j, seq!['c', 'h'])->Ok_0, d@)),
                    Some(_) => Err(ParseError::MalformedPayload),
                }
            },
        }
    }
}

/// The records, symbol and pair of a trade message, or the first error:
/// market type, envelope, symbol, pair, then the records in order.
pub open spec fn trade_plan(j: Json, market_type: MarketType) -> Result<
    (Seq<Json>, Seq<char>, Seq<char>),
    ParseError,
> {
    if market_type != MarketType::LinearSwap {
        Err(ParseError::UnsupportedMarketType)
    } else {
        match envelope(j) {
            Err(e) => Err(e),
            Ok((ch, recs)) => match channel_symbol(ch) {
                None => Err(ParseError::MalformedPayload),
                Some(sym) => match linear_pair(sym) {
                    None => Err(ParseError::UnknownSymbol),
                    Some(pair) => match records_check(recs, recs.len() as int) {
                        Err(e) => Err(e),
                        Ok(_) => Ok((recs, sym, pair)),
                    },
                },
            },
        }
    }
}

/// The decimal text of a record's id.
pub open spec fn id_text(rec: Json) -> Seq<char> {
    match field(rec, seq!['i', 'd']) {
        Some(Json::Number(n)) => n.text@,
        _ => Seq::empty(),
    }
}

/// `t` is the canonical form of the native record `rec`.
pub open spec fn trade_of_record(
    t: TradeMsg,
    rec: Json,
    market_type: MarketType,
    sym: Seq<char>,
    pair: Seq<char>,
) -> bool {
    &&& t.exchange@ == exchange_name()
    &&& t.market_type == market_type
    &&& t.symbol@ == sym
    &&& t.pair@ == pair
    &&& t.msg_type == MessageType::Trade
    &&& int_field(rec, seq!['t', 's']) == Ok::<i64, ParseError>(t.timestamp)
    &&& num_field(rec, seq!['p', 'r', 'i', 'c', 'e']) == Ok::<_, ParseError>(t.price)
    &&& num_field(rec, quantity_key()) == Ok::<_, ParseError>(t.quantity)
    &&& num_field(rec, turnover_key()) == Ok::<_, ParseError>(t.volume)
    &&& record_side(rec) == Ok::<TradeSide, ParseError>(t.side)
    &&& t.trade_id@ == id_text(rec)
    &&& t.raw == rec
}

/// What a call on a decoded message returns.
pub open spec fn trades_of(
    r: Result<Vec<TradeMsg>, ParseError>,
    j: Json,
    market_type: MarketType,
) -> bool {
    match trade_plan(j, market_type) {
        Err(e) => r == Err::<Vec<TradeMsg>, ParseError>(e),
        Ok((recs, sym, pair)) => r is Ok && r->Ok_0@.len() == recs.len() && forall|i: int|
            0 <= i < recs.len() ==> #[trigger] trade_of_record(
                r->Ok_0@[i],
                recs[i],
                market_type,
                sym,
                pair,
            ),
    }
}

/// The symbol in a channel name: its second `.`-separated segment.
pub fn symbol_of_channel(ch: &str) -> (r: Option<&str>)
    ensures
        match r {
            Some(s) => channel_symbol(ch@) == Some(s@),
            None => channel_symbol(ch@) is None,
        },
{
    let n = ch.unicode_len();
    let a = index_of(ch, '.', 0);
    if a >= n {
        return None;
    }
    let b = index_of(ch, '.', a + 1);
    Some(slice(ch, a + 1, b))
}

/// The pair of a linear swap symbol `BASE-QUOTE`, or `None` outside that grammar.
pub fn pair_of_symbol(sym: &str) -> (r: Option<String>)
    ensures
        match r {
            Some(p) => linear_pair(sym@) == Some(p@),
            None => linear_pair(sym@) is None,
        },
{
    let n = sym.unicode_len();
    let d = index_of(sym, '-', 0);
    if d == 0 || d >= n || d + 1 >= n {
        return None;
    }
    if index_of(sym, '-', d + 1) < n {
        return None;
    }
    let mut p = owned(slice(sym, 0, d));
    p.append("/");
    p.append(slice(sym, d + 1, n));
    proof {
        reveal_strlit("/");
        assert(p@ =~= linear_pair(sym@)->Some_0);
    }
    Some(p)
}

/// The side that a `direction` token names; any other token is an error.
pub fn side_of_token(d: &str) -> (r: Result<TradeSide, ParseError>)
    ensures
        r == side_of(d@),
{
    proof {
        reveal_strlit("buy");
        reveal_strlit("sell");
        assert("buy"@ =~= seq!['b', 'u', 'y']);
        assert("sell"@ =~= seq!['s', 'e', 'l', 'l']);
    }
    if str_eq(d, "buy") {
        Ok(TradeSide::Buy)
    } else if str_eq(d, "sell") {
        Ok(TradeSide::Sell)
    } else {
        Err(ParseError::MalformedPayload)
    }
}

proof fn lemma_keys()
    ensures
        "id"@ == seq!['i', 'd'],
        "ts"@ == seq!['t', 's'],
        "ch"@ == seq!['c', 'h'],
        "tick"@ == seq!['t', 'i', 'c', 'k'],
        "data"@ == seq!['d', 'a', 't', 'a'],
        "amount"@ == seq!['a', 'm', 'o', 'u', 'n', 't'],
        "price"@ == seq!['p', 'r', 'i', 'c', 'e'],
        "quantity"@ == quantity_key(),
        "trade_turnover"@ == turnover_key(),
        "direction"@ == direction_key(),
        "huobi"@ == exchange_name(),
{
    reveal_strlit("id");
    reveal_strlit("ts");
    reveal_strlit("ch");
    reveal_strlit("tick");
    reveal_strlit("data");
    reveal_strlit("amount");
    reveal_strlit("price");
    reveal_strlit("quantity");
    reveal_strlit("trade_turnover");
    reveal_strlit("direction");
    reveal_strlit("huobi");
    assert("id"@ =~= seq!['i', 'd']);
    assert("ts"@ =~= seq!['t', 's']);
    assert("ch"@ =~= seq!['c', 'h']);
    assert("tick"@ =~= seq!['t', 'i', 'c', 'k']);
    assert("data"@ =~= seq!['d', 'a', 't', 'a']);
    assert("amount"@ =~= seq!['a', 'm', 'o', 'u', 'n', 't']);
    assert("price"@ =~= seq!['p', 'r', 'i', 'c', 'e']);
    assert("quantity"@ =~= quantity_key());
    assert("trade_turnover"@ =~= turnover_key());
    assert("direction"@ =~= direction_key());
    assert("huobi"@ =~= exchange_name());
}

/// Checks one native record's fields in order and gives its side.
pub fn record_side_of(rec: &Json) -> (r: Result<TradeSide, ParseError>)
    ensures
        r == record_side(*rec),
{
    proof {
        lemma_keys();
    }
    match rec {
        Json::Object(_) => {},
        _ => return Err(ParseError::MalformedPayload),
    }
    if let Err(e) = get_int(rec, "id") {
        return Err(e);
    }
    if let Err(e) = get_int(rec, "ts") {
        return Err(e);
    }
    if let Err(e) = get_num(rec, "amount") {
        return Err(e);
    }
    if let Err(e) = get_num(rec, "quantity") {
        return Err(e);
    }
    if let Err(e) = get_num(rec, "trade_turnover") {
        return Err(e);
    }
    if let Err(e) = get_num(rec, "price") {
        return Err(e);
    }
    match get_str(rec, "direction") {
        Err(e) => Err(e),
        Ok(d) => side_of_token(d.as_str()),
    }
}

/// The canonical trade of one native record.
fn trade_from(rec: Json, market_type: MarketType, sym: &str, pair: &str) -> (r: Result<
    TradeMsg,
    ParseError,
>)
    ensures
        match record_side(rec) {
            Err(e) => r == Err::<TradeMsg, ParseError>(e),
            Ok(_) => r is Ok && trade_of_record(r->Ok_0, rec, market_type, sym@, pair@),
        },
{
    proof {
        lemma_keys();
    }
    let side = match record_side_of(&rec) {
        Err(e) => return Err(e),
        Ok(s) => s,
    };
    let timestamp = match get_int(&rec, "ts") {
        Ok(t) => t,
        Err(e) => return Err(e),
    };
    let price = match get_num(&rec, "price") {
        Ok(x) => x,
        Err(e) => return Err(e),
    };
    let quantity = match get_num(&rec, "quantity") {
        Ok(x) => x,
        Err(e) => return Err(e),
    };
    let volume = match get_num(&rec, "trade_turnover") {
        Ok(x) => x,
        Err(e) => return Err(e),
    };
    let trade_id = match get(&rec, "id") {
        Some(Json::Number(n)) => n.text.clone(),
        _ => String::new(),
    };
    Ok(
        TradeMsg {
            exchange: owned("huobi"),
            market_type,
            symbol: owned(sym),
            pair: owned(pair),
            msg_type: MessageType::Trade,
            timestamp,
            price,
            quantity,
            volume,
            side,
            trade_id,
            raw: rec,
        },
    )
}

/// Once a prefix of the records fails, every longer prefix fails the same way.
proof fn lemma_check_error_stays(recs: Seq<Json>, i: int, n: int)
    requires
        0 <= i <= n,
        records_check(recs, i) is Err,
    ensures
        records_check(recs, n) == records_check(recs, i),
    decreases n - i,
{
    if i < n {
        lemma_check_error_stays(recs, i, n - 1);
    }
}

/// Moves the native records out of an envelope already checked.
fn take_records(j: Json) -> (r: Vec<Json>)
    requires
        envelope(j) is Ok,
    ensures
        r@ == envelope(j)->Ok_0.1,
{
    proof {
        lemma_keys();
    }
    match j {
        Json::Object(mut fields) => match position(&fields, "tick") {
            Some(k) => {
                let (_, tick) = fields.remove(k);
                match tick {
                    Json::Object(mut tick_fields) => match position(&tick_fields, "data") {
                        Some(k2) => {
                            let (_, data) = tick_fields.remove(k2);
                            match data {
                                Json::Array(d) => d,
                                _ => Vec::new(),
                            }
                        },
                        None => Vec::new(),
                    },
                    _ => Vec::new(),
                }
            },
            None => Vec::new(),
        },
        _ => Vec::new(),
    }
}

/// The trades of a decoded message.
pub fn parse_trade_json(market_type: MarketType, j: Json) -> (r: Result<Vec<TradeMsg>, ParseError>)
    ensures
        trades_of(r, j, market_type),
{
    proof {
        lemma_keys();
    }
    if market_type != MarketType::LinearSwap {
        return Err(ParseError::UnsupportedMarketType);
    }
    match &j {
        Json::Object(_) => {},
        _ => return Err(ParseError::MalformedPayload),
    }
    let ch = match get_str(&j, "ch") {
        Ok(c) => c,
        Err(e) => return Err(e),
    };
    if let Err(e) = get_int(&j, "ts") {
        return Err(e);
    }
    let tick = match get(&j, "tick") {
        None => return Err(ParseError::MissingField),
        Some(t) => t,
    };
    match tick {
        Json::Object(_) => {},
        _ => return Err(ParseError::MalformedPayload),
    }
    if let Err(e) = get_int(tick, "id") {
        return Err(e);
    }
    if let Err(e) = get_int(tick, "ts") {
        return Err(e);
    }
    match get(tick, "data") {
        None => return Err(ParseError::MissingField),
        Some(Json::Array(_)) => {},
        Some(_) => return Err(ParseError::MalformedPayload),
    }
    let sym = match symbol_of_channel(ch.as_str()) {
        None => return Err(ParseError::MalformedPayload),
        Some(s) => owned(s),
    };
    let pair = match pair_of_symbol(sym.as_str()) {
        None => return Err(ParseError::UnknownSymbol),
        Some(p) => p,
    };
    let ghost whole = j;
    let mut recs = take_records(j);
    let ghost all = recs@;
    let n = recs.len();
    let mut out: Vec<TradeMsg> = Vec::new();
    let mut i: usize = 0;
    while i < n
        invariant
            n == all.len(),
            i <= n,
            recs@ == all.subrange(i as int, n as int),
            market_type == MarketType::LinearSwap,
            whole == j,
            envelope(whole) == Ok::<(Seq<char>, Seq<Json>), ParseError>((ch@, all)),
            channel_symbol(ch@) == Some(sym@),
            linear_pair(sym@) == Some(pair@),
            records_check(all, i as int) == Ok::<(), ParseError>(()),
            out@.len() == i,
            forall|k: int|
                0 <= k < i ==> #[trigger] trade_of_record(out@[k], all[k], market_type, sym@, pair@),
        decreases n - i,
    {
        let rec = recs.remove(0);
        match trade_from(rec, market_type, sym.as_str(), pair.as_str()) {
            Ok(t) => {
                out.push(t);
            },
            Err(e) => {
                proof {
                    assert(records_check(all, i as int + 1) == Err::<(), ParseError>(e));
                    lemma_check_error_stays(all, i as int + 1, n as int);
                    assert(trade_plan(whole, market_type) == Err::<
                        (Seq<Json>, Seq<char>, Seq<char>),
                        ParseError,
                    >(e));
                }
                return Err(e);
            },
        }
        i += 1;
    }
    Ok(out)
}

/// The trades of a message text.
pub fn parse_trade(market_type: MarketType, msg: &str) -> (r: Result<Vec<TradeMsg>, ParseError>)
    ensures
        parsed_trades(r, msg@, market_type),
{
    if market_type != MarketType::LinearSwap {
        return Err(ParseError::UnsupportedMarketType);
    }
    match parse_json(msg) {
        Some(j) => parse_trade_json(market_type, j),
        None => Err(ParseError::MalformedPayload),
    }
}

/// What `parse_trade` returns for a message text.
pub open spec fn parsed_trades(
    r: Result<Vec<TradeMsg>, ParseError>,
    msg: Seq<char>,
    market_type: MarketType,
) -> bool {
        match decoded(msg) {
            Some(j) => trades_of(r, j, market_type),
            None => r == Err::<Vec<TradeMsg>, ParseError>(
                if market_type != MarketType::LinearSwap {
                    ParseError::UnsupportedMarketType
                } else {
                    ParseError::MalformedPayload
                },
            ),
        }
}

/// Two trades carry the same observable content.
pub open spec fn same_trade(a: TradeMsg, b: TradeMsg) -> bool {
    &&& a.exchange@ == b.exchange@
    &&& a.market_type == b.market_type
    &&& a.symbol@ == b.symbol@
    &&& a.pair@ == b.pair@
    &&& a.msg_type == b.msg_type
    &&& a.timestamp == b.timestamp
    &&& a.price == b.price
    &&& a.quantity == b.quantity
    &&& a.volume == b.volume
    &&& a.side == b.side
    &&& a.trade_id@ == b.trade_id@
    &&& a.raw == b.raw
}

/// Parsing is a function of the input: two results that `parse_trade` may
/// return for the same text and market type fail with the same error, or hold
/// the same trades in the same order.
pub proof fn lemma_parse_trade_deterministic(
    msg: Seq<char>,
    market_type: MarketType,
    r1: Result<Vec<TradeMsg>, ParseError>,
    r2: Result<Vec<TradeMsg>, ParseError>,
)
    requires
        parsed_trades(r1, msg, market_type),
        parsed_trades(r2, msg, market_type),
    ensures
        r1 is Err ==> r1 == r2,
        r1 is Ok <==> r2 is Ok,
        r1 is Ok ==> r1->Ok_0@.len() == r2->Ok_0@.len() && forall|i: int|
            0 <= i < r1->Ok_0@.len() ==> #[trigger] same_trade(r1->Ok_0@[i], r2->Ok_0@[i]),
{
    if decoded(msg) is Some {
        let j = decoded(msg)->Some_0;
        match trade_plan(j, market_type) {
        Err(_) => {},
        Ok((recs, sym, pair)) => {
            assert forall|i: int| 0 <= i < r1->Ok_0@.len() implies #[trigger] same_trade(
                r1->Ok_0@[i],
                r2->Ok_0@[i],
            ) by {
                assert(trade_of_record(r1->Ok_0@[i], recs[i], market_type, sym, pair));
                assert(trade_of_record(r2->Ok_0@[i], recs[i], market_type, sym, pair));
            }
        },
        }
    }
}

/// Every pair that a linear swap symbol has is a well-formed `BASE/QUOTE` text.
pub proof fn lemma_pair_well_formed(sym: Seq<char>)
    requires
        linear_pair(sym) is Some,
    ensures
        is_pair_text(linear_pair(sym)->Some_0),
{
    let d = first_of(sym, '-', 0);
    lemma_first_of_bounds(sym, '-', 0);
    lemma_join_is_pair(sym.subrange(0, d), sym.subrange(d + 1, sym.len() as int));
}

} // verus!
