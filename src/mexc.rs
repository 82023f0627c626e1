//! MEXC: symbol and timestamp extraction, and the timestamp requirement of
//! its order-book shapes.
use crate::json::{decoded, field, get, get_int, get_str, int_field, int_value, parse_json, str_field, Json};
use crate::model::{MarketType, ParseError};
use crate::text::str_eq;
use vstd::prelude::*;

verus! {

pub open spec fn symbol_key() -> Seq<char> {
    seq!['s', 'y', 'm', 'b', 'o', 'l']
}

/// The only array-framed channel that carries a timestamp.
pub open spec fn deals_channel() -> Seq<char> {
    seq!['p', 'u', 's', 'h', '.', 's', 'y', 'm', 'b', 'o', 'l']
}

/// The symbol named in a decoded message.
pub open spec fn symbol_of(j: Json) -> Result<Seq<char>, ParseError> {
    match j {
        Json::Array(a) => if a@.len() < 2 {
            Err(ParseError::MalformedPayload)
        } else {
            str_field(a@[1], symbol_key())
        },
        Json::Object(_) => str_field(j, symbol_key()),
        _ => Err(ParseError::MalformedPayload),
    }
}

/// The latest of the first `n` deals' times, `None` for no deal, or the
/// error of the first deal whose time cannot be read.
pub open spec fn latest_of(deals: Seq<Json>, n: int) -> Result<Option<i64>, ParseError>
    decreases n,
{
    if n <= 0 {
        Ok(None)
    } else {
        match latest_of(deals, n - 1) {
            Err(e) => Err(e),
            Ok(m) => match int_field(deals[n - 1], seq!['t']) {
                Err(e) => Err(e),
                Ok(t) => Ok(
                    Some(
                        match m {
                            Some(x) => if x >= t {
                                x
                            } else {
                                t
                            },
                            None => t,
                        },
                    ),
                ),
            },
        }
    }
}

/// The time that a `data` object's deals carry: none without deals, an
/// error for an empty list.
pub open spec fn deals_time(data: Json) -> Result<Option<i64>, ParseError> {
    match field(data, seq!['d', 'e', 'a', 'l', 's']) {
        None => Ok(None),
        Some(Json::Array(d)) => match latest_of(d@, d@.len() as int) {
            Err(e) => Err(e),
            Ok(None) => Err(ParseError::MalformedPayload),
            Ok(Some(t)) => Ok(Some(t)),
        },
        Some(_) => Err(ParseError::MalformedPayload),
    }
}

/// The timestamp carried by a decoded message, `None` where it carries none.
pub open spec fn timestamp_of(j: Json) -> Result<Option<i64>, ParseError> {
    match j {
        Json::Array(a) => if a@.len() < 1 {
            Err(ParseError::MalformedPayload)
        } else {
            match a@[0] {
                Json::Str(ch) => if ch@ != deals_channel() {
                    Err(ParseError::UnknownChannel)
                } else if a@.len() < 2 {
                    Err(ParseError::MalformedPayload)
                } else {
                    match field(a@[1], seq!['d', 'a', 't', 'a']) {
                        None => Err(ParseError::MissingField),
                        Some(Json::Object(fs)) => deals_time(Json::Object(fs)),
                        Some(_) => Err(ParseError::MalformedPayload),
                    }
                },
                _ => Err(ParseError::MalformedPayload),
            }
        },
        Json::Object(_) => match field(j, seq!['t', 's']) {
            Some(t) => match int_value(t) {
                Ok(i) => Ok(Some(i)),
                Err(e) => Err(e),
            },
            None => match field(j, seq!['d', 'a', 't', 'a']) {
                None => Err(ParseError::MissingField),
                Some(d) => deals_time(d),
            },
        },
        _ => Err(ParseError::MalformedPayload),
    }
}

/// The symbol named in a message text.
pub open spec fn symbol_of_text(msg: Seq<char>) -> Result<Seq<char>, ParseError> {
    match decoded(msg) {
        Some(j) => symbol_of(j),
        None => Err(ParseError::MalformedPayload),
    }
}

/// The timestamp carried by a message text.
pub open spec fn timestamp_of_text(msg: Seq<char>) -> Result<Option<i64>, ParseError> {
    match decoded(msg) {
        Some(j) => timestamp_of(j),
        None => Err(ParseError::MalformedPayload),
    }
}

pub open spec fn string_result(r: Result<String, ParseError>) -> Result<Seq<char>, ParseError> {
    match r {
        Ok(s) => Ok(s@),
        Err(e) => Err(e),
    }
}

/// The symbol named in a decoded message.
pub fn symbol_of_json(j: &Json) -> (r: Result<String, ParseError>)
    ensures
        string_result(r) == symbol_of(*j),
{
    proof {
        reveal_strlit("symbol");
        assert("symbol"@ =~= symbol_key());
    }
    match j {
        Json::Array(a) => {
            if a.len() < 2 {
                Err(ParseError::MalformedPayload)
            } else {
                get_str(&a[1], "symbol")
            }
        },
        Json::Object(_) => get_str(j, "symbol"),
        _ => Err(ParseError::MalformedPayload),
    }
}

/// The symbol named in a message text.
pub fn extract_symbol(msg: &str) -> (r: Result<String, ParseError>)
    ensures
        string_result(r) == symbol_of_text(msg@),
{
    match parse_json(msg) {
        Some(j) => symbol_of_json(&j),
        None => Err(ParseError::MalformedPayload),
    }
}

/// The latest time among a list of deals.
fn deals_latest(deals: &Vec<Json>) -> (r: Result<Option<i64>, ParseError>)
    ensures
        r == latest_of(deals@, deals@.len() as int),
{
    proof {
        reveal_strlit("t");
        assert("t"@ =~= seq!['t']);
    }
    let mut latest: Option<i64> = None;
    let mut i: usize = 0;
    while i < deals.len()
        invariant
            i <= deals@.len(),
            "t"@ == seq!['t'],
            latest_of(deals@, i as int) == Ok::<Option<i64>, ParseError>(latest),
        decreases deals@.len() - i,
    {
        let t = match get_int(&deals[i], "t") {
            Ok(t) => t,
            Err(e) => {
                proof {
                    lemma_latest_error_stays(deals@, i as int + 1, deals@.len() as int);
                }
                return Err(e);
            },
        };
        latest = Some(
            match latest {
                Some(x) => if x >= t {
                    x
                } else {
                    t
                },
                None => t,
            },
        );
        i += 1;
    }
    Ok(latest)
}

/// Once a prefix of the deals fails, every longer prefix fails the same way.
proof fn lemma_latest_error_stays(deals: Seq<Json>, i: int, n: int)
    requires
        0 <= i <= n,
        latest_of(deals, i) is Err,
    ensures
        latest_of(deals, n) == latest_of(deals, i),
    decreases n - i,
{
    if i < n {
        lemma_latest_error_stays(deals, i, n - 1);
    }
}

fn deals_time_of(data: &Json) -> (r: Result<Option<i64>, ParseError>)
    ensures
        r == deals_time(*data),
{
    proof {
        reveal_strlit("deals");
        assert("deals"@ =~= seq!['d', 'e', 'a', 'l', 's']);
    }
    match get(data, "deals") {
        None => Ok(None),
        Some(Json::Array(d)) => match deals_latest(d) {
            Err(e) => Err(e),
            Ok(None) => Err(ParseError::MalformedPayload),
            Ok(Some(t)) => Ok(Some(t)),
        },
        Some(_) => Err(ParseError::MalformedPayload),
    }
}

/// The timestamp carried by a decoded message, `None` where it carries none.
pub fn timestamp_of_json(j: &Json) -> (r: Result<Option<i64>, ParseError>)
    ensures
        r == timestamp_of(*j),
{
    proof {
        reveal_strlit("push.symbol");
        reveal_strlit("data");
        reveal_strlit("ts");
        assert("push.symbol"@ =~= deals_channel());
        assert("data"@ =~= seq!['d', 'a', 't', 'a']);
        assert("ts"@ =~= seq!['t', 's']);
    }
    match j {
        Json::Array(a) => {
            if a.len() < 1 {
                return Err(ParseError::MalformedPayload);
            }
            match &a[0] {
                Json::Str(ch) => {
                    if !str_eq(ch.as_str(), "push.symbol") {
                        Err(ParseError::UnknownChannel)
                    } else if a.len() < 2 {
                        Err(ParseError::MalformedPayload)
                    } else {
                        match get(&a[1], "data") {
                            None => Err(ParseError::MissingField),
                            Some(d) => match d {
                                Json::Object(_) => deals_time_of(d),
                                _ => Err(ParseError::MalformedPayload),
                            },
                        }
                    }
                },
                _ => Err(ParseError::MalformedPayload),
            }
        },
        Json::Object(_) => {
            if get(j, "ts").is_some() {
                match get_int(j, "ts") {
                    Ok(i) => Ok(Some(i)),
                    Err(e) => Err(e),
                }
            } else {
                match get(j, "data") {
                    None => Err(ParseError::MissingField),
                    Some(d) => deals_time_of(d),
                }
            }
        },
        _ => Err(ParseError::MalformedPayload),
    }
}

/// The timestamp carried by a message text, `None` where it carries none.
pub fn extract_timestamp(msg: &str) -> (r: Result<Option<i64>, ParseError>)
    ensures
        r == timestamp_of_text(msg@),
{
    match parse_json(msg) {
        Some(j) => timestamp_of_json(&j),
        None => Err(ParseError::MalformedPayload),
    }
}

} // verus!

verus! {

/// Where a message shape gets its timestamp.
#[derive(Clone, Copy, Debug, PartialEq, Eq, Structural)]
pub enum TimestampSource {
    /// The payload carries it.
    Embedded,
    /// The caller must supply it.
    ExternallySupplied,
}

/// Spot order-book messages carry no timestamp; those of contracts do.
pub open spec fn l2_source_of(market_type: MarketType) -> TimestampSource {
    if market_type == MarketType::Spot {
        TimestampSource::ExternallySupplied
    } else {
        TimestampSource::Embedded
    }
}

/// Where order-book messages of a market type get their timestamp.
pub fn l2_timestamp_source(market_type: MarketType) -> (r: TimestampSource)
    ensures
        r == l2_source_of(market_type),
{
    if market_type == MarketType::Spot {
        TimestampSource::ExternallySupplied
    } else {
        TimestampSource::Embedded
    }
}

/// The out-of-band timestamp that an order-book message of a market type
/// needs: the supplied one where the shape carries none (an error where none
/// was supplied), and `None` where the payload carries its own.
pub fn l2_timestamp(market_type: MarketType, timestamp: Option<i64>) -> (r: Result<
    Option<i64>,
    ParseError,
>)
    ensures
        l2_source_of(market_type) == TimestampSource::ExternallySupplied ==> r == match timestamp {
            Some(t) => Ok::<Option<i64>, ParseError>(Some(t)),
            None => Err(ParseError::MissingTimestamp),
        },
        l2_source_of(market_type) == TimestampSource::Embedded ==> r == Ok::<
            Option<i64>,
            ParseError,
        >(None),
{
    match l2_timestamp_source(market_type) {
        TimestampSource::ExternallySupplied => match timestamp {
            Some(t) => Ok(Some(t)),
            None => Err(ParseError::MissingTimestamp),
        },
        TimestampSource::Embedded => Ok(None),
    }
}

} // verus!

verus! {

/// Extraction is a function of the input: two results that `extract_symbol`
/// may return for the same text name the same symbol or fail the same way,
/// and likewise for `extract_timestamp`.
pub proof fn lemma_extract_deterministic(
    msg: Seq<char>,
    s1: Result<String, ParseError>,
    s2: Result<String, ParseError>,
    t1: Result<Option<i64>, ParseError>,
    t2: Result<Option<i64>, ParseError>,
)
    requires
        string_result(s1) == symbol_of_text(msg),
        string_result(s2) == symbol_of_text(msg),
        t1 == timestamp_of_text(msg),
        t2 == timestamp_of_text(msg),
    ensures
        string_result(s1) == string_result(s2),
        t1 == t2,
{
}

} // verus!
