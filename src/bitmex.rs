//! Symbol grammar of BitMEX: pair and market type of a native symbol.
use crate::model::{MarketType, ParseError};
use crate::text::{drop_last, is_pair_text, lemma_join_is_pair, ends_with, has_prefix, has_suffix, owned, starts_with, str_eq, without_last};
use vstd::prelude::*;

verus! {

pub open spec fn usd() -> Seq<char> {
    seq!['U', 'S', 'D']
}

pub open spec fn usdt() -> Seq<char> {
    seq!['U', 'S', 'D', 'T']
}

pub open spec fn eur() -> Seq<char> {
    seq!['E', 'U', 'R']
}

/// The exchange's reserve currency.
pub open spec fn xbt() -> Seq<char> {
    seq!['X', 'B', 'T']
}

pub open spec fn btc() -> Seq<char> {
    seq!['B', 'T', 'C']
}

pub open spec fn is_digit(c: char) -> bool {
    '0' <= c <= '9'
}

/// The last two characters read as a base-10 integer: a digit or a sign, then a digit.
pub open spec fn is_dated(s: Seq<char>) -> bool {
    &&& s.len() >= 2
    &&& is_digit(s[s.len() - 2]) || s[s.len() - 2] == '+' || s[s.len() - 2] == '-'
    &&& is_digit(s[s.len() - 1])
}

/// A symbol long enough for its expiry code, if it has one, to be stripped.
pub open spec fn well_formed_symbol(s: Seq<char>) -> bool {
    s.len() >= 2 && (is_dated(s) ==> s.len() >= 3)
}

/// The symbol without its trailing expiry code (a separator and two digits).
pub open spec fn real_symbol(s: Seq<char>) -> Seq<char> {
    if is_dated(s) {
        drop_last(s, 3)
    } else {
        s
    }
}

/// The market type of a well-formed symbol.
pub open spec fn market_type_of(s: Seq<char>) -> MarketType {
    let r = real_symbol(s);
    let future = is_dated(s);
    if has_suffix(r, usdt()) {
        if future { MarketType::LinearFuture } else { MarketType::LinearSwap }
    } else if has_prefix(r, xbt()) {
        if future { MarketType::InverseFuture } else { MarketType::InverseSwap }
    } else if has_suffix(r, usd()) || has_suffix(r, eur()) {
        if future { MarketType::QuantoFuture } else { MarketType::QuantoSwap }
    } else if future {
        MarketType::LinearFuture
    } else {
        MarketType::LinearSwap
    }
}

/// The common ticker of a currency code.
pub open spec fn currency_alias(c: Seq<char>) -> Seq<char> {
    if c == xbt() {
        btc()
    } else {
        c
    }
}

/// Base and quote of a symbol with its expiry code stripped.
pub open spec fn split_symbol(r: Seq<char>) -> (Seq<char>, Seq<char>) {
    if has_suffix(r, usd()) {
        (drop_last(r, 3), usd())
    } else if has_suffix(r, usdt()) {
        (drop_last(r, 4), usdt())
    } else if has_suffix(r, eur()) {
        (drop_last(r, 3), eur())
    } else if r == xbt() {
        (r, usd())
    } else {
        (r, xbt())
    }
}

/// Symbols that have a pair: well formed, with a non-empty base.
pub open spec fn has_pair(s: Seq<char>) -> bool {
    well_formed_symbol(s) && split_symbol(real_symbol(s)).0.len() > 0
}

/// The canonical `BASE/QUOTE` pair of a symbol.
pub open spec fn pair_of(s: Seq<char>) -> Seq<char> {
    let (base, quote) = split_symbol(real_symbol(s));
    currency_alias(base) + seq!['/'] + currency_alias(quote)
}

/// What `infer` returns, over views.
pub open spec fn inferred(s: Seq<char>) -> Result<(Seq<char>, MarketType), ParseError> {
    if has_pair(s) {
        Ok((pair_of(s), market_type_of(s)))
    } else {
        Err(ParseError::UnknownSymbol)
    }
}

pub open spec fn inferred_view(r: Result<(String, MarketType), ParseError>) -> Result<
    (Seq<char>, MarketType),
    ParseError,
> {
    match r {
        Ok((p, m)) => Ok((p@, m)),
        Err(e) => Err(e),
    }
}

/// Maps the reserve currency to its common ticker.
pub fn normalize_currency(currency: &str) -> (r: String)
    ensures
        r@ == currency_alias(currency@),
{
    proof {
        reveal_strlit("XBT");
        reveal_strlit("BTC");
        assert("XBT"@ =~= xbt());
    }
    if str_eq(currency, "XBT") {
        assert("BTC"@ =~= btc());
        owned("BTC")
    } else {
        assert(currency@ == xbt() ==> currency@ =~= "XBT"@);
        owned(currency)
    }
}

/// Whether the last two characters of `s` read as a base-10 integer.
fn dated(s: &str) -> (r: bool)
    ensures
        r == is_dated(s@),
{
    let n = s.unicode_len();
    if n < 2 {
        return false;
    }
    let a = s.get_char(n - 2);
    let b = s.get_char(n - 1);
    (('0' <= a && a <= '9') || a == '+' || a == '-') && '0' <= b && b <= '9'
}

/// The symbol without its expiry code, and whether it had one.
fn strip_expiry(symbol: &str) -> (r: Option<(&str, bool)>)
    ensures
        r is Some <==> well_formed_symbol(symbol@),
        r matches Some((bare, future)) ==> bare@ == real_symbol(symbol@) && future == is_dated(
            symbol@,
        ),
{
    let n = symbol.unicode_len();
    if n < 2 {
        return None;
    }
    if dated(symbol) {
        if n < 3 {
            None
        } else {
            Some((without_last(symbol, 3), true))
        }
    } else {
        Some((symbol, false))
    }
}

/// The canonical `BASE/QUOTE` pair of a symbol, or `None` outside the grammar.
pub fn normalize_pair(symbol: &str) -> (r: Option<String>)
    ensures
        r is Some <==> has_pair(symbol@),
        r matches Some(p) ==> p@ == pair_of(symbol@),
{
    proof {
        reveal_strlit("USD");
        reveal_strlit("USDT");
        reveal_strlit("EUR");
        reveal_strlit("XBT");
        assert("USD"@ =~= usd());
        assert("USDT"@ =~= usdt());
        assert("EUR"@ =~= eur());
        assert("XBT"@ =~= xbt());
    }
    let bare = match strip_expiry(symbol) {
        Some((bare, _)) => bare,
        None => return None,
    };
    let (base, quote): (&str, &str) = if ends_with(bare, "USD") {
        (without_last(bare, 3), "USD")
    } else if ends_with(bare, "USDT") {
        (without_last(bare, 4), "USDT")
    } else if ends_with(bare, "EUR") {
        (without_last(bare, 3), "EUR")
    } else if str_eq(bare, "XBT") {
        (bare, "USD")
    } else {
        (bare, "XBT")
    };
    assert(base@ == split_symbol(bare@).0);
    assert(quote@ == split_symbol(bare@).1);
    if base.unicode_len() == 0 {
        return None;
    }
    let mut pair = normalize_currency(base);
    pair.append("/");
    let q = normalize_currency(quote);
    pair.append(q.as_str());
    proof {
        reveal_strlit("/");
        assert(pair@ =~= pair_of(symbol@));
    }
    Some(pair)
}

/// The market type of a symbol, or `None` outside the grammar.
pub fn get_market_type(symbol: &str) -> (r: Option<MarketType>)
    ensures
        r is Some <==> well_formed_symbol(symbol@),
        r matches Some(m) ==> m == market_type_of(symbol@),
{
    proof {
        reveal_strlit("USD");
        reveal_strlit("USDT");
        reveal_strlit("EUR");
        reveal_strlit("XBT");
        assert("USD"@ =~= usd());
        assert("USDT"@ =~= usdt());
        assert("EUR"@ =~= eur());
        assert("XBT"@ =~= xbt());
    }
    let (bare, future) = match strip_expiry(symbol) {
        Some(x) => x,
        None => return None,
    };
    let m = if ends_with(bare, "USDT") {
        if future { MarketType::LinearFuture } else { MarketType::LinearSwap }
    } else if starts_with(bare, "XBT") {
        if future { MarketType::InverseFuture } else { MarketType::InverseSwap }
    } else if ends_with(bare, "USD") || ends_with(bare, "EUR") {
        if future { MarketType::QuantoFuture } else { MarketType::QuantoSwap }
    } else if future {
        MarketType::LinearFuture
    } else {
        MarketType::LinearSwap
    };
    Some(m)
}

/// The pair and market type of a BitMEX symbol.
pub fn infer(symbol: &str) -> (r: Result<(String, MarketType), ParseError>)
    ensures
        inferred_view(r) == inferred(symbol@),
{
    match (normalize_pair(symbol), get_market_type(symbol)) {
        (Some(pair), Some(m)) => Ok((pair, m)),
        _ => Err(ParseError::UnknownSymbol),
    }
}

/// Inference is a function of the symbol: two results that `infer` may
/// return for the same symbol are the same pair and market type.
pub proof fn lemma_infer_deterministic(
    symbol: Seq<char>,
    r1: Result<(String, MarketType), ParseError>,
    r2: Result<(String, MarketType), ParseError>,
)
    requires
        inferred_view(r1) == inferred(symbol),
        inferred_view(r2) == inferred(symbol),
    ensures
        inferred_view(r1) == inferred_view(r2),
{
}

/// Every pair that a symbol has is a well-formed `BASE/QUOTE` text.
pub proof fn lemma_pair_well_formed(symbol: Seq<char>)
    requires
        has_pair(symbol),
    ensures
        is_pair_text(pair_of(symbol)),
{
    let (base, quote) = split_symbol(real_symbol(symbol));
    assert(currency_alias(base).len() > 0);
    assert(quote.len() > 0);
    assert(currency_alias(quote).len() > 0);
    lemma_join_is_pair(currency_alias(base), currency_alias(quote));
}

} // verus!
