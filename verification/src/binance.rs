//! The Binance ticker stream: each message carries the last price as the
//! string member `c`.

use crate::feed::{announces, apply_price, next_reported, report_base, report_text, PriceLine};
use crate::json::Json;
use crate::market::{normalize_price, parsed_price, price_value, Price};
use vstd::prelude::*;

verus! {

/// The name of the ticker stream of `symbol`: `<symbol>@ticker`.
pub fn ticker_stream(symbol: &str) -> (r: String)
    ensures
        r@ == symbol@ + "@ticker"@,
{
    let mut stream = String::from_str(symbol);
    stream.append("@ticker");
    stream
}

/// The price a Binance ticker message carries: its string member `c`,
/// normalised. `None` for a message that did not parse, has no such member
/// or does not hold a decimal there.
pub open spec fn binance_price(doc: Option<Json>) -> Option<crate::decimal::DecimalValue> {
    match doc {
        Some(d) => match d.member("c"@) {
            Some(c) => match c.text() {
                Some(t) => parsed_price(t),
                None => None,
            },
            None => None,
        },
        None => None,
    }
}

/// The price of a Binance ticker message (`doc` is `None` when the message
/// is not JSON).
pub fn extract_price(doc: Option<&Json>) -> (r: Option<Price>)
    ensures
        price_value(r) == binance_price(crate::json::deref_opt(doc)),
{
    let d = match doc {
        Some(d) => d,
        None => return None,
    };
    let c = match d.get("c") {
        Some(c) => c,
        None => return None,
    };
    match c.as_str() {
        Some(t) => normalize_price(t),
        None => None,
    }
}

/// Handles one Binance ticker message: the report line when its price
/// differs from the last reported one, which it then replaces.
pub fn price_update(doc: Option<&Json>, symbol: &str, last_price: &mut Option<Price>) -> (r: Option<PriceLine>)
    ensures
        price_value(*final(last_price)) == next_reported(
            price_value(*old(last_price)),
            binance_price(crate::json::deref_opt(doc)),
        ),
        r is Some <==> announces(price_value(*old(last_price)), binance_price(crate::json::deref_opt(doc))),
        r matches Some(line) ==> line.base@ == report_base(symbol@) && line.text@ == report_text(
            symbol@,
            binance_price(crate::json::deref_opt(doc))->0,
        ),
{
    let price = extract_price(doc);
    apply_price(price, symbol, last_price)
}

/// A Binance message's price is its string member `c`, normalised; a
/// message without a string `c` has no price.
pub proof fn lemma_price_is_member_c(doc: Json)
    ensures
        doc.member("c"@) matches Some(Json::Str(t)) ==> binance_price(Some(doc)) == parsed_price(t@),
        !(doc.member("c"@) matches Some(Json::Str(_))) ==> binance_price(Some(doc)) is None,
        binance_price(None) is None,
{
}

} // verus!
