//! The Huobi market stream: ticker messages carry the price at `tick.close`
//! (a number or a string); the server also sends `ping` messages that must
//! be answered with a `pong` carrying the same value.

use crate::decimal::DecimalValue;
use crate::feed::{announces, apply_price, next_reported, report_base, report_text, PriceLine};
use crate::json::{deref_opt, Json};
use crate::market::{normalize_price, parsed_price, price_value, Price};
use vstd::prelude::*;

verus! {

/// The topic name of the ticker of `symbol`: `market.<symbol>.ticker`.
pub fn to_huobi_topic(symbol: &str) -> (r: String)
    ensures
        r@ == "market."@ + symbol@ + ".ticker"@,
{
    let mut topic = String::from_str("market.");
    topic.append(symbol);
    topic.append(".ticker");
    topic
}

/// The text of the closing price of a Huobi ticker message: for a number at
/// `tick.close`, `number_text`, the text the caller made of that number; for
/// a string there, the string itself; else `None`.
pub open spec fn huobi_close_text(doc: Option<Json>, number_text: Option<Seq<char>>) -> Option<Seq<char>> {
    match doc {
        Some(d) => match d.member("tick"@) {
            Some(tick) => match tick.member("close"@) {
                Some(Json::Number(_)) => number_text,
                Some(Json::Str(s)) => Some(s@),
                _ => None,
            },
            None => None,
        },
        None => None,
    }
}

/// The price of a Huobi ticker message, normalised.
pub open spec fn huobi_price(doc: Option<Json>, number_text: Option<Seq<char>>) -> Option<DecimalValue> {
    match huobi_close_text(doc, number_text) {
        Some(t) => parsed_price(t),
        None => None,
    }
}

/// The text views of an optional string.
pub open spec fn opt_text(s: Option<String>) -> Option<Seq<char>> {
    match s {
        Some(t) => Some(t@),
        None => None,
    }
}

/// The price of a Huobi ticker message (`doc` is `None` when the message is
/// not JSON). `close_number_text` is the decimal text of `tick.close` when
/// that member is a number; the message's own text is used when it is a
/// string.
pub fn extract_price(doc: Option<&Json>, close_number_text: Option<String>) -> (r: Option<Price>)
    ensures
        price_value(r) == huobi_price(deref_opt(doc), opt_text(close_number_text)),
{
    let d = match doc {
        Some(d) => d,
        None => return None,
    };
    let tick = match d.get("tick") {
        Some(t) => t,
        None => return None,
    };
    match tick.get("close") {
        Some(Json::Number(_)) => match close_number_text {
            Some(t) => normalize_price(t.as_str()),
            None => None,
        },
        Some(Json::Str(s)) => normalize_price(s.as_str()),
        _ => None,
    }
}

/// Handles one Huobi ticker message: the report line when its price differs
/// from the last reported one, which it then replaces.
pub fn price_update(
    doc: Option<&Json>,
    close_number_text: Option<String>,
    symbol: &str,
    last_price: &mut Option<Price>,
) -> (r: Option<PriceLine>)
    ensures
        price_value(*final(last_price)) == next_reported(
            price_value(*old(last_price)),
            huobi_price(deref_opt(doc), opt_text(close_number_text)),
        ),
        r is Some <==> announces(
            price_value(*old(last_price)),
            huobi_price(deref_opt(doc), opt_text(close_number_text)),
        ),
        r matches Some(line) ==> line.base@ == report_base(symbol@) && line.text@ == report_text(
            symbol@,
            huobi_price(deref_opt(doc), opt_text(close_number_text))->0,
        ),
{
    let price = extract_price(doc, close_number_text);
    apply_price(price, symbol, last_price)
}

/// What to do with a Huobi message.
pub enum HuobiAction<'a> {
    /// The message is not JSON: nothing to do.
    Ignore,
    /// A keep-alive: answer with `{"pong": <value>}`.
    Pong(&'a Json),
    /// A market message, with the report line when the price changed.
    Report(Option<PriceLine>),
}

/// Decides how to handle one Huobi message: a message with a `ping` member
/// is answered with a pong carrying that value, and reports nothing; any
/// other JSON message goes through the price update.
pub fn handle_payload<'a>(
    doc: Option<&'a Json>,
    close_number_text: Option<String>,
    symbol: &str,
    last_price: &mut Option<Price>,
) -> (r: HuobiAction<'a>)
    ensures
        match doc {
            None => r is Ignore && *final(last_price) == *old(last_price),
            Some(d) => match d.member("ping"@) {
                Some(ping) => {
                    &&& r matches HuobiAction::Pong(v) && *v == ping
                    &&& *final(last_price) == *old(last_price)
                },
                None => {
                    &&& price_value(*final(last_price)) == next_reported(
                        price_value(*old(last_price)),
                        huobi_price(Some(*d), opt_text(close_number_text)),
                    )
                    &&& r matches HuobiAction::Report(line)
                    &&& (line is Some <==> announces(
                        price_value(*old(last_price)),
                        huobi_price(Some(*d), opt_text(close_number_text)),
                    ))
                    &&& (line matches Some(l) ==> l.base@ == report_base(symbol@) && l.text@
                        == report_text(symbol@, huobi_price(Some(*d), opt_text(close_number_text))->0))
                },
            },
        },
{
    let d = match doc {
        Some(d) => d,
        None => return HuobiAction::Ignore,
    };
    if let Some(ping) = d.get("ping") {
        return HuobiAction::Pong(ping);
    }
    HuobiAction::Report(price_update(doc, close_number_text, symbol, last_price))
}

/// A Huobi message's price is read at `tick.close`: a string there is
/// parsed as it stands, a number through its caller-supplied text; anything
/// else, or no `tick.close`, gives no price.
pub proof fn lemma_price_is_tick_close(doc: Json, number_text: Option<Seq<char>>)
    ensures
        match doc.member("tick"@) {
            Some(tick) => match tick.member("close"@) {
                Some(Json::Str(t)) => huobi_price(Some(doc), number_text) == parsed_price(t@),
                Some(Json::Number(_)) => huobi_price(Some(doc), number_text) == match number_text {
                    Some(t) => parsed_price(t),
                    None => None,
                },
                _ => huobi_price(Some(doc), number_text) is None,
            },
            None => huobi_price(Some(doc), number_text) is None,
        },
{
}

} // verus!
