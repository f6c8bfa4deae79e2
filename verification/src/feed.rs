//! What a ticker feed reports: a price line is emitted only when the price
//! differs from the last one reported.

use crate::decimal::{decimal_text, pow10, same_value, DecimalValue};
use crate::market::{
    format_price, normalized_value, price_value, split_symbol, split_symbol_spec, Price,
};
use crate::text::{to_uppercase, uppercase};
use vstd::prelude::*;

verus! {

/// One price report: the base currency in upper case and the price text,
/// followed by a space and the quote currency in upper case when the symbol
/// has one, e.g. `SOL` and `88.17000000 USDT`.
pub struct PriceLine {
    pub base: String,
    pub text: String,
}

/// The base currency of a report on `symbol`.
pub open spec fn report_base(symbol: Seq<char>) -> Seq<char> {
    uppercase(split_symbol_spec(symbol).0)
}

/// The price text of a report on `symbol` at price `v`.
pub open spec fn report_text(symbol: Seq<char>, v: DecimalValue) -> Seq<char> {
    let quote = uppercase(split_symbol_spec(symbol).1);
    let price = decimal_text(normalized_value(v));
    if quote.len() == 0 {
        price
    } else {
        price + " "@ + quote
    }
}

/// The last reported price after a new observation: a price that differs in
/// value from the last one replaces it; anything else leaves it.
pub open spec fn next_reported(last: Option<DecimalValue>, seen: Option<DecimalValue>) -> Option<DecimalValue> {
    if announces(last, seen) {
        seen
    } else {
        last
    }
}

/// A new observation is reported when it is a price and no equal price was
/// reported last.
pub open spec fn announces(last: Option<DecimalValue>, seen: Option<DecimalValue>) -> bool {
    match seen {
        Some(p) => match last {
            Some(q) => !same_value(q, p),
            None => true,
        },
        None => false,
    }
}

/// The report line for `symbol` at `price`.
pub fn price_line(symbol: &str, price: Price) -> (r: PriceLine)
    ensures
        r.base@ == report_base(symbol@),
        r.text@ == report_text(symbol@, price@),
{
    let (base, quote) = split_symbol(symbol);
    let base_upper = to_uppercase(base);
    let quote_upper = to_uppercase(quote);
    let mut text = format_price(price);
    if !quote_upper.as_str().is_empty() {
        text.append(" ");
        text.append(quote_upper.as_str());
    }
    PriceLine { base: base_upper, text }
}

/// Takes a newly observed price (or none): when it differs in value from
/// `last_price`, it becomes the last price and its report line is returned;
/// otherwise nothing changes and nothing is returned.
pub fn apply_price(price: Option<Price>, symbol: &str, last_price: &mut Option<Price>) -> (r: Option<PriceLine>)
    ensures
        price_value(*final(last_price)) == next_reported(price_value(*old(last_price)), price_value(price)),
        r is Some <==> announces(price_value(*old(last_price)), price_value(price)),
        r matches Some(line) ==> line.base@ == report_base(symbol@) && line.text@ == report_text(
            symbol@,
            price_value(price)->0,
        ),
{
    let price = match price {
        Some(p) => p,
        None => return None,
    };
    let unchanged = match last_price {
        Some(q) => *q == price,
        None => false,
    };
    if unchanged {
        return None;
    }
    *last_price = Some(price);
    Some(price_line(symbol, price))
}

/// A price just reported is not reported again: observing the same price
/// twice in a row yields a report at most once.
pub proof fn lemma_no_repeat_report(last: Option<DecimalValue>, seen: DecimalValue)
    ensures
        !announces(next_reported(last, Some(seen)), Some(seen)),
{
}

/// Observing nothing leaves the last reported price as it was.
pub proof fn lemma_nothing_seen_keeps_state(last: Option<DecimalValue>)
    ensures
        next_reported(last, None) == last,
        !announces(last, None),
{
}

/// A new price is reported exactly when its value differs from the last
/// reported one, whether it went up or down, and it then becomes the last
/// reported price; an equal value (however written) changes nothing. The
/// first price seen is always reported.
pub proof fn lemma_report_iff_value_changes(last: DecimalValue, seen: DecimalValue)
    ensures
        announces(Some(last), Some(seen)) <==> last.mantissa * pow10(seen.scale) != seen.mantissa
            * pow10(last.scale),
        last.mantissa * pow10(seen.scale) != seen.mantissa * pow10(last.scale) ==> next_reported(
            Some(last),
            Some(seen),
        ) == Some(seen),
        last.mantissa * pow10(seen.scale) == seen.mantissa * pow10(last.scale) ==> next_reported(
            Some(last),
            Some(seen),
        ) == Some(last),
        seen.mantissa * pow10(last.scale) < last.mantissa * pow10(seen.scale) ==> announces(
            Some(last),
            Some(seen),
        ),
        seen.mantissa * pow10(last.scale) > last.mantissa * pow10(seen.scale) ==> announces(
            Some(last),
            Some(seen),
        ),
        announces(None, Some(seen)),
        next_reported(None, Some(seen)) == Some(seen),
{
}

/// A report's text starts with the normalised price's text; when the
/// upper-cased quote is not empty it follows after one space and ends the
/// text.
pub proof fn lemma_report_text_parts(symbol: Seq<char>, v: DecimalValue)
    ensures
        ({
            let price = decimal_text(normalized_value(v));
            let quote = uppercase(split_symbol_spec(symbol).1);
            let text = report_text(symbol, v);
            &&& text.take(price.len() as int) == price
            &&& quote.len() == 0 ==> text == price
            &&& quote.len() > 0 ==> text.len() == price.len() + 1 + quote.len() && text[price.len() as int]
                == ' ' && text.skip(price.len() + 1int) == quote
        }),
{
    reveal_strlit(" ");
    let price = decimal_text(normalized_value(v));
    let quote = uppercase(split_symbol_spec(symbol).1);
    let text = report_text(symbol, v);
    if quote.len() > 0 {
        assert(text =~= price + seq![' '] + quote);
        assert(text.take(price.len() as int) =~= price);
        assert(text.skip(price.len() + 1int) =~= quote);
    } else {
        assert(text.take(price.len() as int) =~= price);
    }
}

} // verus!
