//! The Jupiter quote stream: messages carry an order book under `data[0]`
//! with `bids` and `asks` lists of `[price, size]` string pairs; the price
//! is taken from the best ask, else the best bid, preferring a level whose
//! size is not `"0"`.

use crate::decimal::DecimalValue;
use crate::feed::{announces, apply_price, next_reported, report_base, report_text, PriceLine};
use crate::json::{deref_opt, Json};
use crate::market::{normalize_price, parsed_price, price_value, Price};
use crate::text::str_eq;
use vstd::prelude::*;

verus! {

/// The `[price, size]` level at position `index` of a side of the book: the
/// element there must be an array whose first two elements are strings.
pub open spec fn level_at(side: Json, index: int) -> Option<(Seq<char>, Seq<char>)> {
    match side.element(index) {
        Some(level) => if level.is_array() {
            match (level.element(0), level.element(1)) {
                (Some(p), Some(s)) => match (p.text(), s.text()) {
                    (Some(pt), Some(st)) => Some((pt, st)),
                    _ => None,
                },
                _ => None,
            }
        } else {
            None
        },
        None => None,
    }
}

/// The `[price, size]` level at position `index` of a side of the book.
pub fn extract_level(side: &Json, index: usize) -> (r: Option<(&str, &str)>)
    ensures
        match r {
            Some((p, s)) => level_at(*side, index as int) == Some((p@, s@)),
            None => level_at(*side, index as int) is None,
        },
{
    let level = match side.get_index(index) {
        Some(l) => l,
        None => return None,
    };
    match level {
        Json::Array(_) => {},
        _ => return None,
    }
    let price = match level.get_index(0) {
        Some(p) => p,
        None => return None,
    };
    let size = match level.get_index(1) {
        Some(s) => s,
        None => return None,
    };
    match (price.as_str(), size.as_str()) {
        (Some(p), Some(s)) => Some((p, s)),
        _ => None,
    }
}

/// The quoted price text: the best ask when its size is not `"0"`, else the
/// best bid when its size is not `"0"`, else the best ask, else the best bid.
pub open spec fn chosen_price(
    best_bid: Option<(Seq<char>, Seq<char>)>,
    best_ask: Option<(Seq<char>, Seq<char>)>,
) -> Option<Seq<char>> {
    match (best_bid, best_ask) {
        (_, Some((ask_price, ask_size))) if ask_size != "0"@ => Some(ask_price),
        (Some((bid_price, bid_size)), _) if bid_size != "0"@ => Some(bid_price),
        (_, Some((ask_price, _))) => Some(ask_price),
        (Some((bid_price, _)), _) => Some(bid_price),
        _ => None,
    }
}

/// The best level of one side (`bids` or `asks`) of a book.
pub open spec fn best_level(book: Json, side: Seq<char>) -> Option<(Seq<char>, Seq<char>)> {
    match book.member(side) {
        Some(levels) => level_at(levels, 0),
        None => None,
    }
}

/// The price of a Jupiter message, normalised: from the book at `data[0]`.
pub open spec fn jupiter_price(doc: Option<Json>) -> Option<DecimalValue> {
    match doc {
        Some(d) => match d.member("data"@) {
            Some(data) => match data.element(0) {
                Some(book) => match chosen_price(best_level(book, "bids"@), best_level(book, "asks"@)) {
                    Some(t) => parsed_price(t),
                    None => None,
                },
                None => None,
            },
            None => None,
        },
        None => None,
    }
}

/// The best level of one side of a book.
fn side_level<'a>(book: &'a Json, side: &str) -> (r: Option<(&'a str, &'a str)>)
    ensures
        match r {
            Some((p, s)) => best_level(*book, side@) == Some((p@, s@)),
            None => best_level(*book, side@) is None,
        },
{
    match book.get(side) {
        Some(levels) => extract_level(levels, 0),
        None => None,
    }
}

/// The price of a Jupiter message (`doc` is `None` when the message is not
/// JSON).
pub fn extract_price(doc: Option<&Json>) -> (r: Option<Price>)
    ensures
        price_value(r) == jupiter_price(deref_opt(doc)),
{
    let d = match doc {
        Some(d) => d,
        None => return None,
    };
    let data = match d.get("data") {
        Some(x) => x,
        None => return None,
    };
    let book = match data.get_index(0) {
        Some(b) => b,
        None => return None,
    };
    let best_bid = side_level(book, "bids");
    let best_ask = side_level(book, "asks");
    let price = match (best_bid, best_ask) {
        (_, Some((ask_price, ask_size))) if !str_eq(ask_size, "0") => ask_price,
        (Some((bid_price, bid_size)), _) if !str_eq(bid_size, "0") => bid_price,
        (_, Some((ask_price, _))) => ask_price,
        (Some((bid_price, _)), _) => bid_price,
        _ => return None,
    };
    normalize_price(price)
}

/// Handles one Jupiter message: the report line when its price differs from
/// the last reported one, which it then replaces.
pub fn price_update(doc: Option<&Json>, symbol: &str, last_price: &mut Option<Price>) -> (r: Option<PriceLine>)
    ensures
        price_value(*final(last_price)) == next_reported(
            price_value(*old(last_price)),
            jupiter_price(deref_opt(doc)),
        ),
        r is Some <==> announces(price_value(*old(last_price)), jupiter_price(deref_opt(doc))),
        r matches Some(line) ==> line.base@ == report_base(symbol@) && line.text@ == report_text(
            symbol@,
            jupiter_price(deref_opt(doc))->0,
        ),
{
    let price = extract_price(doc);
    apply_price(price, symbol, last_price)
}

/// `level` is a `[price, size]` pair of strings.
pub open spec fn is_level(level: Json, price: Seq<char>, size: Seq<char>) -> bool {
    &&& level.is_array()
    &&& level.element(0) matches Some(p) && p.text() == Some(price)
    &&& level.element(1) matches Some(q) && q.text() == Some(size)
}

/// The price is read from the first ask of the book at `data[0]`: when that
/// level has a size other than `"0"`, its price is the one reported,
/// whatever the bids and the later asks hold.
pub proof fn lemma_first_ask_is_quoted(
    doc: Json,
    data: Json,
    book: Json,
    asks: Json,
    first_ask: Json,
    price: Seq<char>,
    size: Seq<char>,
)
    requires
        doc.member("data"@) == Some(data),
        data.element(0) == Some(book),
        book.member("asks"@) == Some(asks),
        asks.element(0) == Some(first_ask),
        is_level(first_ask, price, size),
        size != "0"@,
    ensures
        jupiter_price(Some(doc)) == parsed_price(price),
{
}

/// When the first ask has size `"0"` (or the book has no asks), the first
/// bid with a size other than `"0"` gives the price, whatever the later bids
/// hold.
pub proof fn lemma_first_bid_is_quoted(
    doc: Json,
    data: Json,
    book: Json,
    bids: Json,
    first_bid: Json,
    price: Seq<char>,
    size: Seq<char>,
)
    requires
        doc.member("data"@) == Some(data),
        data.element(0) == Some(book),
        book.member("bids"@) == Some(bids),
        bids.element(0) == Some(first_bid),
        is_level(first_bid, price, size),
        size != "0"@,
        match book.member("asks"@) {
            None => true,
            Some(asks) => asks.element(0) is None || (asks.element(0) matches Some(a) && exists|
                ap: Seq<char>,
            | is_level(a, ap, "0"@)),
        },
    ensures
        jupiter_price(Some(doc)) == parsed_price(price),
{
}

/// With no usable level on either side there is no price.
pub proof fn lemma_empty_book_has_no_price(doc: Json, data: Json, book: Json)
    requires
        doc.member("data"@) == Some(data),
        data.element(0) == Some(book),
        book.member("asks"@) is None,
        book.member("bids"@) is None,
    ensures
        jupiter_price(Some(doc)) is None,
{
}

} // verus!
