use att_fx::binance;
use att_fx::feed::{apply_price, price_line};
use att_fx::huobi::{self, HuobiAction};
use att_fx::json::Json;
use att_fx::jupiter;
use att_fx::market::{normalize_price, Price};

fn s(t: &str) -> String {
    t.to_string()
}

fn obj(fields: Vec<(&str, Json)>) -> Json {
    Json::Object(fields.into_iter().map(|(k, v)| (k.to_string(), v)).collect())
}

fn binance_msg(price: &str) -> Json {
    obj(vec![("e", Json::Str(s("24hrTicker"))), ("c", Json::Str(s(price)))])
}

#[test]
fn price_line_with_and_without_quote() {
    let p = normalize_price("88.17").unwrap();
    let line = price_line("solusdt", p);
    assert_eq!(line.base, "SOL");
    assert_eq!(line.text, "88.17000000 USDT");
    let line = price_line("xyzabc", p);
    assert_eq!(line.base, "XYZABC");
    assert_eq!(line.text, "88.17000000");
}

#[test]
fn readme_output_examples() {
    let line = price_line("solusdt", normalize_price("88.17").unwrap());
    assert_eq!((line.base.as_str(), line.text.as_str()), ("SOL", "88.17000000 USDT"));
    let line = price_line("dogeusdt", normalize_price("0.18456").unwrap());
    assert_eq!((line.base.as_str(), line.text.as_str()), ("DOGE", "0.18456000 USDT"));
}

#[test]
fn binance_stream_name() {
    assert_eq!(binance::ticker_stream("solusdt"), "solusdt@ticker");
}

#[test]
fn binance_reports_only_changes() {
    let mut last: Option<Price> = None;
    let first = binance_msg("88.17");
    let line = binance::price_update(Some(&first), "solusdt", &mut last).unwrap();
    assert_eq!(line.base, "SOL");
    assert_eq!(line.text, "88.17000000 USDT");
    assert_eq!(last, normalize_price("88.17"));
    // the same price again, written differently, is not reported
    let same = binance_msg("88.170");
    assert!(binance::price_update(Some(&same), "solusdt", &mut last).is_none());
    let next = binance_msg("88.18");
    let line = binance::price_update(Some(&next), "solusdt", &mut last).unwrap();
    assert_eq!(line.text, "88.18000000 USDT");
    assert_eq!(last, normalize_price("88.18"));
}

#[test]
fn binance_ignores_messages_without_price() {
    let mut last = normalize_price("1");
    let no_c = obj(vec![("result", Json::Null)]);
    assert!(binance::price_update(Some(&no_c), "solusdt", &mut last).is_none());
    let number_c = obj(vec![("c", Json::Number(s("88.17")))]);
    assert!(binance::price_update(Some(&number_c), "solusdt", &mut last).is_none());
    let bad_c = binance_msg("n/a");
    assert!(binance::price_update(Some(&bad_c), "solusdt", &mut last).is_none());
    assert!(binance::price_update(None, "solusdt", &mut last).is_none());
    assert_eq!(last, normalize_price("1"));
}

#[test]
fn apply_price_without_price_keeps_state() {
    let mut last = normalize_price("2");
    assert!(apply_price(None, "solusdt", &mut last).is_none());
    assert_eq!(last, normalize_price("2"));
}

#[test]
fn huobi_topic_name() {
    assert_eq!(huobi::to_huobi_topic("solusdt"), "market.solusdt.ticker");
}

fn huobi_tick(close: Json) -> Json {
    obj(vec![("ch", Json::Str(s("market.solusdt.ticker"))), ("tick", obj(vec![("close", close)]))])
}

#[test]
fn huobi_close_as_number_or_string() {
    let num = huobi_tick(Json::Number(s("88.17")));
    assert_eq!(huobi::extract_price(Some(&num), Some(s("88.17"))), normalize_price("88.17"));
    assert!(huobi::extract_price(Some(&num), None).is_none());
    let text = huobi_tick(Json::Str(s("90.5")));
    assert_eq!(huobi::extract_price(Some(&text), None), normalize_price("90.5"));
    let other = huobi_tick(Json::Bool(true));
    assert!(huobi::extract_price(Some(&other), Some(s("1"))).is_none());
}

#[test]
fn huobi_ping_gets_pong() {
    let mut last: Option<Price> = None;
    let ping = obj(vec![("ping", Json::Number(s("1700000000000")))]);
    match huobi::handle_payload(Some(&ping), None, "solusdt", &mut last) {
        HuobiAction::Pong(Json::Number(n)) => assert_eq!(n, "1700000000000"),
        _ => panic!("expected a pong"),
    }
    assert!(last.is_none());
    assert!(matches!(huobi::handle_payload(None, None, "solusdt", &mut last), HuobiAction::Ignore));
}

#[test]
fn huobi_ticker_is_reported_once() {
    let mut last: Option<Price> = None;
    let msg = huobi_tick(Json::Str(s("88.17")));
    match huobi::handle_payload(Some(&msg), None, "solusdt", &mut last) {
        HuobiAction::Report(Some(line)) => {
            assert_eq!(line.base, "SOL");
            assert_eq!(line.text, "88.17000000 USDT");
        },
        _ => panic!("expected a report"),
    }
    assert!(matches!(
        huobi::handle_payload(Some(&msg), None, "solusdt", &mut last),
        HuobiAction::Report(None)
    ));
}

fn level(price: &str, size: &str) -> Json {
    Json::Array(vec![Json::Str(s(price)), Json::Str(s(size))])
}

fn book(bids: Vec<Json>, asks: Vec<Json>) -> Json {
    obj(vec![(
        "data",
        Json::Array(vec![obj(vec![("asks", Json::Array(asks)), ("bids", Json::Array(bids))])]),
    )])
}

#[test]
fn jupiter_extract_level() {
    let side = Json::Array(vec![level("1.5", "2"), level("1.4", "3")]);
    assert_eq!(jupiter::extract_level(&side, 0), Some(("1.5", "2")));
    assert_eq!(jupiter::extract_level(&side, 1), Some(("1.4", "3")));
    assert_eq!(jupiter::extract_level(&side, 2), None);
    let bad = Json::Array(vec![Json::Array(vec![Json::Str(s("1.5"))])]);
    assert_eq!(jupiter::extract_level(&bad, 0), None);
    let not_array = Json::Array(vec![Json::Str(s("1.5"))]);
    assert_eq!(jupiter::extract_level(&not_array, 0), None);
}

#[test]
fn jupiter_prefers_ask_with_size() {
    let b = book(vec![level("99", "1")], vec![level("101", "2")]);
    assert_eq!(jupiter::extract_price(Some(&b)), normalize_price("101"));
    let b = book(vec![level("99", "1")], vec![level("101", "0")]);
    assert_eq!(jupiter::extract_price(Some(&b)), normalize_price("99"));
    let b = book(vec![level("99", "0")], vec![level("101", "0")]);
    assert_eq!(jupiter::extract_price(Some(&b)), normalize_price("101"));
    let b = book(vec![level("99", "0")], vec![]);
    assert_eq!(jupiter::extract_price(Some(&b)), normalize_price("99"));
    let b = book(vec![], vec![]);
    assert!(jupiter::extract_price(Some(&b)).is_none());
    assert!(jupiter::extract_price(None).is_none());
}

#[test]
fn jupiter_reports_changes() {
    let mut last: Option<Price> = None;
    let b = book(vec![level("99", "1")], vec![level("101", "2")]);
    let line = jupiter::price_update(Some(&b), "solusdt", &mut last).unwrap();
    assert_eq!(line.text, "101.00000000 USDT");
    assert!(jupiter::price_update(Some(&b), "solusdt", &mut last).is_none());
}
