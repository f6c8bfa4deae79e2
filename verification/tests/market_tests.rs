use att_fx::market::{format_price, normalize_price, split_symbol, to_okx_inst_id};

#[test]
fn split_symbol_known_quotes() {
    assert_eq!(split_symbol("solusdt"), ("sol", "usdt"));
    assert_eq!(split_symbol("btcfdusd"), ("btc", "fdusd"));
    assert_eq!(split_symbol("dogeusdc"), ("doge", "usdc"));
    assert_eq!(split_symbol("ethbtc"), ("eth", "btc"));
    assert_eq!(split_symbol("soleth"), ("sol", "eth"));
    assert_eq!(split_symbol("cakebnb"), ("cake", "bnb"));
    assert_eq!(split_symbol("usdttry"), ("usdt", "try"));
    assert_eq!(split_symbol("btceur"), ("btc", "eur"));
}

#[test]
fn split_symbol_without_known_quote() {
    assert_eq!(split_symbol("xyzabc"), ("xyzabc", ""));
    assert_eq!(split_symbol(""), ("", ""));
}

#[test]
fn split_symbol_quote_only_and_order() {
    assert_eq!(split_symbol("usdt"), ("", "usdt"));
    // "usdt" is tried before "btc": a symbol ending in usdt keeps btc in its base.
    assert_eq!(split_symbol("wbtcusdt"), ("wbtc", "usdt"));
}

#[test]
fn split_symbol_rejoins_to_symbol() {
    for s in ["solusdt", "pepeusdt", "abc", "ethbtc", "ab_cd"] {
        let (b, q) = split_symbol(s);
        assert_eq!(format!("{b}{q}"), s);
    }
}

#[test]
fn okx_inst_id_examples() {
    assert_eq!(to_okx_inst_id("solusdt"), "SOL-USDT");
    assert_eq!(to_okx_inst_id("ethbtc"), "ETH-BTC");
    assert_eq!(to_okx_inst_id("btcfdusd"), "BTC-FDUSD");
    assert_eq!(to_okx_inst_id("xyzabc"), "XYZABC");
}

#[test]
fn normalize_price_pads_to_eight_digits() {
    let p = normalize_price("88.17").unwrap();
    assert_eq!(p.mantissa(), 8_817_000_000);
    assert_eq!(p.scale(), 8);
    assert_eq!(format_price(p), "88.17000000");
}

#[test]
fn normalize_price_rounds_ties_to_even() {
    assert_eq!(format_price(normalize_price("1.000000005").unwrap()), "1.00000000");
    assert_eq!(format_price(normalize_price("1.000000015").unwrap()), "1.00000002");
    assert_eq!(format_price(normalize_price("0.123456789").unwrap()), "0.12345679");
    assert_eq!(format_price(normalize_price("0.123456781").unwrap()), "0.12345678");
    assert_eq!(format_price(normalize_price("2.9999999999").unwrap()), "3.00000000");
}

#[test]
fn normalize_price_negative_and_small() {
    assert_eq!(format_price(normalize_price("-2.5").unwrap()), "-2.50000000");
    assert_eq!(format_price(normalize_price("0.000000001").unwrap()), "0.00000000");
    assert_eq!(format_price(normalize_price("-0.000000001").unwrap()), "0.00000000");
    assert_eq!(format_price(normalize_price("0").unwrap()), "0.00000000");
}

#[test]
fn normalize_price_rejects_non_numbers() {
    assert!(normalize_price("abc").is_none());
    assert!(normalize_price("").is_none());
    assert!(normalize_price("1.2.3").is_none());
}

#[test]
fn normalize_price_widens_only_as_far_as_it_fits() {
    let p = normalize_price("79228162514264337593543950335").unwrap();
    assert_eq!(p.scale(), 0);
    assert_eq!(format_price(p), "79228162514264337593543950335");
    let q = normalize_price("792281625142643375935439503").unwrap();
    assert_eq!(q.scale(), 2);
    assert_eq!(format_price(q), "792281625142643375935439503.00");
}

#[test]
fn prices_compare_by_value() {
    assert_eq!(normalize_price("1.5"), normalize_price("1.50"));
    assert_ne!(normalize_price("1.5"), normalize_price("1.51"));
    assert_eq!(normalize_price("1.000000001"), normalize_price("1"));
}

#[test]
fn normalizing_a_formatted_price_is_stable() {
    for s in ["88.17", "0.123456789", "-3.14159265358979", "792281625142643375935439503"] {
        let p = normalize_price(s).unwrap();
        let text = format_price(p);
        let again = normalize_price(&text).unwrap();
        assert_eq!(format_price(again), text);
        assert_eq!(again.scale(), p.scale());
        assert_eq!(again.mantissa(), p.mantissa());
    }
}
