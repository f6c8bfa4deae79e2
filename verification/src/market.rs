//! Trading-pair symbols and exact price values.

use crate::decimal::{
    abs, decimal_eq, decimal_from_str, decimal_parse, decimal_rescale_up, decimal_round_dp,
    decimal_text, decimal_to_string, dv, is_valid_decimal, pow10, rescale_up_value,
    round_dp_value, same_value, widen_magnitude, DecimalValue, MAX_MANTISSA, MAX_SCALE,
};
use crate::text::{ends_with, str_ends_with, to_uppercase, uppercase};
use vstd::prelude::*;

verus! {

/// The quote currencies a symbol may end with, in the order they are tried.
pub open spec fn known_quotes() -> Seq<Seq<char>> {
    seq!["usdt"@, "fdusd"@, "usdc"@, "btc"@, "eth"@, "bnb"@, "try"@, "eur"@]
}

/// The known quote at position `i` of `known_quotes()`.
fn known_quote(i: usize) -> (q: &'static str)
    requires
        i < 8,
    ensures
        q@ == known_quotes()[i as int],
{
    match i {
        0 => "usdt",
        1 => "fdusd",
        2 => "usdc",
        3 => "btc",
        4 => "eth",
        5 => "bnb",
        6 => "try",
        _ => "eur",
    }
}

/// The position of the first known quote, from position `i` on, that ends
/// `symbol`.
pub open spec fn first_quote_from(symbol: Seq<char>, i: nat) -> Option<nat>
    decreases 8 - i,
{
    if i >= 8 {
        None
    } else if ends_with(symbol, known_quotes()[i as int]) {
        Some(i)
    } else {
        first_quote_from(symbol, i + 1)
    }
}

/// The position of the first known quote that ends `symbol`.
pub open spec fn first_quote(symbol: Seq<char>) -> Option<nat> {
    first_quote_from(symbol, 0)
}

/// A symbol split into base and quote: the quote is the first known quote
/// that ends the symbol, the base what precedes it; with no such quote the
/// base is the whole symbol and the quote is empty.
pub open spec fn split_symbol_spec(symbol: Seq<char>) -> (Seq<char>, Seq<char>) {
    match first_quote(symbol) {
        Some(i) => {
            let q = known_quotes()[i as int];
            (symbol.take(symbol.len() - q.len()), q)
        },
        None => (symbol, Seq::empty()),
    }
}

/// The instrument id of a symbol on OKX: `BASE-QUOTE` in upper case when a
/// known quote ends the symbol, else the upper-cased symbol.
pub open spec fn okx_inst_id_spec(symbol: Seq<char>) -> Seq<char> {
    match first_quote(symbol) {
        Some(i) => {
            let (base, quote) = split_symbol_spec(symbol);
            uppercase(base) + "-"@ + uppercase(quote)
        },
        None => uppercase(symbol),
    }
}

proof fn lemma_first_quote_from(symbol: Seq<char>, i: nat)
    requires
        i <= 8,
    ensures
        first_quote_from(symbol, i) matches Some(k) ==> i <= k < 8 && ends_with(
            symbol,
            known_quotes()[k as int],
        ) && (forall|j: nat| i <= j < k ==> !ends_with(symbol, #[trigger] known_quotes()[j as int])),
        first_quote_from(symbol, i) is None ==> (forall|j: nat|
            i <= j < 8 ==> !ends_with(symbol, #[trigger] known_quotes()[j as int])),
    decreases 8 - i,
{
    if i < 8 {
        lemma_first_quote_from(symbol, i + 1);
    }
}

/// The position of the first known quote that ends `symbol`, if any.
fn find_quote(symbol: &str) -> (r: Option<usize>)
    ensures
        r matches Some(i) ==> first_quote(symbol@) == Some(i as nat),
        r is None ==> first_quote(symbol@) is None,
{
    let mut i: usize = 0;
    while i < 8
        invariant
            i <= 8,
            first_quote(symbol@) == first_quote_from(symbol@, i as nat),
        decreases 8 - i,
    {
        if str_ends_with(symbol, known_quote(i)) {
            return Some(i);
        }
        i += 1;
    }
    None
}

/// Splits a lower-case trading-pair symbol such as `solusdt` into its base
/// (`sol`) and quote (`usdt`) currencies. Known quotes are tried in the
/// order `usdt, fdusd, usdc, btc, eth, bnb, try, eur`; the first that ends
/// the symbol is taken. When none does, the whole symbol is the base and the
/// quote is empty.
pub fn split_symbol(symbol: &str) -> (r: (&str, &str))
    ensures
        (r.0@, r.1@) == split_symbol_spec(symbol@),
        r.0@ + r.1@ == symbol@,
        r.1@.len() == 0 || known_quotes().contains(r.1@),
        first_quote(symbol@) is None ==> r.1@.len() == 0 && r.0@ == symbol@,
{
    proof {
        lemma_first_quote_from(symbol@, 0);
    }
    match find_quote(symbol) {
        Some(i) => {
            let quote = known_quote(i);
            let n = symbol.unicode_len();
            let m = quote.unicode_len();
            let base = symbol.substring_char(0, n - m);
            assert(base@ + quote@ =~= symbol@);
            (base, quote)
        },
        None => {
            proof {
                reveal_strlit("");
            }
            assert(symbol@ + ""@ =~= symbol@);
            (symbol, "")
        },
    }
}

/// Converts a symbol to an OKX instrument id: `solusdt` becomes `SOL-USDT`.
/// A symbol that no known quote ends is upper-cased as a whole.
pub fn to_okx_inst_id(symbol: &str) -> (r: String)
    ensures
        r@ == okx_inst_id_spec(symbol@),
{
    match find_quote(symbol) {
        Some(_) => {
            let (base, quote) = split_symbol(symbol);
            let mut id = to_uppercase(base);
            id.append("-");
            let quote_upper = to_uppercase(quote);
            id.append(quote_upper.as_str());
            id
        },
        None => to_uppercase(symbol),
    }
}

/// Number of fractional digits prices are normalised to.
pub const PRICE_SCALE: u32 = 8u32;

/// A price, held exactly as a decimal: `mantissa / 10^scale`, with the
/// bounds of `rust_decimal` (a mantissa below 2^96 in magnitude, a scale of
/// at most 28).
#[derive(Clone, Copy, Debug)]
pub struct Price {
    mantissa: i128,
    scale: u32,
}

impl Price {
    #[verifier::type_invariant]
    spec fn inv(self) -> bool {
        is_valid_decimal(dv(self.mantissa as int, self.scale as nat))
    }

    /// The mantissa: the value times `10^scale`.
    pub fn mantissa(&self) -> (r: i128)
        ensures
            r as int == self@.mantissa,
            is_valid_decimal(self@),
    {
        proof {
            use_type_invariant(self);
        }
        self.mantissa
    }

    /// The number of fractional digits.
    pub fn scale(&self) -> (r: u32)
        ensures
            r as nat == self@.scale,
            is_valid_decimal(self@),
    {
        proof {
            use_type_invariant(self);
        }
        self.scale
    }
}

impl View for Price {
    type V = DecimalValue;

    closed spec fn view(&self) -> DecimalValue {
        dv(self.mantissa as int, self.scale as nat)
    }
}

impl PartialEq for Price {
    fn eq(&self, other: &Price) -> (r: bool) {
        proof {
            use_type_invariant(self);
            use_type_invariant(other);
        }
        decimal_eq(self.mantissa, self.scale, other.mantissa, other.scale)
    }
}

impl vstd::std_specs::cmp::PartialEqSpecImpl for Price {
    open spec fn obeys_eq_spec() -> bool {
        true
    }

    open spec fn eq_spec(&self, other: &Price) -> bool {
        same_value(self@, other@)
    }
}

/// A decimal rounded to `PRICE_SCALE` fractional digits (ties to even) and
/// then widened to that many digits where the mantissa can hold them.
pub open spec fn normalized_value(v: DecimalValue) -> DecimalValue {
    rescale_up_value(round_dp_value(v, PRICE_SCALE as nat), PRICE_SCALE as nat)
}

proof fn lemma_pow10_ge_10(n: nat)
    requires
        n >= 1,
    ensures
        pow10(n) >= 10,
    decreases n,
{
    assert(pow10(0) == 1);
    if n > 1 {
        lemma_pow10_ge_10((n - 1) as nat);
    }
}

/// Rounding keeps a decimal representable and brings its scale to at most
/// the number of digits asked for.
proof fn lemma_round_dp_valid(v: DecimalValue, dp: nat)
    requires
        is_valid_decimal(v),
    ensures
        is_valid_decimal(round_dp_value(v, dp)),
        round_dp_value(v, dp).scale <= dp || round_dp_value(v, dp) == v,
        v.scale > dp ==> round_dp_value(v, dp).scale == dp,
{
    if v.scale > dp {
        let f = pow10((v.scale - dp) as nat);
        lemma_pow10_ge_10((v.scale - dp) as nat);
        let mag = abs(v.mantissa);
        vstd::arithmetic::div_mod::lemma_div_is_ordered_by_denominator(mag as int, 10, f as int);
        assert(mag / f <= mag / 10);
    }
}

/// Widening keeps the magnitude representable and multiplies it by ten once
/// per step taken.
proof fn lemma_widen_magnitude(mag: nat, steps: nat)
    requires
        mag <= MAX_MANTISSA as int,
    ensures
        widen_magnitude(mag, steps).0 <= MAX_MANTISSA as int,
        widen_magnitude(mag, steps).1 <= steps,
        widen_magnitude(mag, steps).0 == mag * pow10(widen_magnitude(mag, steps).1),
    decreases steps,
{
    if steps == 0 || mag * 10 > MAX_MANTISSA as int {
        assert(pow10(0) == 1);
        assert(mag * pow10(0) == mag) by (nonlinear_arith)
            requires
                pow10(0) == 1,
        ;
    } else {
        lemma_widen_magnitude(mag * 10, (steps - 1) as nat);
        let (m, k) = widen_magnitude(mag * 10, (steps - 1) as nat);
        assert(pow10(k + 1) == 10 * pow10(k));
        assert(m == mag * pow10(k + 1)) by (nonlinear_arith)
            requires
                pow10(k + 1) == 10 * pow10(k),
                m == (mag * 10) * pow10(k),
        ;
    }
}

/// Widening towards a target scale keeps a decimal representable and its
/// scale within the target.
proof fn lemma_rescale_up_valid(v: DecimalValue, target: nat)
    requires
        is_valid_decimal(v),
        v.scale <= target <= MAX_SCALE as nat,
    ensures
        is_valid_decimal(rescale_up_value(v, target)),
        rescale_up_value(v, target).scale <= target,
{
    if target > v.scale {
        lemma_widen_magnitude(abs(v.mantissa), (target - v.scale) as nat);
    }
}

/// The value of a price text: what `Decimal::from_str` makes of it,
/// normalised; `None` when the text is not a decimal.
pub open spec fn parsed_price(text: Seq<char>) -> Option<DecimalValue> {
    match decimal_parse(text) {
        Some(p) => Some(normalized_value(dv(p.0 as int, p.1 as nat))),
        None => None,
    }
}

/// The value of an optional price.
pub open spec fn price_value(p: Option<Price>) -> Option<DecimalValue> {
    match p {
        Some(q) => Some(q@),
        None => None,
    }
}

/// The normalised price of the decimal `mantissa / 10^scale` (as
/// `Decimal::from_str` yields it): rounded to `PRICE_SCALE` digits, ties to
/// even, then widened to `PRICE_SCALE` digits where the mantissa can hold
/// them.
pub fn normalize_parts(mantissa: i128, scale: u32) -> (r: Price)
    requires
        is_valid_decimal(dv(mantissa as int, scale as nat)),
    ensures
        r@ == normalized_value(dv(mantissa as int, scale as nat)),
{
    proof {
        lemma_round_dp_valid(dv(mantissa as int, scale as nat), PRICE_SCALE as nat);
    }
    let (m1, s1) = decimal_round_dp(mantissa, scale, PRICE_SCALE);
    proof {
        lemma_rescale_up_valid(dv(m1 as int, s1 as nat), PRICE_SCALE as nat);
    }
    let (m2, s2) = decimal_rescale_up(m1, s1, PRICE_SCALE);
    Price { mantissa: m2, scale: s2 }
}

/// Parses a price text as `rust_decimal` does and normalises it: rounded to
/// 8 fractional digits (ties to even), then widened to exactly 8 digits
/// where the mantissa can hold them. `None` when the text is not a decimal.
pub fn normalize_price(price: &str) -> (r: Option<Price>)
    ensures
        price_value(r) == parsed_price(price@),
{
    match decimal_from_str(price) {
        Some((m, s)) => Some(normalize_parts(m, s)),
        None => None,
    }
}

/// The text of a price after normalising it to 8 fractional digits, e.g.
/// `88.17000000`.
pub fn format_price(price: Price) -> (r: String)
    ensures
        r@ == decimal_text(normalized_value(price@)),
{
    let p = normalize_parts(price.mantissa(), price.scale());
    proof {
        use_type_invariant(&p);
    }
    decimal_to_string(p.mantissa, p.scale)
}

/// When widening stops before using all its steps, one more multiplication
/// by ten would not fit.
proof fn lemma_widen_stops(mag: nat, steps: nat)
    ensures
        widen_magnitude(mag, steps).1 < steps ==> widen_magnitude(mag, steps).0 * 10
            > MAX_MANTISSA as int,
    decreases steps,
{
    if steps == 0 || mag * 10 > MAX_MANTISSA as int {
    } else {
        lemma_widen_stops(mag * 10, (steps - 1) as nat);
    }
}

proof fn lemma_pow10_add(a: nat, b: nat)
    ensures
        pow10(a + b) == pow10(a) * pow10(b),
    decreases b,
{
    if b == 0 {
        assert(pow10(0) == 1);
        assert(pow10(a) * 1 == pow10(a)) by (nonlinear_arith);
    } else {
        lemma_pow10_add(a, (b - 1) as nat);
        assert(pow10(a + b) == 10 * pow10((a + b - 1) as nat));
        assert(pow10(b) == 10 * pow10((b - 1) as nat));
        assert(pow10(a + b) == pow10(a) * pow10(b)) by (nonlinear_arith)
            requires
                pow10(a + b) == 10 * pow10((a + b - 1) as nat),
                pow10((a + b - 1) as nat) == pow10(a) * pow10((b - 1) as nat),
                pow10(b) == 10 * pow10((b - 1) as nat),
        ;
    }
}

/// Widening a price to more fractional digits never changes its value.
pub proof fn lemma_rescale_up_keeps_value(v: DecimalValue, target: nat)
    requires
        is_valid_decimal(v),
    ensures
        same_value(rescale_up_value(v, target), v),
{
    let w = rescale_up_value(v, target);
    if target > v.scale {
        let mag = abs(v.mantissa);
        lemma_widen_magnitude(mag, (target - v.scale) as nat);
        let (m, k) = widen_magnitude(mag, (target - v.scale) as nat);
        lemma_pow10_add(v.scale, k);
        assert(m * pow10(v.scale) == mag * pow10(w.scale)) by (nonlinear_arith)
            requires
                m == mag * pow10(k),
                pow10(w.scale) == pow10(v.scale) * pow10(k),
        ;
        if v.mantissa < 0 {
            assert(w.mantissa * pow10(v.scale) == v.mantissa * pow10(w.scale)) by (nonlinear_arith)
                requires
                    v.mantissa == -(mag as int),
                    w.mantissa == -(m as int),
                    m * pow10(v.scale) == mag * pow10(w.scale),
            ;
        } else {
            assert(w.mantissa * pow10(v.scale) == v.mantissa * pow10(w.scale)) by (nonlinear_arith)
                requires
                    v.mantissa == mag as int,
                    w.mantissa == m as int,
                    m * pow10(v.scale) == mag * pow10(w.scale),
            ;
        }
    } else {
        assert(v.mantissa * pow10(v.scale) == v.mantissa * pow10(v.scale));
    }
}

/// A normalised price has at most `PRICE_SCALE` fractional digits.
pub proof fn lemma_normalized_scale(v: DecimalValue)
    requires
        is_valid_decimal(v),
    ensures
        normalized_value(v).scale <= PRICE_SCALE,
        is_valid_decimal(normalized_value(v)),
{
    lemma_round_dp_valid(v, PRICE_SCALE as nat);
    lemma_rescale_up_valid(round_dp_value(v, PRICE_SCALE as nat), PRICE_SCALE as nat);
}

/// Normalising is idempotent: a normalised price normalises to itself, so
/// reformatting a reported price gives the same text.
pub proof fn lemma_normalize_idempotent(v: DecimalValue)
    requires
        is_valid_decimal(v),
    ensures
        normalized_value(normalized_value(v)) == normalized_value(v),
{
    lemma_normalized_scale(v);
    let r = round_dp_value(v, PRICE_SCALE as nat);
    lemma_round_dp_valid(v, PRICE_SCALE as nat);
    let n = normalized_value(v);
    assert(round_dp_value(n, PRICE_SCALE as nat) == n);
    if n.scale < PRICE_SCALE {
        if PRICE_SCALE > r.scale {
            let mag = abs(r.mantissa);
            let steps = (PRICE_SCALE - r.scale) as nat;
            lemma_widen_stops(mag, steps);
            let (m, k) = widen_magnitude(mag, steps);
            assert(k < steps);
            assert(abs(n.mantissa) == m);
            assert(widen_magnitude(m, (PRICE_SCALE - n.scale) as nat) == (m, 0nat));
        }
    }
}

proof fn lemma_known_quotes_nonempty()
    ensures
        forall|i: int| 0 <= i < 8 ==> #[trigger] known_quotes()[i].len() > 0,
        known_quotes().len() == 8,
{
    reveal_strlit("usdt");
    reveal_strlit("fdusd");
    reveal_strlit("usdc");
    reveal_strlit("btc");
    reveal_strlit("eth");
    reveal_strlit("bnb");
    reveal_strlit("try");
    reveal_strlit("eur");
}

/// The OKX id rejoins the split of the symbol with a dash: whenever a known
/// quote ends the symbol, whichever it is, the id is the upper-cased base, a
/// dash and the upper-cased quote; a symbol without a known quote is only
/// upper-cased.
pub proof fn lemma_okx_id_joins_split(symbol: Seq<char>)
    ensures
        split_symbol_spec(symbol).1.len() > 0 ==> okx_inst_id_spec(symbol) == uppercase(
            split_symbol_spec(symbol).0,
        ) + "-"@ + uppercase(split_symbol_spec(symbol).1),
        split_symbol_spec(symbol).1.len() == 0 ==> okx_inst_id_spec(symbol) == uppercase(symbol),
        forall|i: int|
            0 <= i < 8 && first_quote(symbol) == Some(i as nat) ==> okx_inst_id_spec(symbol)
                == uppercase(symbol.take(symbol.len() - #[trigger] known_quotes()[i].len())) + "-"@
                + uppercase(known_quotes()[i]),
{
    lemma_known_quotes_nonempty();
    lemma_first_quote_from(symbol, 0);
}

/// A price with at most `PRICE_SCALE` fractional digits keeps its value
/// when normalised.
pub proof fn lemma_normalize_keeps_short_prices(v: DecimalValue)
    requires
        is_valid_decimal(v),
        v.scale <= PRICE_SCALE,
    ensures
        same_value(normalized_value(v), v),
{
    lemma_rescale_up_keeps_value(v, PRICE_SCALE as nat);
}

/// A price with more than `PRICE_SCALE` fractional digits is normalised to
/// exactly `PRICE_SCALE` digits and to within half a unit of the last one:
/// `2 * |v - n| <= 10^-PRICE_SCALE`, written over mantissas as
/// `2 * |v.mantissa - n.mantissa * f| <= f` with `f = 10^(v.scale -
/// PRICE_SCALE)`. An exact tie goes to the even neighbour.
pub proof fn lemma_normalize_rounds_to_nearest(v: DecimalValue)
    requires
        is_valid_decimal(v),
        v.scale > PRICE_SCALE,
    ensures
        normalized_value(v).scale == PRICE_SCALE,
        ({
            let n = normalized_value(v);
            let f = pow10((v.scale - PRICE_SCALE) as nat) as int;
            let e = v.mantissa - n.mantissa * f;
            &&& 2 * e <= f
            &&& -f <= 2 * e
            &&& (2 * e == f || 2 * e == -f) ==> n.mantissa % 2 == 0
        }),
{
    lemma_round_dp_valid(v, PRICE_SCALE as nat);
    let r = round_dp_value(v, PRICE_SCALE as nat);
    assert(normalized_value(v) == r);
    let f = pow10((v.scale - PRICE_SCALE) as nat) as int;
    lemma_pow10_ge_10((v.scale - PRICE_SCALE) as nat);
    let mag = abs(v.mantissa) as int;
    let q = mag / f;
    let rem = mag % f;
    vstd::arithmetic::div_mod::lemma_fundamental_div_mod(mag, f);
    assert(mag == f * q + rem);
    assert(0 <= rem < f);
    let q2: int = if 2 * rem > f || (2 * rem == f && q % 2 == 1) { q + 1 } else { q };
    assert(r.mantissa == if v.mantissa < 0 { -q2 } else { q2 });
    assert(2 * (mag - q2 * f) <= f && -f <= 2 * (mag - q2 * f)) by (nonlinear_arith)
        requires
            mag == f * q + rem,
            0 <= rem < f,
            q2 == q || q2 == q + 1,
            q2 == q + 1 ==> 2 * rem >= f,
            q2 == q ==> 2 * rem <= f,
    ;
    assert((2 * (mag - q2 * f) == f || 2 * (mag - q2 * f) == -f) ==> q2 % 2 == 0) by (nonlinear_arith)
        requires
            mag == f * q + rem,
            0 <= rem < f,
            f >= 10,
            q2 == q + 1 ==> 2 * rem > f || (2 * rem == f && q % 2 == 1),
            q2 == q ==> !(2 * rem > f || (2 * rem == f && q % 2 == 1)),
            q2 == q || q2 == q + 1,
    ;
    if v.mantissa < 0 {
        assert(v.mantissa - r.mantissa * f == -(mag - q2 * f)) by (nonlinear_arith)
            requires
                v.mantissa == -mag,
                r.mantissa == -q2,
        ;
    } else {
        assert(v.mantissa - r.mantissa * f == mag - q2 * f) by (nonlinear_arith)
            requires
                v.mantissa == mag,
                r.mantissa == q2,
        ;
    }
}

/// `usdt` is the first quote tried: a symbol ending in `usdt` always splits
/// into what precedes it and `usdt`.
pub proof fn lemma_usdt_tried_first(symbol: Seq<char>)
    requires
        ends_with(symbol, "usdt"@),
    ensures
        split_symbol_spec(symbol) == (symbol.take(symbol.len() - 4), "usdt"@),
{
    reveal_strlit("usdt");
}

} // verus!
