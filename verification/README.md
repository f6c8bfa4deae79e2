# att_fx

Verified helpers for live market-data monitors.

- `src/` is the library, verified with Verus:
  - `market`: trading-pair symbols (`split_symbol`, `to_okx_inst_id`) and exact
    price values (`Price`, `normalize_price`, `format_price`);
  - `decimal`: what `rust_decimal` computes, stated over mantissa and scale;
  - `feed`: price-change detection shared by the ticker feeds;
  - `binance`, `huobi`, `jupiter`: per-exchange price extraction;
  - `json`: the JSON values the feeds read;
  - `wikimedia`: word tokens and keyword filtering of stream events;
  - `ct_log`: Certificate Transparency search results;
  - `gzip`, `text`: decompression and Unicode text operations.
- `app/` holds the programs: websocket and SSE clients, HTTP fetches, file
  output and printing.
- `tests/` runs the library on concrete inputs.
