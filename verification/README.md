# proper_market

Market data for crypto exchanges: instruments and symbols, the binary
(Simple Binary Encoding) messages that carry quotes, trades and best bid and
offer, order books kept from exchange updates, and the stream handlers of
Binance and FTX. The library is verified with Verus.

Layout:

- `src/` — the verified library.
  - `decimal` — fixed-point decimals; comparing and printing go through `rust_decimal`.
  - `market_api` — the message codecs and the laws that join their calls.
  - `structs`, `message` — instruments, symbols, quotes, trades, market prices,
    and their encodings, with round-trip laws.
  - `util` — order book updates, text helpers, asset codes, the websocket
    session's decision step.
  - `data` — book verification, the Binance order book cache, the per-message
    decisions of each exchange's streams, and which streams to restart.
  - `api` — the market listener.
- `tests/` — tests of the library.
- `app/` — the program around it: websocket and JSON plumbing, the
  controller's tasks, and publishing over ZeroMQ.

Contracts speak of what each function returns for every input it accepts;
`requires` holds only what a function needs of its inputs or what the machine
forces, such as a message's length fitting in memory.
