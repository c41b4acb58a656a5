# lightning_goats

Payment accounting and feeder control for a goat feeder paid over
Lightning and Monero. The library keeps the credit toward feeds, decides
when a feed may run and what each payment, receipt and quote is worth,
and reads and checks what the outside services (BOLT11 invoices, Strike,
CLN, LNURL, Nostr, OpenHAB, the Kraken rate feed, the overlay) send back.

The logic is written in Verus: every function in `src/` carries a
`requires`/`ensures` contract that Verus proves, and the properties that
span several calls (credit that drains to the remainder, replayed payments
that never credit twice, late or locked funds that are never spent, and so
on) stand as public proof functions named `law_*`.

## Layout

- `src/` — the verified library.
  - `domain/` — feed credit and the feed attempt state machine, invoices,
    payments, XMR valuation.
  - `ledger/` — the durable ledger's decisions: settlements, receipts,
    quotes, legacy imports, the event log.
  - `quotes/` — quote policy and issuance, the Kraken rate oracle.
  - `gateway/` — the feeder gateway: requests, witnesses, weather.
  - `overlay.rs`, `presentation.rs`, `messaging.rs` — what the overlay and
    the chat channels are sent.
  - `bolt11.rs`, `strike.rs`, `cln.rs`, `lnurl.rs`, `nostr/`,
    `openhab.rs` — the checks on each outside service's answers.
  - `crypto.rs`, `json.rs`, `url.rs`, `timefmt.rs`, `ident.rs`, `text.rs` —
    the calls into outside crates, each behind a small trusted item whose
    contract states what the crate documents.
- `tests/` — tests run against the compiled library.
- `app/` — the command-line program: configuration files, HTTP, the
  system clock, serde wire formats and the floating-point presentation.
