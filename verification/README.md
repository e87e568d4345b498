# SpritEXAI Pay

Payment orchestration for mobile financial services (bKash, Nagad). Merchants collect
payments over SMS: an Android phone receives the confirmation SMS and forwards it; the engine
verifies it, settles a double-entry ledger, and queues a signed webhook to the merchant.

## Layout

- `src/` is the library. Everything that is decided is decided here, and is verified with
  [Verus](https://github.com/verus-lang/verus): who is let in, what an SMS says, which charge
  it settles, what is written to the ledger, what a page or a webhook holds.
- `app/` is the service around it: HTTP, SQLite, the providers of language models, and the
  worker that sends webhooks. It holds no rules of its own.
- `tests/` runs the library from outside, over tables in memory.

The library never talks to the database. It hands out statements (`store::Statement`), to be
carried out in order up to the first that fails, and is told how each went
(`store::Reply`). The ingestion of an SMS goes in steps of that kind: `sms::ingest` begins it,
`sms::resume` goes on with each answer.

`src/books.rs` models the tables that hold the money, and states over that model what no
single function promises:

- a replayed SMS credits nothing, however often it arrives;
- a charge settles once, and only on an unambiguous match: where the amount and the sender do
  not single one charge out, none settles;
- every ledger transaction balances, and the ledger as a whole sums to zero, however early a
  settlement is cut short;
- what the matched events sum to is what the merchant is owed;
- a customer cannot settle a charge.

## What is taken on trust

Some things are computed by other crates: HMAC-SHA256 (`hmac`, `sha2`), hexadecimal (`hex`),
regular expressions (`regex`), JSON text (`serde_json`), random identifiers (`uuid`), and the
clock and a few text functions of the standard library. Each is called from one small
function whose doc comment says what is claimed of it.

## Configuration

| Variable | Default | Purpose |
|----------|---------|---------|
| `PORT` | `8080` | HTTP listen port |
| `DATABASE_URL` | `sqlite://spritexai_pay.db?mode=rwc` | SQLite (WAL) |
| `SMS_HMAC_SECRET` | dev default | verifies inbound SMS payloads |
| `WEBHOOK_HMAC_SECRET` | dev default | signs outbound merchant webhooks |
| `ADMIN_PASSWORD` | unset | admin login; the API is open without it |
| `AUTH_SECRET` | dev default | signs admin tokens |
| `BASE_URL` | unset | public base URL of checkout links |
| `REDIS_URL` | unset | only for several instances |
| `STATIC_DIR` | `./static` | the built dashboard |
| `OPENROUTER_API_KEY`, `OPENCODE_ZEN_API_KEY` | unset | providers that read drifted SMS |
