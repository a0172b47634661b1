# service_core

The verified core of a family of small web services (accounts, tokens,
chat, market candles, rituals, media), written in Verus.

- `src/` holds the logic with its contracts: token framing and reading,
  role checks, request admission, account forms and validation reports,
  sign-in and invitation decisions, password hashing, chat session steps
  and one-minute candle bookkeeping. Token framing is written and
  verified here: the JSON header and claims, base64url, and the reading
  of decoded claims. Only the work that needs an outside crate calls
  one, behind a small trusted wrapper whose contract says what it does:
  HMAC signing and signature checking (`jsonwebtoken`), password hashing
  (`argon2`), UUID parsing and generation (`uuid`), the clock (`chrono`),
  random choices (`rand`) and e-mail syntax (`validator`).
- `app/` holds what stays outside verification: configuration from the
  environment, HTTP adapters and middleware, the Kafka feed loops,
  floating-point prices and asteroids, and serde forms of the records.
- `tests/` runs the library on concrete values.
