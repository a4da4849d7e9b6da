# agent-locksmith

A credential proxy for agents. Agents call upstream services through it; the
credentials of those services stay with the proxy. Every agent has a token or a
certificate of its own, may call the tools that its lists allow, and leaves a
row in the audit log with every request.

The crate is a Verus library. Each public function states in its contract what
it returns or changes, and Verus proves it.

## Layout

- `src/`: the rules. Who is let in (`auth`, `auth_v2`, `mtls`, `token`), what
  is registered (`registrations`), what is sent upstream and answered (`proxy`,
  `headers`, `client_pool`), how OAuth sessions are kept and renewed (`oauth`),
  what operators can do (`admin`), what is recorded (`audit`, `audit_sink`,
  `operational_log_sink`), the configuration (`config`, `deprecation`), and the
  command line (`cli`). Functions named `law_*` state what holds across several
  functions.
- `tests/`: the library from outside, with the real outside crates.
- `app/`: the programs `locksmithd` and `locksmith`: sockets, the database,
  files, the environment and the clock around the library.

## What is trusted

Functions marked `external_body` call outside crates (`aes-gcm`, `argon2`,
`base64`, `getrandom`, `pem`, `reqwest`, `rustls-pemfile`, `secrecy`,
`serde_json`, `serde_yaml`, `sha2`, `rustls-webpki`, `x509-parser`) or the
standard library. The doc comment above each says what is claimed of the call.
