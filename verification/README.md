# nuphus_core

The verified core of the nuphus desktop agent.

- `src/text.rs` — Unicode trimming, prefix/suffix/substring tests, repeated
  prefix stripping and splitting, stated over `Seq<char>`.
- `src/proxy.rs` — proxy detection (environment first, then the Windows user
  proxy), the no-proxy domain list and the bypass rule, and the reqwest proxy
  built from them.
- `src/proxy_laws.rs` — properties of the above that hold for every input.
- `src/state.rs` — the session signal state and its shared, locked handle.
- `src/preferences.rs` — the user preference types and their defaults.
- `app/` — taking the lock of the shared signal state; reading the process
  environment, the Windows registry and the
  preferences file, and the serde forms of the preference types.
