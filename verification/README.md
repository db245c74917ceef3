# duo_auth

Sign-in with the Duo Universal Prompt, as a web vault drives it, verified with
Verus.

- `src/` is the verified library. It reads and checks the configuration
  (`config`), issues and checks the states that travel through Duo (`state`),
  writes and reads signed tokens (`jwt`), writes the redirect to Duo
  (`auth_url`), reads what the vault submits (`submission`) and opens and judges
  the token exchange (`exchange`). What it takes from outside crates stands
  behind small items whose contracts are trusted; each says above it what it
  claims.
- `app/` runs the library on the workers runtime: it reads the bindings and
  performs the request.
- `tests/` runs the library with the crates that it is linked to.
