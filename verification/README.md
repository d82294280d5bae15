# authzoo

`authzoo` answers one question: which configured roles can the bearer of a JSON
Web Token assume? A role names an issuer, an audience, the algorithms it allows,
and what it demands of the token's claims. A token assumes the role if it is
signed with the role's key, has not expired, and satisfies all of that. Nothing
else is asked of it: a role that demands no subject is assumed without one.

The library is written in Verus: its contracts say what its functions return, and
they are proved. What the library takes from the JWT and JSON crates is
gathered in `src/decoder.rs`, behind contracts that are believed.

## Layout

- `src/config.rs`: roles and claim requirements, and what makes them valid
- `src/claims.rs`: the claims of a verified token
- `src/keys.rs`, `src/jwk.rs`: the keys that tokens are verified with
- `src/cache.rs`: a bounded cache of published keys, in which an entry lives for
  a fixed time and the one used longest ago makes room
- `src/discovery.rs`: how the key of an issuer is found, one reply at a time
- `src/validator.rs`: the roles that a token can assume
- `src/decoder.rs`: the calls into other crates
- `src/error.rs`, `src/name_map.rs`, `src/text.rs`: errors, ordered maps, texts
- `app/`: configuration files, HTTP requests and logs around the library

## Use

```rust
let validator = authzoo::TokenValidator::try_from(config)?;
let roles = validator.validate(token, &discovered);
```

`roles_to_discover` lists the roles that have no configured key. For each of them
`start_discovery` gives the first request to make, and each reply is handed back
until there is a key or an error. What came of it is given to `validate` under the
name of the role: a role without a key is refused with the error of its discovery.
`outcomes` tells for every role why it was refused, and `assumed_roles` lists
those that were not.
