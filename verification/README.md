# jsender

JSend response bodies (`success`, `fail`, `error`), each paired with the HTTP
status code it is served with, verified with Verus.

- `src/json.rs`: the JSON values that responses carry, and objects built from
  key/value pairs (each key once, in key order).
- `src/keys.rs`: the order of object keys.
- `src/success.rs`, `src/fail.rs`, `src/error.rs`: the three kinds of response.
- `src/dto.rs`: one data type with the members of all three kinds.
- `src/body.rs`: the layout of a body, as bytes.
- `src/response.rs`: the status discriminator, the serialised response and its
  conversion into an `http::Response`.
- `app/lib.rs`: serde around the library (the JSON body of a `JSendResponse`
  with any serialisable success data, and `JsonValue` from a
  `serde_json::Value` or any serialisable value).
