# http_fo

Client-side HTTP and WebSocket failover over the several A/AAAA records of a
hostname, verified with Verus.

- `src/` is the verified library: the TTL-aware LRU DNS cache (over the `lru`
  crate), URL endpoint parsing (over the `url` crate), address normalization
  and latency ranking, the resolution steps that keep or refresh a ranking,
  the HTTP failover state machine, the headers of each request (including
  the idempotency header on failover attempts), WebSocket reconnect rotation, and the
  configuration with its environment overrides.
- `app/` performs the network work (DNS lookups, TCP probes, `reqwest`
  requests, `tokio-tungstenite` handshakes) and feeds each outcome into the
  library's decision functions; it also holds the `thiserror` form of the
  error type.
- `tests/` exercises the library on concrete values.

Configuration variables (each also accepted with the `CURL_FO_` prefix):
`HTTP_FO_LRU_SIZE`, `HTTP_FO_TOP_IPS`, `HTTP_FO_CONNECT_TIMEOUT_MS`,
`HTTP_FO_GET_TIMEOUT_MS`, `HTTP_FO_OTHER_TIMEOUT_MS`,
`HTTP_FO_IDEMPOTENCY_HEADER`, `HTTP_FO_LATENCY_BUCKET_MS`,
`HTTP_FO_DEFAULT_TTL_SEC`, `HTTP_FO_VERBOSE`, `HTTP_FO_FAILOVER_GATEWAY`,
`HTTP_FO_TCP_RACE`.
