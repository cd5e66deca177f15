# fluxdns

The verified core of FluxDNS, a DNS proxy with local records, rewrite
rules, a response cache and several upstream strategies (concurrent,
fastest, round robin, random).

- `src/` is the library, written in Verus: the DNS message model and its
  wire form (`message`, `wire`, `exchange`), the cache (`cache`), rewrite
  rules (`rewrite`), the resolver as a step machine (`resolver`), upstream
  statistics and strategies (`upstream`, `strategy`), configuration
  (`config`), and the request and response shapes of the management API
  (`*_requests`, `settings`, `status`, `server`, `models`). Calls into
  hickory-proto, regex, dashmap, serde_json, chrono, base64 and rand go
  through small trusted wrappers whose contracts are stated beside them.
- `tests/` exercises the library with the outside crates linked.
- `app/` is the program: configuration loading, the UDP and DNS-over-HTTPS
  listeners, the upstream clients and the management API, driving the
  library's resolver with the network.
