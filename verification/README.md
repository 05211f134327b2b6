# zenith_gateway

The verified core of an API gateway and web application firewall, written in Verus.

- `src/` is the library, verified by Verus:
  - `text`: character-level helpers (prefixes, ASCII case folding, decimal printing, first line and
    words of a request) specified over `Seq<char>`;
  - `auth`: bearer-token header validation;
  - `config`: the configuration types;
  - `router`: first-match routing by path prefix and method;
  - `ipv4`: dotted-decimal IPv4 addresses and CIDR ranges;
  - `waf`: address/CIDR blocklist and signature rules (matched with the `regex` crate);
  - `limiter`: token buckets, per bucket and per client;
  - `metrics`: request counters and their Prometheus exposition;
  - `clock`: clocks whose readings are nanoseconds since they were started;
  - `gateway`: the per-request pipeline that ties these together.
- `app/` is the server: YAML configuration loading (serde), the TCP accept loop and socket I/O (tokio).
- `tests/` exercises the library.
