# autodns

A local DNS forwarder for the desktop: queries are answered from a hosts table, a cache,
or the configured upstreams tried in order, where the first upstream that returns records
wins. The decisions are written in Verus and proved against their contracts.

- `src/` is the verified library: the DNS wire format (questions, TTLs, ids, length
  prefixes, SOCKS5 framing, DNS over HTTPS requests), each query as a step function
  (`query::QueryState`: IPv6 rule, hosts, cache under the route, then the upstreams in
  order, with what goes to the cache and the history), the ordered fallback between
  upstreams, upstream health tracking, routes and hosts, the cache's entries, the
  configuration and its checks, and the rules of the desktop front end (preferences,
  tray, system DNS takeover, certificates, logs, history).
- Public `law_*` proof functions in `src/` state the properties that span several calls:
  ordered fallback, health thresholds and recovery, what the cache gives back of what it
  kept, what a restore gives back of a takeover, round trips of the framings and of the
  desktop form of the configuration, durations of joined texts, what compiled routes
  hold, how a listener error reads back, and the idempotence of defaults and
  normalization.
- `tests/` runs the library on concrete values.
- `app/` is the shell around it: the UDP and TCP listeners and upstream exchanges that
  carry out the query steps, the health probe loops, the query history writer, the certificate files, the preferences file, the system DNS
  commands, and serialization.
