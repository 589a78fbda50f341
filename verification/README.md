# dnsix

An IPv6-only DNS64 forwarder whose decisions are verified with Verus.

Every query is relayed to a configured upstream resolver. For a name without AAAA
records the forwarder synthesizes them: with the native IPv6 of the CDN that hosts
the name where it recognises one, and otherwise by embedding the name's A records
into a NAT64 prefix.

- `src/` is the library: parsing, matching, caching, synthesis, counting and the
  routing of requests. Every function has a contract, and Verus proves it. The few
  functions of other crates that it calls are declared with the contract that is
  relied on, next to the call.
- `app/` is the program around it: sockets, TLS, the configuration file, and the
  dashboard's HTML. It performs what the library decides.
- `tests/` runs the library on concrete values.

| module | what it holds |
| --- | --- |
| `acl` | the allowlist of client networks |
| `blocklist`, `fetch` | the blocklist, and fetching its sources over HTTPS |
| `calendar` | dates and times of day |
| `config` | settings, defaults and validation |
| `dns`, `net`, `text` | names, records, addresses and text |
| `handler` | what is done with a request |
| `metrics`, `exposition` | counters, and the shape of their text exposition |
| `querylog`, `web` | what is observed and shown |
| `synth` | the synthesizer chain, its CDN providers and NAT64 |
| `upstream` | the response cache, the pool and the upstream connections |
