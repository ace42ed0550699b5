# acolors

The profile-management core of a proxy-profile server, written in Verus:
share links and subscriptions are decoded into nodes, outbound
configurations are modelled as JSON, and the bookkeeping of groups, nodes,
runtime values, cores and the configuration file is decided by verified
functions.

Layout:

- `src/` — the verified library.
  - `text`, `codec`, `json`: characters and strings, Base64/UTF-8/percent
    decoding, the JSON model with default removal and rendering;
  - `outbound`: outbound configurations and their JSON form;
  - `serialize`, `trojan`, `shadowsocks`: `vmess://`, `trojan://` and
    `ss://` links and Base64 subscriptions;
  - `data`, `profile`: group, node and runtime-value records, the fields a
    group stamps on its nodes, the runtime-value cache;
  - `manager`: profile requests and replies, and the task that answers a
    request by table operations;
  - `server`: proxy and API addresses, fetched subscriptions, cores,
    stored node ids, statistics names and the configuration file;
  - `cli`: argument kinds.
- `tests/` — tests of the library.
- `app/` — the command-line program: SQLite storage, HTTP fetching and
  configuration-file I/O around the library.
