# wgcore

A library for building WireGuard tunnel configurations for offices and their
clients, verified with Verus, and the desktop studio around it.

## Layout

- `src/` — the verified library.
  - `keys.rs`: X25519 key pairs and pre-shared keys as base64 text.
  - `ip.rs`, `pool.rs`: networks and the address pool clients draw from. The
    pool keeps its handed-out and reserved addresses in `HashSet<u128>`s, an
    address as its integer value.
  - `peer.rs`, `host.rs`: `[Peer]` and `[Interface]` models and their `.conf` text.
  - `parse.rs`: reading `.conf` text back into a host.
  - `dict.rs`: a host's interface fields as a record.
  - `network.rs`: many hosts with named pools, linked as peers. Hosts and
    pools are kept in vectors in the order they were added, with unique
    names: vstd specifies `HashMap` only for key types known to obey its key
    model, and `String` is not one of them.
  - `form.rs`, `client_tab.rs`, `host_tab.rs`: the studio's form state and the
    rules that turn forms into models and project records.
  - `studio.rs`, `ui_state.rs`, `project.rs`: the studio's own state
    (tabs, popups, confirmations, shortcuts) and its project records.
  - `text.rs`: the text operations everything above is specified with.
  - `layout.rs`: how a host's text is laid out (the key line, the peer
    blocks).
  - `roundtrip.rs`, `reload.rs`, `record_law.rs`, `field_law.rs`: the laws that
    tie writing and reading together (a host's `.conf` text reads back as the
    host, and its keys, addresses, port, MTU and peers read back whatever its
    other values hold; a redacted text is refused; a saved project record
    opens and saves to itself).
- `tests/` — tests on concrete values.
- `app/` — the desktop window (egui), file dialogs and file I/O, and the
  serde/thiserror forms of the library's records and error.

MikroTik RouterOS / EoIP export is not part of this library or of the
studio built on it; only the random EoIP tunnel id a client form carries
is.
