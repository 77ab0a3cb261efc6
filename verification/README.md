# openlogi

Verified core of the OpenLogi tooling for Logitech HID++ mice and keyboards,
written in Verus.

`src/` (verified):

- `nibble`, `message`, `feature`, `smartshift` — HID++ 2.0 message framing,
  feature endpoints, broadcast-event filtering, feature-type bits, and the
  SmartShift ratchet-control requests and responses.
- `transport`, `hook`, `buttons`, `mouse_model` — which HID nodes carry
  HID++, translation of Windows low-level mouse-hook messages, the hook procedure's
  decision, the hook's one-at-a-time callback slot, and hotspot hover state.
- `index`, `asset`, `metadata`, `http`, `glow` — the device-asset registry
  and its lookups, depot resolution, `core_metadata.json` hotspots, URL and
  cache-path building, SHA-256 digests and the cached-file hash check and
  the outcome of a cache-checked fetch,
  and the run-length glow mask.
- `lighting`, `tray`, `pairing`, `picker`, `watcher` — lighting colours and
  panel changes, the menu-bar tray state, pairing-session bookkeeping and the
  bounded wait for capture to go idle,
  picker sections and accessibility-change reporting.

`app/` (plain Rust, not verified): HTTP fetches with retry, file reads and
atomic writes, JSON parsing into the library's types, the platform cache
directory, floating-point layout helpers and the watcher thread.
