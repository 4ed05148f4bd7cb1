# awuba_iot

A bridge from Aruba access points to Home Assistant: access points stream the BLE
advertisements they hear over a websocket; advertisements from ATC thermometers
(atc1441 and pvvx firmware) are decoded and published to MQTT, together with
Home Assistant discovery messages for each new device.

Layout:

- `src/` — the verified library (Verus).
  - `protocols/` — the parser registry, advertisement routing, and the ATC parser
    with duplicate-packet suppression.
  - `lru.rs` — the bounded least-recently-used map, over `hashlink::LruCache`.
  - `aruba.rs` — the per-frame decision: skip, or report a reading and say whether
    the device must be announced.
  - `hass/` — Home Assistant identifiers, topics and discovery descriptions.
  - `config.rs`, `utils.rs` — settings defaults, UUID and MAC formatting.
- `app/` — the program: websocket server, protobuf decoding, MQTT publishing,
  JSON serialisation and settings loading.
- `tests/` — tests of the library.
