# typed_geojson

Strongly-typed GeoJSON (RFC 7946): `Feature<G, P>` and `FeatureCollection<G, P>`
typed over their geometry and properties, the geometry types, and bridges to
planar `geo_types` geometry and to the untyped `geojson` crate. Foreign
members (RFC 7946 §6.1) are kept in order and written back; polygon rings
converted to `geo_types` are closed as `geo_types` closes them.

Layout:

- `src/` is the verified library. Coordinates are generic over their scalar
  `C` (GeoJSON uses `f64`). It holds the data types, the member plans used when
  encoding, the member-by-member decoders, the planar-geometry bridge, the
  bounding-box and properties rules, and the laws proved about them
  (`geo_laws.rs`, `decode_laws.rs`).
- `app/` is the serde layer: copies of the types with serde derives and
  `Serialize`/`Deserialize` impls that follow the library's plans and
  decoders, the `geo_types` and `geojson` conversions, all going through the
  library.
- `tests/` exercises the library on concrete values.
