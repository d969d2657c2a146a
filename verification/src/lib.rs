//! Strongly-typed GeoJSON (RFC 7946): Features and FeatureCollections typed
//! over their geometry and properties, the geometry types themselves, and
//! the bridges to planar (`geo_types`-shaped) geometry and to the untyped
//! `geojson` crate, with the decisions that encoding, decoding and bridging
//! make stated as contracts.
//!
//! Coordinates are generic over their scalar `C`; GeoJSON itself uses `f64`.

pub mod bbox;
pub mod decode;
pub mod decode_laws;

pub mod feature;
pub mod geo_bridge;
pub mod geo_laws;
pub mod geometry;
pub mod untyped;

pub use bbox::{bbox_from_vec, bbox_into_vec, Bbox, BboxLengthError};
pub use decode::{
    collection_member_plan, feature_member_plan, CollectionDecoder, CollectionMember, DecodeError,
    FeatureDecoder, FeatureMember,
};
pub use feature::{
    collection_field, feature_field, CollectionField, Feature, FeatureCollection,
    FeatureCollectionType, FeatureField, FeatureType, ForeignMember, Id,
};
pub use geo_bridge::{
    coord, geo_line_string, geo_polygon, line_string_positions, polygon_rings, position,
    ArityError, Coord, GeoGeometry, GeoPolygon,
};
pub use geometry::{
    geometry_member_plan, Geometry, GeometryCollection, GeometryCollectionType, GeometryMember, LineString,
    LineStringType, MultiLineString, MultiLineStringType, MultiPoint, MultiPointType,
    MultiPolygon, MultiPolygonType, Point, PointType, Polygon, PolygonType, Position,
};
pub use untyped::{
    from_untyped, properties_value, to_untyped, typed_foreign_members, untyped_foreign_members,
    untyped_properties, JsonShape, NotAnObject, UntypedFeature,
};
