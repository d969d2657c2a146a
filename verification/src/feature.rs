//! Typed GeoJSON Features and FeatureCollections (RFC 7946 §3.2, §3.3): their
//! data, the members written when encoding them, and the decisions taken when
//! decoding an object member by member.
use vstd::prelude::*;

use crate::bbox::Bbox;

verus! {

/// `serde_json`'s arbitrary JSON number, carried through unchanged.
#[verifier::external_type_specification]
#[verifier::external_body]
pub struct ExJsonNumber(serde_json::Number);

/// Whether two strings hold the same characters.
pub fn str_eq(a: &str, b: &str) -> (r: bool)
    ensures
        r == (a@ == b@),
{
    let a_owned = a.to_owned();
    let b_owned = b.to_owned();
    a_owned == b_owned
}

/// A GeoJSON Feature `id`: a string or a number (RFC 7946 §3.2).
#[derive(Debug, PartialEq)]
pub enum Id {
    String(String),
    Number(serde_json::Number),
}

/// The `"Feature"` value of a Feature's `type` member.
#[derive(Clone, Copy, Debug, PartialEq, Eq)]
pub enum FeatureType {
    Feature,
}

/// The `"FeatureCollection"` value of a collection's `type` member.
#[derive(Clone, Copy, Debug, PartialEq, Eq)]
pub enum FeatureCollectionType {
    FeatureCollection,
}

impl FeatureType {
    /// The wire name of the tag.
    pub fn name(&self) -> (s: &'static str)
        ensures
            s@ == "Feature"@,
    {
        "Feature"
    }
}

impl FeatureCollectionType {
    /// The wire name of the tag.
    pub fn name(&self) -> (s: &'static str)
        ensures
            s@ == "FeatureCollection"@,
    {
        "FeatureCollection"
    }
}

/// An arbitrary JSON value (`serde_json`'s), carried through unchanged.
#[verifier::external_type_specification]
#[verifier::external_body]
pub struct ExJsonValue(serde_json::Value);

/// A foreign member of a GeoJSON object (RFC 7946 §6.1): its key and its JSON
/// value. Decoding keeps as foreign only a member whose key names none of the
/// object's own members (see [`feature_field`] and [`collection_field`]).
pub type ForeignMember = (String, serde_json::Value);

/// A GeoJSON Feature with typed `G`eometry and `P`roperties; its bounding box
/// has coordinate scalars `C`.
///
/// The geometry is mandatory but may be `null` (RFC 7946): that nullability
/// is a choice of `G` (an `Option` for the nullable form). Foreign members
/// are kept, in the order they were read.
#[derive(Debug, PartialEq)]
pub struct Feature<G, P, C> {
    pub geometry: G,
    pub properties: P,
    pub id: Option<Id>,
    pub bbox: Option<Bbox<C>>,
    pub foreign_members: Vec<ForeignMember>,
}

/// A Feature as mathematical values.
pub struct FeatureModel<G, P, C> {
    pub geometry: G,
    pub properties: P,
    pub id: Option<Id>,
    pub bbox: Option<Bbox<C>>,
    pub foreign_members: Seq<ForeignMember>,
}

impl<G, P, C> View for Feature<G, P, C> {
    type V = FeatureModel<G, P, C>;

    open spec fn view(&self) -> FeatureModel<G, P, C> {
        FeatureModel {
            geometry: self.geometry,
            properties: self.properties,
            id: self.id,
            bbox: self.bbox,
            foreign_members: self.foreign_members@,
        }
    }
}

impl<G, P, C> Feature<G, P, C> {
    /// A Feature with just a geometry and properties (no `id`, no `bbox`, no
    /// foreign members).
    pub fn new(geometry: G, properties: P) -> (f: Self)
        ensures
            f.geometry == geometry,
            f.properties == properties,
            f.id is None,
            f.bbox is None,
            f.foreign_members@ == Seq::<ForeignMember>::empty(),
    {
        Feature { geometry, properties, id: None, bbox: None, foreign_members: Vec::new() }
    }
}

/// A GeoJSON FeatureCollection of typed features. Foreign members are kept,
/// in the order they were read.
#[derive(Debug, PartialEq)]
pub struct FeatureCollection<G, P, C> {
    pub features: Vec<Feature<G, P, C>>,
    pub bbox: Option<Bbox<C>>,
    pub foreign_members: Vec<ForeignMember>,
}

/// A FeatureCollection as mathematical values (its features as they are).
pub struct FeatureCollectionModel<G, P, C> {
    pub features: Vec<Feature<G, P, C>>,
    pub bbox: Option<Bbox<C>>,
    pub foreign_members: Seq<ForeignMember>,
}

impl<G, P, C> View for FeatureCollection<G, P, C> {
    type V = FeatureCollectionModel<G, P, C>;

    open spec fn view(&self) -> FeatureCollectionModel<G, P, C> {
        FeatureCollectionModel {
            features: self.features,
            bbox: self.bbox,
            foreign_members: self.foreign_members@,
        }
    }
}

impl<G, P, C> FeatureCollection<G, P, C> {
    /// A collection of the given features, in order (no `bbox`, no foreign
    /// members).
    pub fn from_features(features: Vec<Feature<G, P, C>>) -> (fc: Self)
        ensures
            fc.features == features,
            fc.bbox is None,
            fc.foreign_members@ == Seq::<ForeignMember>::empty(),
    {
        FeatureCollection { features, bbox: None, foreign_members: Vec::new() }
    }
}

// --- member names -----------------------------------------------------------------

/// The members of a Feature object that carry meaning; any other member is a
/// foreign member.
#[derive(Clone, Copy, Debug, PartialEq, Eq)]
pub enum FeatureField {
    Type,
    Geometry,
    Properties,
    Id,
    Bbox,
    Other,
}

/// The members of a FeatureCollection object that carry meaning; any other
/// member is a foreign member.
#[derive(Clone, Copy, Debug, PartialEq, Eq)]
pub enum CollectionField {
    Type,
    Features,
    Bbox,
    Other,
}

/// The Feature member that a key names (exact, lower-case match).
pub open spec fn feature_field_of(key: Seq<char>) -> FeatureField {
    if key == "type"@ {
        FeatureField::Type
    } else if key == "geometry"@ {
        FeatureField::Geometry
    } else if key == "properties"@ {
        FeatureField::Properties
    } else if key == "id"@ {
        FeatureField::Id
    } else if key == "bbox"@ {
        FeatureField::Bbox
    } else {
        FeatureField::Other
    }
}

/// The FeatureCollection member that a key names (exact, lower-case match).
pub open spec fn collection_field_of(key: Seq<char>) -> CollectionField {
    if key == "type"@ {
        CollectionField::Type
    } else if key == "features"@ {
        CollectionField::Features
    } else if key == "bbox"@ {
        CollectionField::Bbox
    } else {
        CollectionField::Other
    }
}

/// Which Feature member a key names.
pub fn feature_field(key: &str) -> (f: FeatureField)
    ensures
        f == feature_field_of(key@),
{
    if str_eq(key, "type") {
        FeatureField::Type
    } else if str_eq(key, "geometry") {
        FeatureField::Geometry
    } else if str_eq(key, "properties") {
        FeatureField::Properties
    } else if str_eq(key, "id") {
        FeatureField::Id
    } else if str_eq(key, "bbox") {
        FeatureField::Bbox
    } else {
        FeatureField::Other
    }
}

/// Which FeatureCollection member a key names.
pub fn collection_field(key: &str) -> (f: CollectionField)
    ensures
        f == collection_field_of(key@),
{
    if str_eq(key, "type") {
        CollectionField::Type
    } else if str_eq(key, "features") {
        CollectionField::Features
    } else if str_eq(key, "bbox") {
        CollectionField::Bbox
    } else {
        CollectionField::Other
    }
}

} // verus!
