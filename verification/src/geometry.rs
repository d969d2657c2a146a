use vstd::prelude::*;

use crate::bbox::Bbox;

verus! {

broadcast use vstd::std_specs::vec::group_vec_axioms;

/// A GeoJSON position (RFC 7946 §3.1.1): longitude, latitude, and an optional
/// third element (elevation), as a list of coordinate scalars `C`.
pub type Position<C> = Vec<C>;

/// The `"type"` member of a Point: the string literal `"Point"`.
#[derive(Clone, Copy, Debug, PartialEq, Eq)]
pub enum PointType {
    Point,
}

/// The `"type"` member of a MultiPoint: the string literal `"MultiPoint"`.
#[derive(Clone, Copy, Debug, PartialEq, Eq)]
pub enum MultiPointType {
    MultiPoint,
}

/// The `"type"` member of a LineString: the string literal `"LineString"`.
#[derive(Clone, Copy, Debug, PartialEq, Eq)]
pub enum LineStringType {
    LineString,
}

/// The `"type"` member of a MultiLineString: the string literal `"MultiLineString"`.
#[derive(Clone, Copy, Debug, PartialEq, Eq)]
pub enum MultiLineStringType {
    MultiLineString,
}

/// The `"type"` member of a Polygon: the string literal `"Polygon"`.
#[derive(Clone, Copy, Debug, PartialEq, Eq)]
pub enum PolygonType {
    Polygon,
}

/// The `"type"` member of a MultiPolygon: the string literal `"MultiPolygon"`.
#[derive(Clone, Copy, Debug, PartialEq, Eq)]
pub enum MultiPolygonType {
    MultiPolygon,
}

/// The `"GeometryCollection"` value of a [`GeometryCollection`]'s `type` member.
#[derive(Clone, Copy, Debug, PartialEq, Eq)]
pub enum GeometryCollectionType {
    GeometryCollection,
}

impl PointType {
    /// The wire name of the tag.
    pub fn name(&self) -> (s: &'static str)
        ensures s@ == "Point"@,
    {
        "Point"
    }
}

impl MultiPointType {
    /// The wire name of the tag.
    pub fn name(&self) -> (s: &'static str)
        ensures s@ == "MultiPoint"@,
    {
        "MultiPoint"
    }
}

impl LineStringType {
    /// The wire name of the tag.
    pub fn name(&self) -> (s: &'static str)
        ensures s@ == "LineString"@,
    {
        "LineString"
    }
}

impl MultiLineStringType {
    /// The wire name of the tag.
    pub fn name(&self) -> (s: &'static str)
        ensures s@ == "MultiLineString"@,
    {
        "MultiLineString"
    }
}

impl PolygonType {
    /// The wire name of the tag.
    pub fn name(&self) -> (s: &'static str)
        ensures s@ == "Polygon"@,
    {
        "Polygon"
    }
}

impl MultiPolygonType {
    /// The wire name of the tag.
    pub fn name(&self) -> (s: &'static str)
        ensures s@ == "MultiPolygon"@,
    {
        "MultiPolygon"
    }
}

impl GeometryCollectionType {
    /// The wire name of the tag.
    pub fn name(&self) -> (s: &'static str)
        ensures s@ == "GeometryCollection"@,
    {
        "GeometryCollection"
    }
}

/// A GeoJSON Point (RFC 7946 §3.1.2).
#[derive(Clone, Debug, PartialEq)]
pub struct Point<C> {
    /// The `"type"` member.
    pub kind: PointType,
    pub coordinates: Position<C>,
    pub bbox: Option<Bbox<C>>,
}

/// A GeoJSON MultiPoint (RFC 7946 §3.1.3).
#[derive(Clone, Debug, PartialEq)]
pub struct MultiPoint<C> {
    /// The `"type"` member.
    pub kind: MultiPointType,
    pub coordinates: Vec<Position<C>>,
    pub bbox: Option<Bbox<C>>,
}

/// A GeoJSON LineString (RFC 7946 §3.1.4).
#[derive(Clone, Debug, PartialEq)]
pub struct LineString<C> {
    /// The `"type"` member.
    pub kind: LineStringType,
    pub coordinates: Vec<Position<C>>,
    pub bbox: Option<Bbox<C>>,
}

/// A GeoJSON MultiLineString (RFC 7946 §3.1.5).
#[derive(Clone, Debug, PartialEq)]
pub struct MultiLineString<C> {
    /// The `"type"` member.
    pub kind: MultiLineStringType,
    pub coordinates: Vec<Vec<Position<C>>>,
    pub bbox: Option<Bbox<C>>,
}

/// A GeoJSON Polygon (RFC 7946 §3.1.6): exterior ring first, then holes.
#[derive(Clone, Debug, PartialEq)]
pub struct Polygon<C> {
    /// The `"type"` member.
    pub kind: PolygonType,
    pub coordinates: Vec<Vec<Position<C>>>,
    pub bbox: Option<Bbox<C>>,
}

/// A GeoJSON MultiPolygon (RFC 7946 §3.1.7).
#[derive(Clone, Debug, PartialEq)]
pub struct MultiPolygon<C> {
    /// The `"type"` member.
    pub kind: MultiPolygonType,
    pub coordinates: Vec<Vec<Vec<Position<C>>>>,
    pub bbox: Option<Bbox<C>>,
}

/// A GeoJSON GeometryCollection (RFC 7946 §3.1.8): a list of geometries.
#[derive(Debug, PartialEq)]
pub struct GeometryCollection<C> {
    /// The `"type"` member.
    pub kind: GeometryCollectionType,
    pub geometries: Vec<Geometry<C>>,
    pub bbox: Option<Bbox<C>>,
}

/// The GeoJSON geometry union (RFC 7946 §3.1).
#[derive(Debug, PartialEq)]
pub enum Geometry<C> {
    Point(Point<C>),
    MultiPoint(MultiPoint<C>),
    LineString(LineString<C>),
    MultiLineString(MultiLineString<C>),
    Polygon(Polygon<C>),
    MultiPolygon(MultiPolygon<C>),
    GeometryCollection(GeometryCollection<C>),
}

// --- mathematical model -------------------------------------------------------

/// A geometry as mathematical values: each variant's coordinates as nested
/// sequences and its bounding box as its flat list of numbers.
pub enum GeometryModel<C> {
    Point { coordinates: Seq<C>, bbox: Option<Seq<C>> },
    MultiPoint { coordinates: Seq<Seq<C>>, bbox: Option<Seq<C>> },
    LineString { coordinates: Seq<Seq<C>>, bbox: Option<Seq<C>> },
    MultiLineString { coordinates: Seq<Seq<Seq<C>>>, bbox: Option<Seq<C>> },
    Polygon { coordinates: Seq<Seq<Seq<C>>>, bbox: Option<Seq<C>> },
    MultiPolygon { coordinates: Seq<Seq<Seq<Seq<C>>>>, bbox: Option<Seq<C>> },
    GeometryCollection { geometries: Seq<GeometryModel<C>>, bbox: Option<Seq<C>> },
}

/// The model of an optional bounding box.
pub open spec fn bbox_model<C>(b: Option<Bbox<C>>) -> Option<Seq<C>> {
    match b {
        Some(b) => Some(b@),
        None => None,
    }
}

/// A list of positions as sequences.
pub open spec fn positions_model<C>(v: Seq<Vec<C>>) -> Seq<Seq<C>> {
    v.map_values(|p: Vec<C>| p@)
}

/// A list of rings (or lines) as sequences.
pub open spec fn rings_model<C>(v: Seq<Vec<Vec<C>>>) -> Seq<Seq<Seq<C>>> {
    v.map_values(|r: Vec<Vec<C>>| positions_model(r@))
}

/// A list of polygons as sequences.
pub open spec fn polygons_model<C>(v: Seq<Vec<Vec<Vec<C>>>>) -> Seq<Seq<Seq<Seq<C>>>> {
    v.map_values(|p: Vec<Vec<Vec<C>>>| rings_model(p@))
}

/// The model of a geometry.
pub open spec fn geometry_model<C>(g: Geometry<C>) -> GeometryModel<C>
    decreases g,
{
    match g {
        Geometry::Point(p) => GeometryModel::Point {
            coordinates: p.coordinates@,
            bbox: bbox_model(p.bbox),
        },
        Geometry::MultiPoint(p) => GeometryModel::MultiPoint {
            coordinates: positions_model(p.coordinates@),
            bbox: bbox_model(p.bbox),
        },
        Geometry::LineString(p) => GeometryModel::LineString {
            coordinates: positions_model(p.coordinates@),
            bbox: bbox_model(p.bbox),
        },
        Geometry::MultiLineString(p) => GeometryModel::MultiLineString {
            coordinates: rings_model(p.coordinates@),
            bbox: bbox_model(p.bbox),
        },
        Geometry::Polygon(p) => GeometryModel::Polygon {
            coordinates: rings_model(p.coordinates@),
            bbox: bbox_model(p.bbox),
        },
        Geometry::MultiPolygon(p) => GeometryModel::MultiPolygon {
            coordinates: polygons_model(p.coordinates@),
            bbox: bbox_model(p.bbox),
        },
        Geometry::GeometryCollection(gc) => GeometryModel::GeometryCollection {
            geometries: geometry_models(gc.geometries@),
            bbox: bbox_model(gc.bbox),
        },
    }
}

/// The models of a list of geometries, in order.
pub open spec fn geometry_models<C>(gs: Seq<Geometry<C>>) -> Seq<GeometryModel<C>>
    decreases gs,
{
    if gs.len() == 0 {
        Seq::empty()
    } else {
        geometry_models(gs.drop_last()).push(geometry_model(gs.last()))
    }
}

impl<C> View for Geometry<C> {
    type V = GeometryModel<C>;

    open spec fn view(&self) -> GeometryModel<C> {
        geometry_model(*self)
    }
}

// --- construction -------------------------------------------------------------

impl<C> Point<C> {
    /// Construct from coordinates (no `bbox`).
    pub fn new(coordinates: Position<C>) -> (g: Self)
        ensures
            g.coordinates == coordinates,
            g.bbox is None,
    {
        Point { kind: PointType::Point, coordinates, bbox: None }
    }
}

impl<C> MultiPoint<C> {
    /// Construct from coordinates (no `bbox`).
    pub fn new(coordinates: Vec<Position<C>>) -> (g: Self)
        ensures
            g.coordinates == coordinates,
            g.bbox is None,
    {
        MultiPoint { kind: MultiPointType::MultiPoint, coordinates, bbox: None }
    }
}

impl<C> LineString<C> {
    /// Construct from coordinates (no `bbox`).
    pub fn new(coordinates: Vec<Position<C>>) -> (g: Self)
        ensures
            g.coordinates == coordinates,
            g.bbox is None,
    {
        LineString { kind: LineStringType::LineString, coordinates, bbox: None }
    }
}

impl<C> MultiLineString<C> {
    /// Construct from coordinates (no `bbox`).
    pub fn new(coordinates: Vec<Vec<Position<C>>>) -> (g: Self)
        ensures
            g.coordinates == coordinates,
            g.bbox is None,
    {
        MultiLineString { kind: MultiLineStringType::MultiLineString, coordinates, bbox: None }
    }
}

impl<C> Polygon<C> {
    /// Construct from rings (no `bbox`).
    pub fn new(coordinates: Vec<Vec<Position<C>>>) -> (g: Self)
        ensures
            g.coordinates == coordinates,
            g.bbox is None,
    {
        Polygon { kind: PolygonType::Polygon, coordinates, bbox: None }
    }
}

impl<C> MultiPolygon<C> {
    /// Construct from polygons (no `bbox`).
    pub fn new(coordinates: Vec<Vec<Vec<Position<C>>>>) -> (g: Self)
        ensures
            g.coordinates == coordinates,
            g.bbox is None,
    {
        MultiPolygon { kind: MultiPolygonType::MultiPolygon, coordinates, bbox: None }
    }
}

impl<C> GeometryCollection<C> {
    /// A `GeometryCollection` from its member geometries (no bbox).
    pub fn new(geometries: Vec<Geometry<C>>) -> (g: Self)
        ensures
            g.geometries == geometries,
            g.bbox is None,
    {
        GeometryCollection {
            kind: GeometryCollectionType::GeometryCollection,
            geometries,
            bbox: None,
        }
    }
}

// --- encoding plan -------------------------------------------------------------

/// A member of an encoded geometry object, in the order it is written.
#[derive(Clone, Copy, Debug, PartialEq, Eq)]
pub enum GeometryMember {
    Type,
    Coordinates,
    Geometries,
    Bbox,
}

/// The members written for a geometry whose content member is `content`:
/// `"type"`, the content, then `"bbox"` only when there is one (an absent
/// bbox is omitted, not written as `null`).
pub open spec fn geometry_members(content: GeometryMember, has_bbox: bool) -> Seq<GeometryMember> {
    if has_bbox {
        seq![GeometryMember::Type, content, GeometryMember::Bbox]
    } else {
        seq![GeometryMember::Type, content]
    }
}

/// A geometry writes its own content member (`coordinates`, or `geometries`
/// for a collection) right after `"type"`, never the other content member,
/// and `"bbox"` exactly when it has one; no member is written twice.
pub proof fn lemma_geometry_members_written(content: GeometryMember, has_bbox: bool)
    requires
        content == GeometryMember::Coordinates || content == GeometryMember::Geometries,
    ensures
        geometry_members(content, has_bbox)[0] == GeometryMember::Type,
        geometry_members(content, has_bbox)[1] == content,
        geometry_members(content, has_bbox).contains(content),
        geometry_members(content, has_bbox).contains(GeometryMember::Bbox) <==> has_bbox,
        forall|m: GeometryMember|
            m != GeometryMember::Type && m != content && m != GeometryMember::Bbox
                ==> !geometry_members(content, has_bbox).contains(m),
        forall|i: int, j: int|
            0 <= i < j < geometry_members(content, has_bbox).len() ==> geometry_members(
                content,
                has_bbox,
            )[i] != geometry_members(content, has_bbox)[j],
{
    let ms = geometry_members(content, has_bbox);
    assert(ms[1] == content);
    if has_bbox {
        assert(ms[2] == GeometryMember::Bbox);
    }
}

/// The members written for a geometry whose content member is `content`, in
/// order.
pub fn geometry_member_plan(content: GeometryMember, has_bbox: bool) -> (plan: Vec<GeometryMember>)
    ensures
        plan@ == geometry_members(content, has_bbox),
        plan@.len() == if has_bbox {
            3int
        } else {
            2int
        },
        plan@[0] == GeometryMember::Type,
        plan@[1] == content,
        has_bbox ==> plan@[2] == GeometryMember::Bbox,
{
    let mut plan = Vec::new();
    plan.push(GeometryMember::Type);
    plan.push(content);
    if has_bbox {
        plan.push(GeometryMember::Bbox);
    }
    assert(plan@ =~= geometry_members(content, has_bbox));
    plan
}

impl<C> Point<C> {
    /// The members written when encoding, in order.
    pub fn members(&self) -> (plan: Vec<GeometryMember>)
        ensures
            plan@ == geometry_members(GeometryMember::Coordinates, self.bbox is Some),
            plan@.contains(GeometryMember::Coordinates),
            !plan@.contains(GeometryMember::Geometries),
            plan@.contains(GeometryMember::Bbox) <==> self.bbox is Some,
    {
        let plan = geometry_member_plan(GeometryMember::Coordinates, self.bbox.is_some());
        proof {
            lemma_geometry_members_written(GeometryMember::Coordinates, self.bbox is Some);
        }
        plan
    }
}

impl<C> MultiPoint<C> {
    /// The members written when encoding, in order.
    pub fn members(&self) -> (plan: Vec<GeometryMember>)
        ensures
            plan@ == geometry_members(GeometryMember::Coordinates, self.bbox is Some),
            plan@.contains(GeometryMember::Coordinates),
            !plan@.contains(GeometryMember::Geometries),
            plan@.contains(GeometryMember::Bbox) <==> self.bbox is Some,
    {
        let plan = geometry_member_plan(GeometryMember::Coordinates, self.bbox.is_some());
        proof {
            lemma_geometry_members_written(GeometryMember::Coordinates, self.bbox is Some);
        }
        plan
    }
}

impl<C> LineString<C> {
    /// The members written when encoding, in order.
    pub fn members(&self) -> (plan: Vec<GeometryMember>)
        ensures
            plan@ == geometry_members(GeometryMember::Coordinates, self.bbox is Some),
            plan@.contains(GeometryMember::Coordinates),
            !plan@.contains(GeometryMember::Geometries),
            plan@.contains(GeometryMember::Bbox) <==> self.bbox is Some,
    {
        let plan = geometry_member_plan(GeometryMember::Coordinates, self.bbox.is_some());
        proof {
            lemma_geometry_members_written(GeometryMember::Coordinates, self.bbox is Some);
        }
        plan
    }
}

impl<C> MultiLineString<C> {
    /// The members written when encoding, in order.
    pub fn members(&self) -> (plan: Vec<GeometryMember>)
        ensures
            plan@ == geometry_members(GeometryMember::Coordinates, self.bbox is Some),
            plan@.contains(GeometryMember::Coordinates),
            !plan@.contains(GeometryMember::Geometries),
            plan@.contains(GeometryMember::Bbox) <==> self.bbox is Some,
    {
        let plan = geometry_member_plan(GeometryMember::Coordinates, self.bbox.is_some());
        proof {
            lemma_geometry_members_written(GeometryMember::Coordinates, self.bbox is Some);
        }
        plan
    }
}

impl<C> Polygon<C> {
    /// The members written when encoding, in order.
    pub fn members(&self) -> (plan: Vec<GeometryMember>)
        ensures
            plan@ == geometry_members(GeometryMember::Coordinates, self.bbox is Some),
            plan@.contains(GeometryMember::Coordinates),
            !plan@.contains(GeometryMember::Geometries),
            plan@.contains(GeometryMember::Bbox) <==> self.bbox is Some,
    {
        let plan = geometry_member_plan(GeometryMember::Coordinates, self.bbox.is_some());
        proof {
            lemma_geometry_members_written(GeometryMember::Coordinates, self.bbox is Some);
        }
        plan
    }
}

impl<C> MultiPolygon<C> {
    /// The members written when encoding, in order.
    pub fn members(&self) -> (plan: Vec<GeometryMember>)
        ensures
            plan@ == geometry_members(GeometryMember::Coordinates, self.bbox is Some),
            plan@.contains(GeometryMember::Coordinates),
            !plan@.contains(GeometryMember::Geometries),
            plan@.contains(GeometryMember::Bbox) <==> self.bbox is Some,
    {
        let plan = geometry_member_plan(GeometryMember::Coordinates, self.bbox.is_some());
        proof {
            lemma_geometry_members_written(GeometryMember::Coordinates, self.bbox is Some);
        }
        plan
    }
}

impl<C> GeometryCollection<C> {
    /// The members written when encoding, in order.
    pub fn members(&self) -> (plan: Vec<GeometryMember>)
        ensures
            plan@ == geometry_members(GeometryMember::Geometries, self.bbox is Some),
            plan@.contains(GeometryMember::Geometries),
            !plan@.contains(GeometryMember::Coordinates),
            plan@.contains(GeometryMember::Bbox) <==> self.bbox is Some,
    {
        let plan = geometry_member_plan(GeometryMember::Geometries, self.bbox.is_some());
        proof {
            lemma_geometry_members_written(GeometryMember::Geometries, self.bbox is Some);
        }
        plan
    }
}

} // verus!
