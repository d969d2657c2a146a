//! Conversions between the GeoJSON geometries and the planar geometry model of
//! `geo_types` (the georust primitive layer): coordinates are `(x, y)` pairs,
//! line strings are lists of coordinates, polygons are an exterior ring and
//! interior rings.
//!
//! - `geo_types` to GeoJSON is infallible: a coordinate becomes the
//!   2-element position `[x, y]`; `Line` becomes a `LineString`, `Rect` and
//!   `Triangle` become a `Polygon`, since GeoJSON has no native form for them.
//! - GeoJSON to `geo_types` is fallible: a position with fewer than two
//!   numbers is an error; any numbers after the second (elevation) are dropped.
//!   The rings of a polygon are closed as `geo_types` closes them: a ring
//!   whose last coordinate differs from its first gets the first again.
use vstd::prelude::*;
use vstd::std_specs::cmp::PartialEqSpec;

use crate::geometry::{
    geometry_model, geometry_models, positions_model, rings_model, polygons_model, Geometry,
    GeometryCollection, GeometryModel, LineString, MultiLineString, MultiPoint, MultiPolygon,
    Point, Polygon, Position,
};

verus! {

broadcast use vstd::std_specs::vec::group_vec_axioms;

/// A planar coordinate `(x, y)`, as `geo_types` holds it.
#[derive(Clone, Copy, Debug, PartialEq)]
pub struct Coord<C> {
    pub x: C,
    pub y: C,
}

/// A planar polygon: an exterior ring, then holes. `geo_types` keeps every
/// ring of a polygon closed (its last coordinate repeats its first, unless it
/// is empty); converting GeoJSON rings closes them so (see [`geo_polygon`]).
#[derive(Clone, Debug, PartialEq)]
pub struct GeoPolygon<C> {
    pub exterior: Vec<Coord<C>>,
    pub interiors: Vec<Vec<Coord<C>>>,
}

/// A planar geometry, as `geo_types` holds it. `Rect` and `Triangle` carry
/// the polygon that `geo_types` gives for them.
#[derive(Debug, PartialEq)]
pub enum GeoGeometry<C> {
    Point(Coord<C>),
    Line(Coord<C>, Coord<C>),
    LineString(Vec<Coord<C>>),
    Polygon(GeoPolygon<C>),
    MultiPoint(Vec<Coord<C>>),
    MultiLineString(Vec<Vec<Coord<C>>>),
    MultiPolygon(Vec<GeoPolygon<C>>),
    GeometryCollection(Vec<GeoGeometry<C>>),
    Rect(GeoPolygon<C>),
    Triangle(GeoPolygon<C>),
}

/// A position with fewer than two numbers has no `(x, y)`.
#[derive(Clone, Copy, Debug, PartialEq, Eq)]
pub struct ArityError {
    /// How many numbers the offending position held.
    pub found: usize,
}

// --- mathematical model -------------------------------------------------------

/// A planar polygon as mathematical values.
pub struct PolygonModel<C> {
    pub exterior: Seq<Coord<C>>,
    pub interiors: Seq<Seq<Coord<C>>>,
}

/// A planar geometry as mathematical values.
pub enum GeoModel<C> {
    Point(Coord<C>),
    Line(Coord<C>, Coord<C>),
    LineString(Seq<Coord<C>>),
    Polygon(PolygonModel<C>),
    MultiPoint(Seq<Coord<C>>),
    MultiLineString(Seq<Seq<Coord<C>>>),
    MultiPolygon(Seq<PolygonModel<C>>),
    GeometryCollection(Seq<GeoModel<C>>),
    Rect(PolygonModel<C>),
    Triangle(PolygonModel<C>),
}

/// The rings of a list of line strings, as sequences.
pub open spec fn lines_model<C>(v: Seq<Vec<Coord<C>>>) -> Seq<Seq<Coord<C>>> {
    v.map_values(|r: Vec<Coord<C>>| r@)
}

impl<C> View for GeoPolygon<C> {
    type V = PolygonModel<C>;

    open spec fn view(&self) -> PolygonModel<C> {
        PolygonModel { exterior: self.exterior@, interiors: lines_model(self.interiors@) }
    }
}

/// The model of a planar geometry.
pub open spec fn geo_model<C>(g: GeoGeometry<C>) -> GeoModel<C>
    decreases g,
{
    match g {
        GeoGeometry::Point(c) => GeoModel::Point(c),
        GeoGeometry::Line(a, b) => GeoModel::Line(a, b),
        GeoGeometry::LineString(s) => GeoModel::LineString(s@),
        GeoGeometry::Polygon(p) => GeoModel::Polygon(p@),
        GeoGeometry::MultiPoint(s) => GeoModel::MultiPoint(s@),
        GeoGeometry::MultiLineString(s) => GeoModel::MultiLineString(lines_model(s@)),
        GeoGeometry::MultiPolygon(s) => GeoModel::MultiPolygon(
            s@.map_values(|p: GeoPolygon<C>| p@),
        ),
        GeoGeometry::GeometryCollection(s) => GeoModel::GeometryCollection(geo_models(s@)),
        GeoGeometry::Rect(p) => GeoModel::Rect(p@),
        GeoGeometry::Triangle(p) => GeoModel::Triangle(p@),
    }
}

/// The models of a list of planar geometries, in order.
pub open spec fn geo_models<C>(gs: Seq<GeoGeometry<C>>) -> Seq<GeoModel<C>>
    decreases gs,
{
    if gs.len() == 0 {
        Seq::empty()
    } else {
        geo_models(gs.drop_last()).push(geo_model(gs.last()))
    }
}

impl<C> View for GeoGeometry<C> {
    type V = GeoModel<C>;

    open spec fn view(&self) -> GeoModel<C> {
        geo_model(*self)
    }
}

// --- geo_types -> GeoJSON (infallible) -----------------------------------------

/// A coordinate as the 2D position `[x, y]`.
pub open spec fn position_of<C>(c: Coord<C>) -> Seq<C> {
    seq![c.x, c.y]
}

/// The vertices of a line string as positions.
pub open spec fn line_positions<C>(s: Seq<Coord<C>>) -> Seq<Seq<C>> {
    s.map_values(|c: Coord<C>| position_of(c))
}

/// The rings of a polygon as lists of positions, exterior first. An empty
/// exterior yields no rings at all.
pub open spec fn polygon_rings_of<C>(p: PolygonModel<C>) -> Seq<Seq<Seq<C>>> {
    if p.exterior.len() == 0 {
        Seq::empty()
    } else {
        seq![line_positions(p.exterior)] + p.interiors.map_values(
            |r: Seq<Coord<C>>| line_positions(r),
        )
    }
}

/// The GeoJSON geometry for a planar geometry (no bounding boxes).
pub open spec fn from_geo<C>(g: GeoModel<C>) -> GeometryModel<C>
    decreases g,
{
    match g {
        GeoModel::Point(c) => GeometryModel::Point { coordinates: position_of(c), bbox: None },
        GeoModel::Line(a, b) => GeometryModel::LineString {
            coordinates: seq![position_of(a), position_of(b)],
            bbox: None,
        },
        GeoModel::LineString(s) => GeometryModel::LineString {
            coordinates: line_positions(s),
            bbox: None,
        },
        GeoModel::Polygon(p) => GeometryModel::Polygon {
            coordinates: polygon_rings_of(p),
            bbox: None,
        },
        GeoModel::MultiPoint(s) => GeometryModel::MultiPoint {
            coordinates: line_positions(s),
            bbox: None,
        },
        GeoModel::MultiLineString(s) => GeometryModel::MultiLineString {
            coordinates: s.map_values(|l: Seq<Coord<C>>| line_positions(l)),
            bbox: None,
        },
        GeoModel::MultiPolygon(s) => GeometryModel::MultiPolygon {
            coordinates: s.map_values(|p: PolygonModel<C>| polygon_rings_of(p)),
            bbox: None,
        },
        GeoModel::GeometryCollection(s) => GeometryModel::GeometryCollection {
            geometries: from_geo_all(s),
            bbox: None,
        },
        GeoModel::Rect(p) => GeometryModel::Polygon {
            coordinates: polygon_rings_of(p),
            bbox: None,
        },
        GeoModel::Triangle(p) => GeometryModel::Polygon {
            coordinates: polygon_rings_of(p),
            bbox: None,
        },
    }
}

/// [`from_geo`] of each element, in order.
pub open spec fn from_geo_all<C>(gs: Seq<GeoModel<C>>) -> Seq<GeometryModel<C>>
    decreases gs,
{
    if gs.len() == 0 {
        Seq::empty()
    } else {
        from_geo_all(gs.drop_last()).push(from_geo(gs.last()))
    }
}

/// A coordinate as the 2D GeoJSON position `[x, y]`.
pub fn position<C: Copy>(c: Coord<C>) -> (p: Position<C>)
    ensures
        p@ == position_of(c),
{
    let p = vec![c.x, c.y];
    assert(p@ =~= position_of(c));
    p
}

/// The vertices of a line string as GeoJSON positions.
pub fn line_string_positions<C: Copy>(ls: &Vec<Coord<C>>) -> (ps: Vec<Position<C>>)
    ensures
        positions_model(ps@) == line_positions(ls@),
{
    let mut ps: Vec<Position<C>> = Vec::new();
    for i in 0..ls.len()
        invariant
            ps@.len() == i,
            forall|j: int| 0 <= j < i ==> (#[trigger] ps@[j])@ == position_of(ls@[j]),
    {
        ps.push(position(ls[i]));
    }
    assert(positions_model(ps@) =~= line_positions(ls@));
    ps
}

/// A polygon as GeoJSON rings (exterior first, then interiors). An empty
/// exterior yields no rings, which avoids `[[]]`.
pub fn polygon_rings<C: Copy>(poly: &GeoPolygon<C>) -> (rings: Vec<Vec<Position<C>>>)
    ensures
        rings_model(rings@) == polygon_rings_of(poly@),
{
    let exterior = line_string_positions(&poly.exterior);
    if exterior.len() == 0 {
        assert(positions_model(exterior@).len() == 0);
        assert(poly.exterior@.len() == line_positions(poly.exterior@).len());
        let rings: Vec<Vec<Position<C>>> = Vec::new();
        assert(rings_model(rings@) =~= polygon_rings_of(poly@));
        return rings;
    }
    let mut rings: Vec<Vec<Position<C>>> = Vec::new();
    rings.push(exterior);
    let n = poly.interiors.len();
    for i in 0..n
        invariant
            n == poly.interiors@.len(),
            rings@.len() == i + 1,
            positions_model(rings@[0]@) == line_positions(poly.exterior@),
            forall|j: int|
                0 <= j < i ==> positions_model((#[trigger] rings@[j + 1])@) == line_positions(
                    poly.interiors@[j]@,
                ),
    {
        let ring = line_string_positions(&poly.interiors[i]);
        rings.push(ring);
    }
    assert(rings_model(rings@) =~= polygon_rings_of(poly@)) by {
        let target = polygon_rings_of(poly@);
        assert(target.len() == rings@.len());
        assert forall|j: int| 0 <= j < rings@.len() implies rings_model(rings@)[j] == target[j] by {
            if j > 0 {
                assert(rings@[(j - 1) + 1] == rings@[j]);
            }
        }
    }
    rings
}

impl<C: Copy> Point<C> {
    /// A coordinate as a GeoJSON Point `[x, y]`.
    pub fn from_geo(c: Coord<C>) -> (p: Point<C>)
        ensures
            p.coordinates@ == position_of(c),
            p.bbox is None,
    {
        Point::new(position(c))
    }
}

impl<C: Copy> MultiPoint<C> {
    /// A set of points as a GeoJSON MultiPoint.
    pub fn from_geo(points: &Vec<Coord<C>>) -> (p: MultiPoint<C>)
        ensures
            positions_model(p.coordinates@) == line_positions(points@),
            p.bbox is None,
    {
        MultiPoint::new(line_string_positions(points))
    }
}

impl<C: Copy> LineString<C> {
    /// A line string as a GeoJSON LineString.
    pub fn from_geo(ls: &Vec<Coord<C>>) -> (p: LineString<C>)
        ensures
            positions_model(p.coordinates@) == line_positions(ls@),
            p.bbox is None,
    {
        LineString::new(line_string_positions(ls))
    }
}

impl<C: Copy> MultiLineString<C> {
    /// A set of line strings as a GeoJSON MultiLineString.
    pub fn from_geo(lines: &Vec<Vec<Coord<C>>>) -> (p: MultiLineString<C>)
        ensures
            rings_model(p.coordinates@) == lines_model(lines@).map_values(
                |l: Seq<Coord<C>>| line_positions(l),
            ),
            p.bbox is None,
    {
        let mut out: Vec<Vec<Position<C>>> = Vec::new();
        for i in 0..lines.len()
            invariant
                out@.len() == i,
                forall|j: int|
                    0 <= j < i ==> positions_model((#[trigger] out@[j])@) == line_positions(
                        lines@[j]@,
                    ),
        {
            out.push(line_string_positions(&lines[i]));
        }
        assert(rings_model(out@) =~= lines_model(lines@).map_values(
            |l: Seq<Coord<C>>| line_positions(l),
        ));
        MultiLineString::new(out)
    }
}

impl<C: Copy> Polygon<C> {
    /// A polygon as a GeoJSON Polygon.
    pub fn from_geo(poly: &GeoPolygon<C>) -> (p: Polygon<C>)
        ensures
            rings_model(p.coordinates@) == polygon_rings_of(poly@),
            p.bbox is None,
    {
        Polygon::new(polygon_rings(poly))
    }
}

impl<C: Copy> MultiPolygon<C> {
    /// A set of polygons as a GeoJSON MultiPolygon.
    pub fn from_geo(polys: &Vec<GeoPolygon<C>>) -> (p: MultiPolygon<C>)
        ensures
            polygons_model(p.coordinates@) == polys@.map_values(
                |q: GeoPolygon<C>| polygon_rings_of(q@),
            ),
            p.bbox is None,
    {
        let mut out: Vec<Vec<Vec<Position<C>>>> = Vec::new();
        for i in 0..polys.len()
            invariant
                out@.len() == i,
                forall|j: int|
                    0 <= j < i ==> rings_model((#[trigger] out@[j])@) == polygon_rings_of(
                        polys@[j]@,
                    ),
        {
            out.push(polygon_rings(&polys[i]));
        }
        assert(polygons_model(out@) =~= polys@.map_values(
            |q: GeoPolygon<C>| polygon_rings_of(q@),
        ));
        MultiPolygon::new(out)
    }
}

impl<C: Copy> GeometryCollection<C> {
    /// A collection of planar geometries as a GeoJSON GeometryCollection.
    pub fn from_geo(gs: &Vec<GeoGeometry<C>>) -> (p: GeometryCollection<C>)
        ensures
            geometry_models(p.geometries@) == from_geo_all(geo_models(gs@)),
            p.bbox is None,
        decreases gs,
    {
        let mut out: Vec<Geometry<C>> = Vec::new();
        let n = gs.len();
        for i in 0..n
            invariant
                n == gs@.len(),
                geometry_models(out@) == from_geo_all(geo_models(gs@.take(i as int))),
        {
            let g = Geometry::from_geo(&gs[i]);
            let ghost before = out@;
            out.push(g);
            proof {
                let prev = geo_models(gs@.take(i as int));
                assert(gs@.take(i + 1).drop_last() =~= gs@.take(i as int));
                assert(gs@.take(i + 1).last() == gs@[i as int]);
                assert(geo_models(gs@.take(i + 1)) == prev.push(geo_model(gs@[i as int])));
                assert(prev.push(geo_model(gs@[i as int])).drop_last() =~= prev);
                assert(out@.drop_last() =~= before);
                assert(geometry_models(out@) == geometry_models(before).push(geometry_model(g)));
            }
        }
        assert(gs@.take(n as int) =~= gs@);
        GeometryCollection::new(out)
    }
}

impl<C: Copy> Geometry<C> {
    /// A planar geometry as a GeoJSON geometry. GeoJSON has no Line, Rect or
    /// Triangle: a Line becomes a two-point LineString, and a Rect or Triangle
    /// becomes the Polygon of its outline.
    pub fn from_geo(g: &GeoGeometry<C>) -> (r: Geometry<C>)
        ensures
            r@ == from_geo(g@),
        decreases g,
    {
        match g {
            GeoGeometry::Point(c) => Geometry::Point(Point::from_geo(*c)),
            GeoGeometry::Line(a, b) => {
                let mut coords: Vec<Position<C>> = Vec::new();
                coords.push(position(*a));
                coords.push(position(*b));
                assert(positions_model(coords@) =~= seq![position_of(*a), position_of(*b)]);
                Geometry::LineString(LineString::new(coords))
            },
            GeoGeometry::LineString(ls) => Geometry::LineString(LineString::from_geo(ls)),
            GeoGeometry::Polygon(p) => Geometry::Polygon(Polygon::from_geo(p)),
            GeoGeometry::MultiPoint(ps) => Geometry::MultiPoint(MultiPoint::from_geo(ps)),
            GeoGeometry::MultiLineString(ls) => Geometry::MultiLineString(
                MultiLineString::from_geo(ls),
            ),
            GeoGeometry::MultiPolygon(ps) => {
                let r = MultiPolygon::from_geo(ps);
                assert(ps@.map_values(|q: GeoPolygon<C>| q@).map_values(
                    |p: PolygonModel<C>| polygon_rings_of(p),
                ) =~= ps@.map_values(|q: GeoPolygon<C>| polygon_rings_of(q@)));
                Geometry::MultiPolygon(r)
            },
            GeoGeometry::GeometryCollection(gs) => Geometry::GeometryCollection(
                GeometryCollection::from_geo(gs),
            ),
            GeoGeometry::Rect(p) => Geometry::Polygon(Polygon::from_geo(p)),
            GeoGeometry::Triangle(p) => Geometry::Polygon(Polygon::from_geo(p)),
        }
    }
}

// --- sequences of models ------------------------------------------------------

/// The models of a list of geometries are the model of each.
pub proof fn lemma_geometry_models_map<C>(s: Seq<Geometry<C>>)
    ensures
        geometry_models(s) == s.map_values(|g: Geometry<C>| geometry_model(g)),
    decreases s.len(),
{
    if s.len() > 0 {
        lemma_geometry_models_map(s.drop_last());
        assert(s.map_values(|g: Geometry<C>| geometry_model(g)) =~= s.drop_last().map_values(
            |g: Geometry<C>| geometry_model(g),
        ).push(geometry_model(s.last())));
    } else {
        assert(s.map_values(|g: Geometry<C>| geometry_model(g)) =~= Seq::empty());
    }
}

/// [`from_geo_all`] converts each element.
pub proof fn lemma_from_geo_all_map<C>(s: Seq<GeoModel<C>>)
    ensures
        from_geo_all(s) == s.map_values(|g: GeoModel<C>| from_geo(g)),
    decreases s.len(),
{
    if s.len() > 0 {
        lemma_from_geo_all_map(s.drop_last());
        assert(s.map_values(|g: GeoModel<C>| from_geo(g)) =~= s.drop_last().map_values(
            |g: GeoModel<C>| from_geo(g),
        ).push(from_geo(s.last())));
    } else {
        assert(s.map_values(|g: GeoModel<C>| from_geo(g)) =~= Seq::empty());
    }
}

// --- GeoJSON -> geo_types (fallible on coordinate arity) ---------------------------

/// The results of a list of fallible conversions, collected: the first error in
/// order, or else every value.
pub open spec fn collect_results<U, E>(rs: Seq<Result<U, E>>) -> Result<Seq<U>, E>
    decreases rs.len(),
{
    if rs.len() == 0 {
        Ok(Seq::empty())
    } else {
        match collect_results(rs.drop_last()) {
            Err(e) => Err(e),
            Ok(us) => match rs.last() {
                Ok(u) => Ok(us.push(u)),
                Err(e) => Err(e),
            },
        }
    }
}

/// A position as a coordinate: its first two numbers, `x` and `y`; any third
/// (elevation) is dropped. Fewer than two numbers is an error.
pub open spec fn coord_of<C>(p: Seq<C>) -> Result<Coord<C>, ArityError> {
    if p.len() >= 2 {
        Ok(Coord { x: p[0], y: p[1] })
    } else {
        Err(ArityError { found: p.len() as usize })
    }
}

/// A list of positions as a line string.
pub open spec fn line_to_geo<C>(ps: Seq<Seq<C>>) -> Result<Seq<Coord<C>>, ArityError> {
    collect_results(ps.map_values(|p: Seq<C>| coord_of(p)))
}

/// A list of lists of positions as line strings.
pub open spec fn lines_to_geo<C>(ls: Seq<Seq<Seq<C>>>) -> Result<Seq<Seq<Coord<C>>>, ArityError> {
    collect_results(ls.map_values(|l: Seq<Seq<C>>| line_to_geo(l)))
}

/// GeoJSON rings as a planar polygon: the first ring is the exterior (empty
/// when there are no rings), the rest are holes.
pub open spec fn open_polygon_to_geo<C>(rings: Seq<Seq<Seq<C>>>) -> Result<PolygonModel<C>, ArityError> {
    if rings.len() == 0 {
        Ok(PolygonModel { exterior: Seq::empty(), interiors: Seq::empty() })
    } else {
        match line_to_geo(rings[0]) {
            Err(e) => Err(e),
            Ok(exterior) => match lines_to_geo(rings.skip(1)) {
                Err(e) => Err(e),
                Ok(interiors) => Ok(PolygonModel { exterior, interiors }),
            },
        }
    }
}

/// The planar geometry for a GeoJSON geometry (its bounding box is not kept).
pub open spec fn open_to_geo<C>(g: GeometryModel<C>) -> Result<GeoModel<C>, ArityError>
    decreases g,
{
    match g {
        GeometryModel::Point { coordinates, .. } => match coord_of(coordinates) {
            Ok(c) => Ok(GeoModel::Point(c)),
            Err(e) => Err(e),
        },
        GeometryModel::MultiPoint { coordinates, .. } => match line_to_geo(coordinates) {
            Ok(s) => Ok(GeoModel::MultiPoint(s)),
            Err(e) => Err(e),
        },
        GeometryModel::LineString { coordinates, .. } => match line_to_geo(coordinates) {
            Ok(s) => Ok(GeoModel::LineString(s)),
            Err(e) => Err(e),
        },
        GeometryModel::MultiLineString { coordinates, .. } => match lines_to_geo(coordinates) {
            Ok(s) => Ok(GeoModel::MultiLineString(s)),
            Err(e) => Err(e),
        },
        GeometryModel::Polygon { coordinates, .. } => match open_polygon_to_geo(coordinates) {
            Ok(p) => Ok(GeoModel::Polygon(p)),
            Err(e) => Err(e),
        },
        GeometryModel::MultiPolygon { coordinates, .. } => match collect_results(
            coordinates.map_values(|p: Seq<Seq<Seq<C>>>| open_polygon_to_geo(p)),
        ) {
            Ok(s) => Ok(GeoModel::MultiPolygon(s)),
            Err(e) => Err(e),
        },
        GeometryModel::GeometryCollection { geometries, .. } => match open_to_geo_all(geometries) {
            Ok(s) => Ok(GeoModel::GeometryCollection(s)),
            Err(e) => Err(e),
        },
    }
}

/// [`to_geo`] of each element, collected: the first error in order, or else
/// every converted geometry.
pub open spec fn open_to_geo_all<C>(gs: Seq<GeometryModel<C>>) -> Result<Seq<GeoModel<C>>, ArityError>
    decreases gs,
{
    if gs.len() == 0 {
        Ok(Seq::empty())
    } else {
        match open_to_geo_all(gs.drop_last()) {
            Err(e) => Err(e),
            Ok(ms) => match open_to_geo(gs.last()) {
                Ok(m) => Ok(ms.push(m)),
                Err(e) => Err(e),
            },
        }
    }
}

/// [`open_to_geo_all`] is [`to_geo`] of each element, collected.
pub proof fn lemma_open_to_geo_all_collect<C>(s: Seq<GeometryModel<C>>)
    ensures
        open_to_geo_all(s) == collect_results(s.map_values(|g: GeometryModel<C>| open_to_geo(g))),
    decreases s.len(),
{
    let f = |g: GeometryModel<C>| open_to_geo(g);
    if s.len() > 0 {
        lemma_open_to_geo_all_collect(s.drop_last());
        assert(s.map_values(f).drop_last() =~= s.drop_last().map_values(f));
    } else {
        assert(s.map_values(f) =~= Seq::empty());
    }
}

/// Collecting the first `i + 1` results extends collecting the first `i`.
pub proof fn lemma_collect_step<U, E>(rs: Seq<Result<U, E>>, i: int)
    requires
        0 <= i < rs.len(),
    ensures
        collect_results(rs.take(i + 1)) == match collect_results(rs.take(i)) {
            Err(e) => Err(e),
            Ok(us) => match rs[i] {
                Ok(u) => Ok(us.push(u)),
                Err(e) => Err(e),
            },
        },
{
    assert(rs.take(i + 1).drop_last() =~= rs.take(i));
}

/// An error among the first `k` results is the error of the whole collection.
pub proof fn lemma_collect_prefix_err<U, E>(rs: Seq<Result<U, E>>, k: int)
    requires
        0 <= k <= rs.len(),
        collect_results(rs.take(k)) is Err,
    ensures
        collect_results(rs) == collect_results(rs.take(k)),
    decreases rs.len() - k,
{
    if k < rs.len() {
        lemma_collect_step(rs, k);
        lemma_collect_prefix_err(rs, k + 1);
    } else {
        assert(rs.take(k) =~= rs);
    }
}

/// A collection succeeds exactly when every result does, and then holds
/// every value in order.
pub proof fn lemma_collect_ok<U, E>(rs: Seq<Result<U, E>>)
    ensures
        collect_results(rs) is Ok <==> forall|i: int| 0 <= i < rs.len() ==> (#[trigger] rs[i]) is Ok,
        collect_results(rs) matches Ok(us) ==> us.len() == rs.len() && forall|i: int|
            0 <= i < rs.len() ==> rs[i] == Ok::<U, E>(#[trigger] us[i]),
    decreases rs.len(),
{
    if rs.len() > 0 {
        let init = rs.drop_last();
        lemma_collect_ok(init);
        if collect_results(rs) is Ok {
            assert forall|i: int| 0 <= i < rs.len() implies (#[trigger] rs[i]) is Ok by {
                if i < rs.len() - 1 {
                    assert(init[i] == rs[i]);
                }
            }
        }
        if forall|i: int| 0 <= i < rs.len() ==> (#[trigger] rs[i]) is Ok {
            assert forall|i: int| 0 <= i < init.len() implies (#[trigger] init[i]) is Ok by {
                assert(init[i] == rs[i]);
            }
        }
    }
}

// --- closing rings ------------------------------------------------------------

/// Two coordinates that compare equal, `x` with `x`, then `y` with `y`.
pub open spec fn same_coord<C: PartialEq>(a: Coord<C>, b: Coord<C>) -> bool {
    a.x.eq_spec(&b.x) && a.y.eq_spec(&b.y)
}

/// A ring as `geo_types` closes it: an empty ring, or one whose first and last
/// coordinates compare equal, stays as it is; any other gets its first
/// coordinate again at the end.
pub open spec fn closed_ring<C: PartialEq>(s: Seq<Coord<C>>) -> Seq<Coord<C>> {
    if s.len() == 0 || same_coord(s[0], s.last()) {
        s
    } else {
        s.push(s[0])
    }
}

/// `t` is the ring `s`, or `s` with its first coordinate again at the end.
pub open spec fn ring_closes<C>(s: Seq<Coord<C>>, t: Seq<Coord<C>>) -> bool {
    t == s || (s.len() > 0 && t == s.push(s[0]))
}

/// A polygon with every ring closed.
pub open spec fn closed_polygon<C: PartialEq>(p: PolygonModel<C>) -> PolygonModel<C> {
    PolygonModel {
        exterior: closed_ring(p.exterior),
        interiors: p.interiors.map_values(|r: Seq<Coord<C>>| closed_ring(r)),
    }
}

/// `q` is the polygon `p` with each ring left or closed.
pub open spec fn polygon_closes<C>(p: PolygonModel<C>, q: PolygonModel<C>) -> bool {
    &&& ring_closes(p.exterior, q.exterior)
    &&& q.interiors.len() == p.interiors.len()
    &&& forall|i: int|
        0 <= i < p.interiors.len() ==> ring_closes(#[trigger] p.interiors[i], q.interiors[i])
}

/// `qs` are the polygons `ps`, each with its rings left or closed.
pub open spec fn polygons_close<C>(ps: Seq<PolygonModel<C>>, qs: Seq<PolygonModel<C>>) -> bool {
    &&& qs.len() == ps.len()
    &&& forall|i: int| 0 <= i < ps.len() ==> polygon_closes(#[trigger] ps[i], qs[i])
}

/// A planar geometry with the rings of its polygons closed, at any depth.
pub open spec fn closed_geo<C: PartialEq>(g: GeoModel<C>) -> GeoModel<C>
    decreases g,
{
    match g {
        GeoModel::Polygon(p) => GeoModel::Polygon(closed_polygon(p)),
        GeoModel::MultiPolygon(ps) => GeoModel::MultiPolygon(
            ps.map_values(|p: PolygonModel<C>| closed_polygon(p)),
        ),
        GeoModel::GeometryCollection(gs) => GeoModel::GeometryCollection(closed_geo_all(gs)),
        _ => g,
    }
}

/// [`closed_geo`] of each element, in order.
pub open spec fn closed_geo_all<C: PartialEq>(gs: Seq<GeoModel<C>>) -> Seq<GeoModel<C>>
    decreases gs,
{
    if gs.len() == 0 {
        Seq::empty()
    } else {
        closed_geo_all(gs.drop_last()).push(closed_geo(gs.last()))
    }
}

/// `h` is the planar geometry `g` with each ring of its polygons, at any
/// depth, left or closed.
pub open spec fn geo_closes<C>(g: GeoModel<C>, h: GeoModel<C>) -> bool
    decreases g,
{
    match (g, h) {
        (GeoModel::Polygon(p), GeoModel::Polygon(q)) => polygon_closes(p, q),
        (GeoModel::MultiPolygon(ps), GeoModel::MultiPolygon(qs)) => polygons_close(ps, qs),
        (GeoModel::GeometryCollection(gs), GeoModel::GeometryCollection(hs)) => {
            &&& hs.len() == gs.len()
            &&& forall|i: int| 0 <= i < gs.len() ==> geo_closes(#[trigger] gs[i], hs[i])
        },
        _ => h == g,
    }
}

/// GeoJSON rings as a planar polygon, its rings closed as `geo_types` closes
/// them.
pub open spec fn polygon_to_geo<C: PartialEq>(rings: Seq<Seq<Seq<C>>>) -> Result<
    PolygonModel<C>,
    ArityError,
> {
    match open_polygon_to_geo(rings) {
        Ok(p) => Ok(closed_polygon(p)),
        Err(e) => Err(e),
    }
}

/// The planar geometry for a GeoJSON geometry, the rings of its polygons
/// closed as `geo_types` closes them.
pub open spec fn to_geo<C: PartialEq>(g: GeometryModel<C>) -> Result<GeoModel<C>, ArityError> {
    match open_to_geo(g) {
        Ok(h) => Ok(closed_geo(h)),
        Err(e) => Err(e),
    }
}

/// Close a ring as `geo_types` closes one: when it is not empty and its first
/// and last coordinates do not compare equal, its first coordinate is added at
/// the end. Where `==` on `C` is specified, which of the two happens is
/// stated; otherwise only that one of them does.
fn close_ring<C: Copy + PartialEq>(ring: &mut Vec<Coord<C>>)
    ensures
        ring_closes(old(ring)@, final(ring)@),
        C::obeys_eq_spec() ==> final(ring)@ == closed_ring(old(ring)@),
{
    let n = ring.len();
    if n > 0 {
        let first = ring[0];
        let last = ring[n - 1];
        if !(first.x == last.x && first.y == last.y) {
            ring.push(first);
        }
    }
}

/// A GeoJSON position as a coordinate, taking the first two numbers (`x`,
/// `y`) and ignoring any third (elevation).
pub fn coord<C: Copy>(pos: &Position<C>) -> (r: Result<Coord<C>, ArityError>)
    ensures
        r == coord_of(pos@),
{
    if pos.len() >= 2 {
        Ok(Coord { x: pos[0], y: pos[1] })
    } else {
        Err(ArityError { found: pos.len() })
    }
}

/// A list of GeoJSON positions as a line string; the first position with
/// fewer than two numbers is the error.
pub fn geo_line_string<C: Copy>(ring: &Vec<Position<C>>) -> (r: Result<Vec<Coord<C>>, ArityError>)
    ensures
        r matches Ok(v) ==> line_to_geo(positions_model(ring@)) == Ok::<_, ArityError>(v@),
        r matches Err(e) ==> line_to_geo(positions_model(ring@)) == Err::<Seq<Coord<C>>, _>(e),
{
    let ghost rs = positions_model(ring@).map_values(|p: Seq<C>| coord_of(p));
    let mut out: Vec<Coord<C>> = Vec::new();
    let n = ring.len();
    for i in 0..n
        invariant
            n == ring@.len(),
            rs == positions_model(ring@).map_values(|p: Seq<C>| coord_of(p)),
            collect_results(rs.take(i as int)) == Ok::<_, ArityError>(out@),
    {
        proof {
            lemma_collect_step(rs, i as int);
        }
        match coord(&ring[i]) {
            Ok(c) => out.push(c),
            Err(e) => {
                proof {
                    lemma_collect_prefix_err(rs, i + 1);
                }
                return Err(e);
            },
        }
    }
    assert(rs.take(n as int) =~= rs);
    Ok(out)
}

/// GeoJSON rings as a planar polygon: the first ring is the exterior (an
/// empty one when there are no rings), the others are holes; each ring is
/// closed as `geo_types` closes it.
pub fn geo_polygon<C: Copy + PartialEq>(rings: &Vec<Vec<Position<C>>>) -> (r: Result<
    GeoPolygon<C>,
    ArityError,
>)
    ensures
        r matches Ok(p) ==> open_polygon_to_geo(rings_model(rings@)) matches Ok(raw)
            && polygon_closes(raw, p@),
        r matches Ok(p) ==> (C::obeys_eq_spec() ==> polygon_to_geo(rings_model(rings@)) == Ok::<
            _,
            ArityError,
        >(p@)),
        r matches Err(e) ==> open_polygon_to_geo(rings_model(rings@)) == Err::<
            PolygonModel<C>,
            _,
        >(e),
{
    let ghost model = rings_model(rings@);
    let n = rings.len();
    if n == 0 {
        let p = GeoPolygon { exterior: Vec::new(), interiors: Vec::new() };
        assert(p@.exterior =~= Seq::<Coord<C>>::empty());
        assert(p@.interiors =~= Seq::<Seq<Coord<C>>>::empty());
        assert(closed_polygon(p@).interiors =~= p@.interiors);
        assert(closed_polygon(p@) == p@);
        return Ok(p);
    }
    let mut exterior = match geo_line_string(&rings[0]) {
        Ok(v) => v,
        Err(e) => return Err(e),
    };
    let ghost raw_exterior = exterior@;
    close_ring(&mut exterior);
    let ghost rs = model.skip(1).map_values(|l: Seq<Seq<C>>| line_to_geo(l));
    let ghost mut raw_interiors: Seq<Seq<Coord<C>>> = Seq::empty();
    let mut interiors: Vec<Vec<Coord<C>>> = Vec::new();
    let mut i: usize = 1;
    while i < n
        invariant
            n == rings@.len(),
            1 <= i <= n,
            model == rings_model(rings@),
            rs == model.skip(1).map_values(|l: Seq<Seq<C>>| line_to_geo(l)),
            rs.len() == n - 1,
            line_to_geo(model[0]) == Ok::<_, ArityError>(raw_exterior),
            collect_results(rs.take(i - 1)) == Ok::<_, ArityError>(raw_interiors),
            interiors@.len() == raw_interiors.len(),
            forall|k: int|
                0 <= k < raw_interiors.len() ==> ring_closes(
                    #[trigger] raw_interiors[k],
                    interiors@[k]@,
                ),
            C::obeys_eq_spec() ==> forall|k: int|
                0 <= k < raw_interiors.len() ==> interiors@[k]@ == closed_ring(
                    #[trigger] raw_interiors[k],
                ),
        decreases n - i,
    {
        proof {
            lemma_collect_step(rs, i - 1);
            assert(rs[i - 1] == line_to_geo(positions_model(rings@[i as int]@)));
        }
        match geo_line_string(&rings[i]) {
            Ok(v) => {
                let mut v = v;
                let ghost raw_v = v@;
                close_ring(&mut v);
                proof {
                    raw_interiors = raw_interiors.push(raw_v);
                }
                interiors.push(v);
            },
            Err(e) => {
                proof {
                    lemma_collect_prefix_err(rs, i as int);
                }
                return Err(e);
            },
        }
        i = i + 1;
    }
    assert(rs.take(n - 1) =~= rs);
    let p = GeoPolygon { exterior, interiors };
    let ghost raw = PolygonModel { exterior: raw_exterior, interiors: raw_interiors };
    assert(open_polygon_to_geo(model) == Ok::<_, ArityError>(raw));
    assert(polygon_closes(raw, p@));
    assert(C::obeys_eq_spec() ==> p@.interiors =~= raw_interiors.map_values(
        |r: Seq<Coord<C>>| closed_ring(r),
    ));
    Ok(p)
}

impl<C: Copy> Point<C> {
    /// The planar coordinate of this point; fails when the position has fewer
    /// than two numbers.
    pub fn to_geo(&self) -> (r: Result<Coord<C>, ArityError>)
        ensures
            r == coord_of(self.coordinates@),
    {
        coord(&self.coordinates)
    }
}

impl<C: Copy> MultiPoint<C> {
    /// The planar points; fails at the first position with fewer than two
    /// numbers.
    pub fn to_geo(&self) -> (r: Result<Vec<Coord<C>>, ArityError>)
        ensures
            r matches Ok(v) ==> line_to_geo(positions_model(self.coordinates@)) == Ok::<
                _,
                ArityError,
            >(v@),
            r matches Err(e) ==> line_to_geo(positions_model(self.coordinates@)) == Err::<
                Seq<Coord<C>>,
                _,
            >(e),
    {
        geo_line_string(&self.coordinates)
    }
}

impl<C: Copy> LineString<C> {
    /// The planar line string; fails at the first position with fewer than
    /// two numbers.
    pub fn to_geo(&self) -> (r: Result<Vec<Coord<C>>, ArityError>)
        ensures
            r matches Ok(v) ==> line_to_geo(positions_model(self.coordinates@)) == Ok::<
                _,
                ArityError,
            >(v@),
            r matches Err(e) ==> line_to_geo(positions_model(self.coordinates@)) == Err::<
                Seq<Coord<C>>,
                _,
            >(e),
    {
        geo_line_string(&self.coordinates)
    }
}

impl<C: Copy> MultiLineString<C> {
    /// The planar line strings; fails at the first position with fewer than
    /// two numbers.
    pub fn to_geo(&self) -> (r: Result<Vec<Vec<Coord<C>>>, ArityError>)
        ensures
            r matches Ok(v) ==> lines_to_geo(rings_model(self.coordinates@)) == Ok::<
                _,
                ArityError,
            >(lines_model(v@)),
            r matches Err(e) ==> lines_to_geo(rings_model(self.coordinates@)) == Err::<
                Seq<Seq<Coord<C>>>,
                _,
            >(e),
    {
        let ghost rs = rings_model(self.coordinates@).map_values(
            |l: Seq<Seq<C>>| line_to_geo(l),
        );
        let mut out: Vec<Vec<Coord<C>>> = Vec::new();
        let n = self.coordinates.len();
        assert(lines_model(out@) =~= Seq::<Seq<Coord<C>>>::empty());
        for i in 0..n
            invariant
                n == self.coordinates@.len(),
                rs == rings_model(self.coordinates@).map_values(|l: Seq<Seq<C>>| line_to_geo(l)),
                collect_results(rs.take(i as int)) == Ok::<_, ArityError>(lines_model(out@)),
        {
            proof {
                lemma_collect_step(rs, i as int);
            }
            match geo_line_string(&self.coordinates[i]) {
                Ok(v) => {
                    let ghost before = out@;
                    out.push(v);
                    assert(lines_model(out@) =~= lines_model(before).push(v@));
                },
                Err(e) => {
                    proof {
                        lemma_collect_prefix_err(rs, i + 1);
                    }
                    return Err(e);
                },
            }
        }
        assert(rs.take(n as int) =~= rs);
        Ok(out)
    }
}

impl<C: Copy + PartialEq> Polygon<C> {
    /// The planar polygon, each ring closed as `geo_types` closes it; fails at
    /// the first position with fewer than two numbers.
    pub fn to_geo(&self) -> (r: Result<GeoPolygon<C>, ArityError>)
        ensures
            r matches Ok(p) ==> open_polygon_to_geo(rings_model(self.coordinates@)) matches Ok(raw)
                && polygon_closes(raw, p@),
            r matches Ok(p) ==> (C::obeys_eq_spec() ==> polygon_to_geo(
                rings_model(self.coordinates@),
            ) == Ok::<_, ArityError>(p@)),
            r matches Err(e) ==> open_polygon_to_geo(rings_model(self.coordinates@)) == Err::<
                PolygonModel<C>,
                _,
            >(e),
    {
        geo_polygon(&self.coordinates)
    }
}

impl<C: Copy + PartialEq> MultiPolygon<C> {
    /// The planar polygons, each ring closed as `geo_types` closes it; fails at
    /// the first position with fewer than two numbers.
    pub fn to_geo(&self) -> (r: Result<Vec<GeoPolygon<C>>, ArityError>)
        ensures
            r matches Ok(v) ==> collect_results(
                polygons_model(self.coordinates@).map_values(
                    |p: Seq<Seq<Seq<C>>>| open_polygon_to_geo(p),
                ),
            ) matches Ok(raws) && polygons_close(raws, v@.map_values(|q: GeoPolygon<C>| q@)) && (
            C::obeys_eq_spec() ==> v@.map_values(|q: GeoPolygon<C>| q@) == raws.map_values(
                |p: PolygonModel<C>| closed_polygon(p),
            )),
            r matches Err(e) ==> collect_results(
                polygons_model(self.coordinates@).map_values(
                    |p: Seq<Seq<Seq<C>>>| open_polygon_to_geo(p),
                ),
            ) == Err::<Seq<PolygonModel<C>>, _>(e),
    {
        let ghost rs = polygons_model(self.coordinates@).map_values(
            |p: Seq<Seq<Seq<C>>>| open_polygon_to_geo(p),
        );
        let ghost mut raws: Seq<PolygonModel<C>> = Seq::empty();
        let mut out: Vec<GeoPolygon<C>> = Vec::new();
        let n = self.coordinates.len();
        for i in 0..n
            invariant
                n == self.coordinates@.len(),
                rs == polygons_model(self.coordinates@).map_values(
                    |p: Seq<Seq<Seq<C>>>| open_polygon_to_geo(p),
                ),
                collect_results(rs.take(i as int)) == Ok::<_, ArityError>(raws),
                polygons_close(raws, out@.map_values(|q: GeoPolygon<C>| q@)),
                C::obeys_eq_spec() ==> out@.map_values(|q: GeoPolygon<C>| q@) == raws.map_values(
                    |p: PolygonModel<C>| closed_polygon(p),
                ),
        {
            proof {
                lemma_collect_step(rs, i as int);
            }
            match geo_polygon(&self.coordinates[i]) {
                Ok(p) => {
                    let ghost raw = rs[i as int]->Ok_0;
                    let ghost before = out@;
                    let ghost raws_before = raws;
                    out.push(p);
                    proof {
                        raws = raws.push(raw);
                    }
                    assert(out@.map_values(|q: GeoPolygon<C>| q@) =~= before.map_values(
                        |q: GeoPolygon<C>| q@,
                    ).push(p@));
                    assert(raws.map_values(|p: PolygonModel<C>| closed_polygon(p))
                        =~= raws_before.map_values(|p: PolygonModel<C>| closed_polygon(p)).push(
                        closed_polygon(raw),
                    ));
                },
                Err(e) => {
                    proof {
                        lemma_collect_prefix_err(rs, i + 1);
                    }
                    return Err(e);
                },
            }
        }
        assert(rs.take(n as int) =~= rs);
        Ok(out)
    }
}

impl<C: Copy + PartialEq> GeometryCollection<C> {
    /// The planar geometries, the rings of their polygons closed as
    /// `geo_types` closes them; fails at the first position, in order, with
    /// fewer than two numbers.
    pub fn to_geo(&self) -> (r: Result<Vec<GeoGeometry<C>>, ArityError>)
        ensures
            r matches Ok(v) ==> open_to_geo_all(geometry_models(self.geometries@)) matches Ok(raws)
                && geo_models(v@).len() == raws.len() && (forall|i: int|
                0 <= i < raws.len() ==> geo_closes(#[trigger] raws[i], geo_models(v@)[i])) && (
            C::obeys_eq_spec() ==> geo_models(v@) == closed_geo_all(raws)),
            r matches Err(e) ==> open_to_geo_all(geometry_models(self.geometries@)) == Err::<
                Seq<GeoModel<C>>,
                _,
            >(e),
        decreases self,
    {
        let ghost gs = self.geometries@;
        let ghost rs = gs.map_values(|g: Geometry<C>| geometry_model(g)).map_values(
            |g: GeometryModel<C>| open_to_geo(g),
        );
        proof {
            lemma_geometry_models_map(gs);
            lemma_open_to_geo_all_collect(geometry_models(gs));
        }
        assert(open_to_geo_all(geometry_models(gs)) == collect_results(rs));
        let ghost mut raws: Seq<GeoModel<C>> = Seq::empty();
        let mut out: Vec<GeoGeometry<C>> = Vec::new();
        let n = self.geometries.len();
        for i in 0..n
            invariant
                n == gs.len(),
                gs == self.geometries@,
                rs == gs.map_values(|g: Geometry<C>| geometry_model(g)).map_values(
                    |g: GeometryModel<C>| open_to_geo(g),
                ),
                collect_results(rs.take(i as int)) == Ok::<_, ArityError>(raws),
                open_to_geo_all(geometry_models(gs)) == collect_results(rs),
                geo_models(out@).len() == raws.len(),
                forall|k: int|
                    0 <= k < raws.len() ==> geo_closes(#[trigger] raws[k], geo_models(out@)[k]),
                C::obeys_eq_spec() ==> geo_models(out@) == closed_geo_all(raws),
        {
            proof {
                lemma_collect_step(rs, i as int);
            }
            match self.geometries[i].to_geo() {
                Ok(g) => {
                    let ghost raw = rs[i as int]->Ok_0;
                    let ghost before = out@;
                    let ghost raws_before = raws;
                    out.push(g);
                    proof {
                        raws = raws.push(raw);
                    }
                    assert(out@.drop_last() =~= before);
                    assert(raws.drop_last() =~= raws_before);
                    assert(geo_models(out@) == geo_models(before).push(g@));
                    assert forall|k: int| 0 <= k < raws.len() implies geo_closes(
                        #[trigger] raws[k],
                        geo_models(out@)[k],
                    ) by {
                        if k < raws.len() - 1 {
                            assert(raws[k] == raws_before[k]);
                        }
                    }
                },
                Err(e) => {
                    proof {
                        lemma_collect_prefix_err(rs, i + 1);
                    }
                    return Err(e);
                },
            }
        }
        assert(rs.take(n as int) =~= rs);
        Ok(out)
    }
}

impl<C: Copy + PartialEq> Geometry<C> {
    /// The planar geometry, the rings of its polygons closed as `geo_types`
    /// closes them; fails at the first position, in order, with fewer than two
    /// numbers. Elevations and bounding boxes are not kept.
    pub fn to_geo(&self) -> (r: Result<GeoGeometry<C>, ArityError>)
        ensures
            r matches Ok(g) ==> open_to_geo(self@) matches Ok(raw) && geo_closes(raw, g@),
            r matches Ok(g) ==> (C::obeys_eq_spec() ==> to_geo(self@) == Ok::<_, ArityError>(g@)),
            r matches Err(e) ==> open_to_geo(self@) == Err::<GeoModel<C>, _>(e),
        decreases self,
    {
        match self {
            Geometry::Point(p) => match p.to_geo() {
                Ok(c) => Ok(GeoGeometry::Point(c)),
                Err(e) => Err(e),
            },
            Geometry::MultiPoint(p) => match p.to_geo() {
                Ok(v) => Ok(GeoGeometry::MultiPoint(v)),
                Err(e) => Err(e),
            },
            Geometry::LineString(p) => match p.to_geo() {
                Ok(v) => Ok(GeoGeometry::LineString(v)),
                Err(e) => Err(e),
            },
            Geometry::MultiLineString(p) => match p.to_geo() {
                Ok(v) => Ok(GeoGeometry::MultiLineString(v)),
                Err(e) => Err(e),
            },
            Geometry::Polygon(p) => match p.to_geo() {
                Ok(v) => Ok(GeoGeometry::Polygon(v)),
                Err(e) => Err(e),
            },
            Geometry::MultiPolygon(p) => match p.to_geo() {
                Ok(v) => Ok(GeoGeometry::MultiPolygon(v)),
                Err(e) => Err(e),
            },
            Geometry::GeometryCollection(gc) => match gc.to_geo() {
                Ok(v) => Ok(GeoGeometry::GeometryCollection(v)),
                Err(e) => Err(e),
            },
        }
    }
}

} // verus!
