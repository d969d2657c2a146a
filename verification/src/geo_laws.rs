//! What the conversions between GeoJSON and planar geometries promise as a
//! whole: which GeoJSON geometries convert, and which survive a round trip in
//! either direction.
use vstd::prelude::*;
use vstd::std_specs::cmp::PartialEqSpec;

use crate::geo_bridge::{
    closed_geo, closed_geo_all, closed_polygon, collect_results, coord_of, from_geo, from_geo_all,
    lemma_collect_ok, lemma_from_geo_all_map, lemma_open_to_geo_all_collect, line_positions,
    line_to_geo, lines_to_geo, open_polygon_to_geo, open_to_geo, open_to_geo_all,
    polygon_rings_of, polygon_to_geo, position_of, ring_closes, closed_ring, same_coord, to_geo, Coord,
    GeoModel, PolygonModel,
};
use crate::geometry::GeometryModel;

verus! {

// --- which positions convert -----------------------------------------------------

/// Every position in the list has at least two numbers.
pub open spec fn all_have_xy<C>(ps: Seq<Seq<C>>) -> bool {
    forall|i: int| 0 <= i < ps.len() ==> (#[trigger] ps[i]).len() >= 2
}

/// Every position in every list has at least two numbers.
pub open spec fn all_lines_have_xy<C>(ls: Seq<Seq<Seq<C>>>) -> bool {
    forall|i: int| 0 <= i < ls.len() ==> all_have_xy(#[trigger] ls[i])
}

/// Every position of the geometry, at any depth, has at least two numbers.
pub open spec fn positions_have_xy<C>(g: GeometryModel<C>) -> bool
    decreases g,
{
    match g {
        GeometryModel::Point { coordinates, .. } => coordinates.len() >= 2,
        GeometryModel::MultiPoint { coordinates, .. } => all_have_xy(coordinates),
        GeometryModel::LineString { coordinates, .. } => all_have_xy(coordinates),
        GeometryModel::MultiLineString { coordinates, .. } => all_lines_have_xy(coordinates),
        GeometryModel::Polygon { coordinates, .. } => all_lines_have_xy(coordinates),
        GeometryModel::MultiPolygon { coordinates, .. } => forall|i: int|
            0 <= i < coordinates.len() ==> all_lines_have_xy(#[trigger] coordinates[i]),
        GeometryModel::GeometryCollection { geometries, .. } => forall|i: int|
            0 <= i < geometries.len() ==> positions_have_xy(#[trigger] geometries[i]),
    }
}

/// A list of results all of which succeed collects to its values.
pub proof fn lemma_collect_all_ok<U, E>(rs: Seq<Result<U, E>>, us: Seq<U>)
    requires
        rs.len() == us.len(),
        forall|i: int| 0 <= i < rs.len() ==> #[trigger] rs[i] == Ok::<U, E>(us[i]),
    ensures
        collect_results(rs) == Ok::<Seq<U>, E>(us),
    decreases rs.len(),
{
    if rs.len() > 0 {
        lemma_collect_all_ok(rs.drop_last(), us.drop_last());
        assert(us.drop_last().push(us.last()) =~= us);
    } else {
        assert(us =~= Seq::<U>::empty());
    }
}

proof fn lemma_line_ok_iff<C>(ps: Seq<Seq<C>>)
    ensures
        line_to_geo(ps) is Ok <==> all_have_xy(ps),
{
    let rs = ps.map_values(|p: Seq<C>| coord_of(p));
    lemma_collect_ok(rs);
    if all_have_xy(ps) {
        assert forall|i: int| 0 <= i < rs.len() implies (#[trigger] rs[i]) is Ok by {
            assert(ps[i].len() >= 2);
        }
    }
    if line_to_geo(ps) is Ok {
        assert forall|i: int| 0 <= i < ps.len() implies (#[trigger] ps[i]).len() >= 2 by {
            assert(rs[i] is Ok);
        }
    }
}

proof fn lemma_lines_ok_iff<C>(ls: Seq<Seq<Seq<C>>>)
    ensures
        lines_to_geo(ls) is Ok <==> all_lines_have_xy(ls),
{
    let rs = ls.map_values(|l: Seq<Seq<C>>| line_to_geo(l));
    lemma_collect_ok(rs);
    assert forall|i: int| 0 <= i < ls.len() implies (#[trigger] rs[i] is Ok <==> all_have_xy(
        ls[i],
    )) by {
        lemma_line_ok_iff(ls[i]);
    }
    if all_lines_have_xy(ls) {
        assert forall|i: int| 0 <= i < rs.len() implies (#[trigger] rs[i]) is Ok by {
            assert(all_have_xy(ls[i]));
        }
    }
    if lines_to_geo(ls) is Ok {
        assert forall|i: int| 0 <= i < ls.len() implies all_have_xy(#[trigger] ls[i]) by {
            assert(rs[i] is Ok);
        }
    }
}

proof fn lemma_polygon_ok_iff<C>(rings: Seq<Seq<Seq<C>>>)
    ensures
        open_polygon_to_geo(rings) is Ok <==> all_lines_have_xy(rings),
{
    if rings.len() > 0 {
        let holes = rings.skip(1);
        lemma_line_ok_iff(rings[0]);
        lemma_lines_ok_iff(holes);
        if all_lines_have_xy(rings) {
            assert(all_have_xy(rings[0]));
            assert forall|i: int| 0 <= i < holes.len() implies all_have_xy(#[trigger] holes[i]) by {
                assert(holes[i] == rings[i + 1]);
            }
        }
        if open_polygon_to_geo(rings) is Ok {
            assert forall|i: int| 0 <= i < rings.len() implies all_have_xy(#[trigger] rings[i]) by {
                if i > 0 {
                    assert(holes[i - 1] == rings[i]);
                }
            }
        }
    }
}

proof fn lemma_open_to_geo_ok_iff<C>(g: GeometryModel<C>)
    ensures
        open_to_geo(g) is Ok <==> positions_have_xy(g),
    decreases g,
{
    match g {
        GeometryModel::Point { coordinates, .. } => {},
        GeometryModel::MultiPoint { coordinates, .. } => {
            lemma_line_ok_iff(coordinates);
        },
        GeometryModel::LineString { coordinates, .. } => {
            lemma_line_ok_iff(coordinates);
        },
        GeometryModel::MultiLineString { coordinates, .. } => {
            lemma_lines_ok_iff(coordinates);
        },
        GeometryModel::Polygon { coordinates, .. } => {
            lemma_polygon_ok_iff(coordinates);
        },
        GeometryModel::MultiPolygon { coordinates, .. } => {
            let rs = coordinates.map_values(|p: Seq<Seq<Seq<C>>>| open_polygon_to_geo(p));
            lemma_collect_ok(rs);
            assert forall|i: int| 0 <= i < coordinates.len() implies (#[trigger] rs[i] is Ok
                <==> all_lines_have_xy(coordinates[i])) by {
                lemma_polygon_ok_iff(coordinates[i]);
            }
            if positions_have_xy(g) {
                assert forall|i: int| 0 <= i < rs.len() implies (#[trigger] rs[i]) is Ok by {
                    assert(all_lines_have_xy(coordinates[i]));
                }
            }
            if open_to_geo(g) is Ok {
                assert forall|i: int| 0 <= i < coordinates.len() implies all_lines_have_xy(
                    #[trigger] coordinates[i],
                ) by {
                    assert(rs[i] is Ok);
                }
            }
        },
        GeometryModel::GeometryCollection { geometries, .. } => {
            let rs = geometries.map_values(|h: GeometryModel<C>| open_to_geo(h));
            lemma_open_to_geo_all_collect(geometries);
            lemma_collect_ok(rs);
            assert forall|i: int| 0 <= i < geometries.len() implies (#[trigger] rs[i] is Ok
                <==> positions_have_xy(geometries[i])) by {
                lemma_open_to_geo_ok_iff(geometries[i]);
            }
            if positions_have_xy(g) {
                assert forall|i: int| 0 <= i < rs.len() implies (#[trigger] rs[i]) is Ok by {
                    assert(positions_have_xy(geometries[i]));
                }
            }
            if open_to_geo(g) is Ok {
                assert forall|i: int| 0 <= i < geometries.len() implies positions_have_xy(
                    #[trigger] geometries[i],
                ) by {
                    assert(rs[i] is Ok);
                }
            }
        },
    }
}

/// Converting a GeoJSON geometry to a planar one succeeds exactly when every
/// position, at any depth, has at least two numbers; closing the rings of its
/// polygons never fails.
pub proof fn lemma_to_geo_ok_iff<C: PartialEq>(g: GeometryModel<C>)
    ensures
        to_geo(g) is Ok <==> positions_have_xy(g),
        open_to_geo(g) is Ok <==> positions_have_xy(g),
{
    lemma_open_to_geo_ok_iff(g);
}

// --- closed rings --------------------------------------------------------------

/// A ring that is empty or whose first and last coordinates compare equal:
/// one that closing leaves as it is.
pub open spec fn ring_is_closed<C: PartialEq>(s: Seq<Coord<C>>) -> bool {
    s.len() == 0 || same_coord(s[0], s.last())
}

/// A polygon whose rings are all closed.
pub open spec fn polygon_is_closed<C: PartialEq>(p: PolygonModel<C>) -> bool {
    &&& ring_is_closed(p.exterior)
    &&& forall|i: int| 0 <= i < p.interiors.len() ==> ring_is_closed(#[trigger] p.interiors[i])
}

/// A planar geometry whose polygons, at any depth, have closed rings only.
pub open spec fn geo_is_closed<C: PartialEq>(g: GeoModel<C>) -> bool
    decreases g,
{
    match g {
        GeoModel::Polygon(p) => polygon_is_closed(p),
        GeoModel::MultiPolygon(ps) => forall|i: int|
            0 <= i < ps.len() ==> polygon_is_closed(#[trigger] ps[i]),
        GeoModel::GeometryCollection(gs) => forall|i: int|
            0 <= i < gs.len() ==> geo_is_closed(#[trigger] gs[i]),
        _ => true,
    }
}

proof fn lemma_closed_polygon_id<C: PartialEq>(p: PolygonModel<C>)
    requires
        polygon_is_closed(p),
    ensures
        closed_polygon(p) == p,
{
    assert(closed_polygon(p).interiors =~= p.interiors);
}

/// Closing the rings of a geometry whose rings are all closed changes
/// nothing.
pub proof fn lemma_closed_geo_id<C: PartialEq>(g: GeoModel<C>)
    requires
        geo_is_closed(g),
    ensures
        closed_geo(g) == g,
    decreases g,
{
    match g {
        GeoModel::Polygon(p) => lemma_closed_polygon_id(p),
        GeoModel::MultiPolygon(ps) => {
            assert forall|i: int| 0 <= i < ps.len() implies closed_polygon(#[trigger] ps[i])
                == ps[i] by {
                lemma_closed_polygon_id(ps[i]);
            }
            assert(ps.map_values(|p: PolygonModel<C>| closed_polygon(p)) =~= ps);
        },
        GeoModel::GeometryCollection(gs) => lemma_closed_geo_all_id(gs),
        _ => {},
    }
}

proof fn lemma_closed_geo_all_id<C: PartialEq>(gs: Seq<GeoModel<C>>)
    requires
        forall|i: int| 0 <= i < gs.len() ==> geo_is_closed(#[trigger] gs[i]),
    ensures
        closed_geo_all(gs) == gs,
    decreases gs,
{
    if gs.len() > 0 {
        let init = gs.drop_last();
        assert forall|i: int| 0 <= i < init.len() implies geo_is_closed(#[trigger] init[i]) by {
            assert(init[i] == gs[i]);
        }
        lemma_closed_geo_all_id(init);
        lemma_closed_geo_id(gs.last());
        assert(init.push(gs.last()) =~= gs);
    }
}

// --- planar -> GeoJSON -> planar --------------------------------------------------

/// A planar polygon whose exterior is empty only when it has no holes either
/// (converting to GeoJSON drops the holes of a polygon with an empty exterior).
pub open spec fn polygon_is_native<C>(p: PolygonModel<C>) -> bool {
    p.exterior.len() > 0 || p.interiors.len() == 0
}

/// A planar geometry with a native GeoJSON form: no Line, Rect or Triangle at
/// any depth, and no polygon with holes but an empty exterior.
pub open spec fn is_native<C>(g: GeoModel<C>) -> bool
    decreases g,
{
    match g {
        GeoModel::Line(..) => false,
        GeoModel::Rect(..) => false,
        GeoModel::Triangle(..) => false,
        GeoModel::Polygon(p) => polygon_is_native(p),
        GeoModel::MultiPolygon(ps) => forall|i: int|
            0 <= i < ps.len() ==> polygon_is_native(#[trigger] ps[i]),
        GeoModel::GeometryCollection(gs) => forall|i: int|
            0 <= i < gs.len() ==> is_native(#[trigger] gs[i]),
        _ => true,
    }
}

proof fn lemma_line_from_geo_back<C>(s: Seq<Coord<C>>)
    ensures
        line_to_geo(line_positions(s)) == Ok::<_, crate::geo_bridge::ArityError>(s),
{
    let rs = line_positions(s).map_values(|p: Seq<C>| coord_of(p));
    assert forall|i: int| 0 <= i < rs.len() implies #[trigger] rs[i] == Ok::<
        Coord<C>,
        crate::geo_bridge::ArityError,
    >(s[i]) by {
        assert(line_positions(s)[i] == position_of(s[i]));
    }
    lemma_collect_all_ok(rs, s);
}

proof fn lemma_lines_from_geo_back<C>(ls: Seq<Seq<Coord<C>>>)
    ensures
        lines_to_geo(ls.map_values(|l: Seq<Coord<C>>| line_positions(l))) == Ok::<
            _,
            crate::geo_bridge::ArityError,
        >(ls),
{
    let rs = ls.map_values(|l: Seq<Coord<C>>| line_positions(l)).map_values(
        |l: Seq<Seq<C>>| line_to_geo(l),
    );
    assert forall|i: int| 0 <= i < rs.len() implies #[trigger] rs[i] == Ok::<
        Seq<Coord<C>>,
        crate::geo_bridge::ArityError,
    >(ls[i]) by {
        lemma_line_from_geo_back(ls[i]);
    }
    lemma_collect_all_ok(rs, ls);
}

proof fn lemma_polygon_from_geo_back<C>(p: PolygonModel<C>)
    requires
        polygon_is_native(p),
    ensures
        open_polygon_to_geo(polygon_rings_of(p)) == Ok::<_, crate::geo_bridge::ArityError>(p),
{
    let rings = polygon_rings_of(p);
    if p.exterior.len() == 0 {
        assert(p.exterior =~= Seq::<Coord<C>>::empty());
        assert(p.interiors =~= Seq::<Seq<Coord<C>>>::empty());
    } else {
        let holes = p.interiors.map_values(|r: Seq<Coord<C>>| line_positions(r));
        assert(rings.skip(1) =~= holes);
        assert(rings[0] == line_positions(p.exterior));
        lemma_line_from_geo_back(p.exterior);
        lemma_lines_from_geo_back(p.interiors);
    }
}

proof fn lemma_open_geo_round_trip<C>(g: GeoModel<C>)
    requires
        is_native(g),
    ensures
        open_to_geo(from_geo(g)) == Ok::<_, crate::geo_bridge::ArityError>(g),
    decreases g,
{
    match g {
        GeoModel::Point(c) => {},
        GeoModel::LineString(s) => {
            lemma_line_from_geo_back(s);
        },
        GeoModel::MultiPoint(s) => {
            lemma_line_from_geo_back(s);
        },
        GeoModel::MultiLineString(ls) => {
            lemma_lines_from_geo_back(ls);
        },
        GeoModel::Polygon(p) => {
            lemma_polygon_from_geo_back(p);
        },
        GeoModel::MultiPolygon(ps) => {
            let rs = ps.map_values(|p: PolygonModel<C>| polygon_rings_of(p)).map_values(
                |p: Seq<Seq<Seq<C>>>| open_polygon_to_geo(p),
            );
            assert forall|i: int| 0 <= i < rs.len() implies #[trigger] rs[i] == Ok::<
                PolygonModel<C>,
                crate::geo_bridge::ArityError,
            >(ps[i]) by {
                lemma_polygon_from_geo_back(ps[i]);
            }
            lemma_collect_all_ok(rs, ps);
        },
        GeoModel::GeometryCollection(gs) => {
            let back = from_geo_all(gs);
            lemma_from_geo_all_map(gs);
            lemma_open_to_geo_all_collect(back);
            let rs = back.map_values(|h: GeometryModel<C>| open_to_geo(h));
            assert forall|i: int| 0 <= i < rs.len() implies #[trigger] rs[i] == Ok::<
                GeoModel<C>,
                crate::geo_bridge::ArityError,
            >(gs[i]) by {
                lemma_open_geo_round_trip(gs[i]);
            }
            lemma_collect_all_ok(rs, gs);
        },
        _ => {},
    }
}

/// A planar geometry with a native GeoJSON form and closed rings (as every
/// `geo_types` polygon has) converts to GeoJSON and back unchanged.
pub proof fn lemma_geo_round_trip<C: PartialEq>(g: GeoModel<C>)
    requires
        is_native(g),
        geo_is_closed(g),
    ensures
        to_geo(from_geo(g)) == Ok::<_, crate::geo_bridge::ArityError>(g),
{
    lemma_open_geo_round_trip(g);
    lemma_closed_geo_id(g);
}

// --- GeoJSON -> planar -> GeoJSON -------------------------------------------------

/// Every position in the list has exactly two numbers.
pub open spec fn all_2d<C>(ps: Seq<Seq<C>>) -> bool {
    forall|i: int| 0 <= i < ps.len() ==> (#[trigger] ps[i]).len() == 2
}

/// A GeoJSON ring that is empty, or whose first and last positions have `x`
/// and `y` that compare equal.
pub open spec fn positions_closed<C: PartialEq>(ps: Seq<Seq<C>>) -> bool {
    ps.len() == 0 || (ps[0][0].eq_spec(&ps.last()[0]) && ps[0][1].eq_spec(&ps.last()[1]))
}

/// Polygon rings that a planar polygon reproduces: 2D positions, closed
/// rings, and a first ring that is not empty (or no rings at all).
pub open spec fn rings_are_planar<C: PartialEq>(rings: Seq<Seq<Seq<C>>>) -> bool {
    &&& rings.len() == 0 || rings[0].len() > 0
    &&& forall|i: int| 0 <= i < rings.len() ==> all_2d(#[trigger] rings[i])
    &&& forall|i: int| 0 <= i < rings.len() ==> positions_closed(#[trigger] rings[i])
}

/// A GeoJSON geometry that a planar geometry reproduces exactly: every
/// position is 2D (no elevation), no bounding box at any depth, and no
/// polygon with an empty exterior ring or with a ring that is not closed.
pub open spec fn is_planar<C: PartialEq>(g: GeometryModel<C>) -> bool
    decreases g,
{
    match g {
        GeometryModel::Point { coordinates, bbox } => coordinates.len() == 2 && bbox is None,
        GeometryModel::MultiPoint { coordinates, bbox } => all_2d(coordinates) && bbox is None,
        GeometryModel::LineString { coordinates, bbox } => all_2d(coordinates) && bbox is None,
        GeometryModel::MultiLineString { coordinates, bbox } => (forall|i: int|
            0 <= i < coordinates.len() ==> all_2d(#[trigger] coordinates[i])) && bbox is None,
        GeometryModel::Polygon { coordinates, bbox } => rings_are_planar(coordinates)
            && bbox is None,
        GeometryModel::MultiPolygon { coordinates, bbox } => (forall|i: int|
            0 <= i < coordinates.len() ==> rings_are_planar(#[trigger] coordinates[i]))
            && bbox is None,
        GeometryModel::GeometryCollection { geometries, bbox } => (forall|i: int|
            0 <= i < geometries.len() ==> is_planar(#[trigger] geometries[i])) && bbox is None,
    }
}

proof fn lemma_line_to_geo_back<C>(ps: Seq<Seq<C>>)
    requires
        all_2d(ps),
    ensures
        line_to_geo(ps) == Ok::<_, crate::geo_bridge::ArityError>(
            ps.map_values(|p: Seq<C>| Coord { x: p[0], y: p[1] }),
        ),
        line_to_geo(ps) matches Ok(s) && line_positions(s) == ps,
{
    let s = ps.map_values(|p: Seq<C>| Coord { x: p[0], y: p[1] });
    let rs = ps.map_values(|p: Seq<C>| coord_of(p));
    assert forall|i: int| 0 <= i < rs.len() implies #[trigger] rs[i] == Ok::<
        Coord<C>,
        crate::geo_bridge::ArityError,
    >(s[i]) by {
        assert(ps[i].len() == 2);
    }
    lemma_collect_all_ok(rs, s);
    assert forall|i: int| 0 <= i < ps.len() implies #[trigger] line_positions(s)[i] == ps[i] by {
        assert(ps[i].len() == 2);
        assert(position_of(s[i]) =~= ps[i]);
    }
    assert(line_positions(s) =~= ps);
}

proof fn lemma_ring_closed_back<C: PartialEq>(ps: Seq<Seq<C>>)
    requires
        all_2d(ps),
        positions_closed(ps),
    ensures
        line_to_geo(ps) matches Ok(s) && ring_is_closed(s),
{
    lemma_line_to_geo_back(ps);
    let s = ps.map_values(|p: Seq<C>| Coord { x: p[0], y: p[1] });
    if ps.len() > 0 {
        assert(s.last() == Coord { x: ps.last()[0], y: ps.last()[1] });
    }
}

proof fn lemma_lines_to_geo_back<C>(ls: Seq<Seq<Seq<C>>>)
    requires
        forall|i: int| 0 <= i < ls.len() ==> all_2d(#[trigger] ls[i]),
    ensures
        lines_to_geo(ls) matches Ok(s) && s.map_values(|l: Seq<Coord<C>>| line_positions(l)) == ls,
{
    let rs = ls.map_values(|l: Seq<Seq<C>>| line_to_geo(l));
    let s = ls.map_values(|l: Seq<Seq<C>>| line_to_geo(l)->Ok_0);
    assert forall|i: int| 0 <= i < rs.len() implies #[trigger] rs[i] == Ok::<
        Seq<Coord<C>>,
        crate::geo_bridge::ArityError,
    >(s[i]) by {
        lemma_line_to_geo_back(ls[i]);
    }
    lemma_collect_all_ok(rs, s);
    let back = s.map_values(|l: Seq<Coord<C>>| line_positions(l));
    assert forall|i: int| 0 <= i < ls.len() implies #[trigger] back[i] == ls[i] by {
        lemma_line_to_geo_back(ls[i]);
    }
    assert(back =~= ls);
}

proof fn lemma_polygon_to_geo_back<C: PartialEq>(rings: Seq<Seq<Seq<C>>>)
    requires
        rings_are_planar(rings),
    ensures
        open_polygon_to_geo(rings) matches Ok(p) && polygon_rings_of(p) == rings
            && polygon_is_closed(p),
{
    if rings.len() == 0 {
        assert(polygon_rings_of(open_polygon_to_geo(rings)->Ok_0) =~= rings);
    } else {
        let holes = rings.skip(1);
        assert(all_2d(rings[0]));
        lemma_line_to_geo_back(rings[0]);
        assert forall|i: int| 0 <= i < holes.len() implies all_2d(#[trigger] holes[i]) by {
            assert(holes[i] == rings[i + 1]);
        }
        lemma_lines_to_geo_back(holes);
        let p = open_polygon_to_geo(rings)->Ok_0;
        assert(p.exterior.len() == rings[0].len());
        lemma_ring_closed_back(rings[0]);
        assert forall|i: int| 0 <= i < p.interiors.len() implies ring_is_closed(
            #[trigger] p.interiors[i],
        ) by {
            assert(holes[i] == rings[i + 1]);
            lemma_ring_closed_back(holes[i]);
            lemma_collect_ok(holes.map_values(|l: Seq<Seq<C>>| line_to_geo(l)));
        }
        assert(polygon_rings_of(p) =~= rings) by {
            assert(polygon_rings_of(p)[0] == rings[0]);
            assert forall|i: int| 1 <= i < rings.len() implies #[trigger] polygon_rings_of(p)[i]
                == rings[i] by {
                assert(holes[i - 1] == rings[i]);
            }
        }
    }
}

proof fn lemma_open_geojson_round_trip<C: PartialEq>(g: GeometryModel<C>)
    requires
        is_planar(g),
    ensures
        open_to_geo(g) matches Ok(h) && from_geo(h) == g && geo_is_closed(h),
    decreases g,
{
    match g {
        GeometryModel::Point { coordinates, bbox } => {
            let h = open_to_geo(g)->Ok_0;
            assert(position_of(h->Point_0) =~= coordinates);

        },
        GeometryModel::MultiPoint { coordinates, bbox } => {
            lemma_line_to_geo_back(coordinates);
        },
        GeometryModel::LineString { coordinates, bbox } => {
            lemma_line_to_geo_back(coordinates);
        },
        GeometryModel::MultiLineString { coordinates, bbox } => {
            lemma_lines_to_geo_back(coordinates);
        },
        GeometryModel::Polygon { coordinates, bbox } => {
            lemma_polygon_to_geo_back(coordinates);
        },
        GeometryModel::MultiPolygon { coordinates, bbox } => {
            let rs = coordinates.map_values(|p: Seq<Seq<Seq<C>>>| open_polygon_to_geo(p));
            let ps = coordinates.map_values(|p: Seq<Seq<Seq<C>>>| open_polygon_to_geo(p)->Ok_0);
            assert forall|i: int| 0 <= i < rs.len() implies #[trigger] rs[i] == Ok::<
                PolygonModel<C>,
                crate::geo_bridge::ArityError,
            >(ps[i]) by {
                lemma_polygon_to_geo_back(coordinates[i]);
            }
            lemma_collect_all_ok(rs, ps);
            let back = ps.map_values(|p: PolygonModel<C>| polygon_rings_of(p));
            assert forall|i: int| 0 <= i < coordinates.len() implies #[trigger] back[i]
                == coordinates[i] by {
                lemma_polygon_to_geo_back(coordinates[i]);
            }
            assert(back =~= coordinates);
            assert forall|i: int| 0 <= i < ps.len() implies polygon_is_closed(#[trigger] ps[i]) by {
                lemma_polygon_to_geo_back(coordinates[i]);
            }
        },
        GeometryModel::GeometryCollection { geometries, bbox } => {
            let rs = geometries.map_values(|h: GeometryModel<C>| open_to_geo(h));
            let hs = geometries.map_values(|h: GeometryModel<C>| open_to_geo(h)->Ok_0);
            lemma_open_to_geo_all_collect(geometries);
            assert forall|i: int| 0 <= i < rs.len() implies #[trigger] rs[i] == Ok::<
                GeoModel<C>,
                crate::geo_bridge::ArityError,
            >(hs[i]) by {
                lemma_open_geojson_round_trip(geometries[i]);
            }
            lemma_collect_all_ok(rs, hs);
            lemma_from_geo_all_map(hs);
            assert forall|i: int| 0 <= i < geometries.len() implies #[trigger] from_geo_all(hs)[i]
                == geometries[i] by {
                lemma_open_geojson_round_trip(geometries[i]);
            }
            assert(from_geo_all(hs) =~= geometries);
            assert forall|i: int| 0 <= i < hs.len() implies geo_is_closed(#[trigger] hs[i]) by {
                lemma_open_geojson_round_trip(geometries[i]);
            }
        },
    }
}

/// A GeoJSON geometry with 2D positions, closed rings, no bounding boxes and
/// no polygon with an empty exterior ring converts to a planar geometry and
/// back unchanged.
pub proof fn lemma_geojson_round_trip<C: PartialEq>(g: GeometryModel<C>)
    requires
        is_planar(g),
    ensures
        to_geo(g) matches Ok(h) && from_geo(h) == g,
{
    lemma_open_geojson_round_trip(g);
    lemma_closed_geo_id(open_to_geo(g)->Ok_0);
}


// --- outline shapes ----------------------------------------------------------------

/// A `geo_types` Rect or Triangle converts to the same GeoJSON Polygon as its
/// outline polygon does, and (for an outline with closed rings and a
/// non-empty exterior, as `geo_types` gives) converting that Polygon back
/// gives the outline polygon again.
pub proof fn lemma_outline_shapes_convert_as_polygons<C: PartialEq>(p: PolygonModel<C>)
    ensures
        from_geo(GeoModel::Triangle(p)) == from_geo(GeoModel::Polygon(p)),
        from_geo(GeoModel::Rect(p)) == from_geo(GeoModel::Polygon(p)),
        polygon_is_native(p) && polygon_is_closed(p) ==> to_geo(from_geo(GeoModel::Triangle(p)))
            == Ok::<_, crate::geo_bridge::ArityError>(GeoModel::Polygon(p)),
        polygon_is_native(p) && polygon_is_closed(p) ==> to_geo(from_geo(GeoModel::Rect(p)))
            == Ok::<_, crate::geo_bridge::ArityError>(GeoModel::Polygon(p)),
{
    if polygon_is_native(p) && polygon_is_closed(p) {
        lemma_geo_round_trip(GeoModel::Polygon(p));
    }
}

/// A `geo_types` Line converts to the same GeoJSON as the two-point line
/// string from its start to its end, and that converts back to the line
/// string.
pub proof fn lemma_line_converts_as_line_string<C: PartialEq>(a: Coord<C>, b: Coord<C>)
    ensures
        from_geo(GeoModel::Line(a, b)) == from_geo(GeoModel::LineString(seq![a, b])),
        to_geo(from_geo(GeoModel::Line(a, b))) == Ok::<_, crate::geo_bridge::ArityError>(
            GeoModel::LineString(seq![a, b]),
        ),
{
    assert(line_positions(seq![a, b]) =~= seq![position_of(a), position_of(b)]);
    lemma_geo_round_trip(GeoModel::LineString(seq![a, b]));
}

// --- what conversion to planar geometry reads -----------------------------------------

/// The same GeoJSON geometry with its own bounding box (seen as its flat list)
/// replaced by `b`.
pub open spec fn with_bbox<C>(g: GeometryModel<C>, b: Option<Seq<C>>) -> GeometryModel<C> {
    match g {
        GeometryModel::Point { coordinates, .. } => GeometryModel::Point { coordinates, bbox: b },
        GeometryModel::MultiPoint { coordinates, .. } => GeometryModel::MultiPoint {
            coordinates,
            bbox: b,
        },
        GeometryModel::LineString { coordinates, .. } => GeometryModel::LineString {
            coordinates,
            bbox: b,
        },
        GeometryModel::MultiLineString { coordinates, .. } => GeometryModel::MultiLineString {
            coordinates,
            bbox: b,
        },
        GeometryModel::Polygon { coordinates, .. } => GeometryModel::Polygon {
            coordinates,
            bbox: b,
        },
        GeometryModel::MultiPolygon { coordinates, .. } => GeometryModel::MultiPolygon {
            coordinates,
            bbox: b,
        },
        GeometryModel::GeometryCollection { geometries, .. } => GeometryModel::GeometryCollection {
            geometries,
            bbox: b,
        },
    }
}

/// Converting a GeoJSON geometry to a planar one ignores its bounding box: the
/// same geometry with any other bounding box, or none, converts to the same
/// result.
pub proof fn lemma_to_geo_ignores_bbox<C: PartialEq>(g: GeometryModel<C>, b: Option<Seq<C>>)
    ensures
        to_geo(with_bbox(g, b)) == to_geo(g),
        open_to_geo(with_bbox(g, b)) == open_to_geo(g),
{
}

/// Converting GeoJSON polygon rings keeps every ring: the first becomes the
/// exterior and each later one an interior ring, in order, each made of the
/// ring's `(x, y)` coordinates, closed or left as it is.
pub proof fn lemma_polygon_rings_kept<C: PartialEq>(rings: Seq<Seq<Seq<C>>>)
    ensures
        polygon_to_geo(rings) matches Ok(p) ==> {
            &&& p.interiors.len() == if rings.len() == 0 {
                0
            } else {
                rings.len() - 1
            }
            &&& rings.len() == 0 ==> p.exterior.len() == 0
            &&& rings.len() > 0 ==> (line_to_geo(rings[0]) matches Ok(s) && ring_closes(
                s,
                p.exterior,
            ))
            &&& forall|i: int|
                0 <= i < p.interiors.len() ==> (line_to_geo(#[trigger] rings[i + 1]) matches Ok(s)
                    && ring_closes(s, p.interiors[i]))
        },
{
    if rings.len() > 0 && open_polygon_to_geo(rings) is Ok {
        let holes = rings.skip(1);
        let rs = holes.map_values(|l: Seq<Seq<C>>| line_to_geo(l));
        lemma_collect_ok(rs);
        let raw = open_polygon_to_geo(rings)->Ok_0;
        assert forall|i: int| 0 <= i < raw.interiors.len() implies (line_to_geo(
            #[trigger] rings[i + 1],
        ) matches Ok(s) && ring_closes(s, closed_ring(raw.interiors[i]))) by {
            assert(holes[i] == rings[i + 1]);
            assert(rs[i] == line_to_geo(holes[i]));
        }
    }
}

} // verus!
