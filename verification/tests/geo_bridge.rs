use typed_geojson::{
    ArityError, Coord, GeoGeometry, GeoPolygon, Geometry, GeometryCollection, LineString,
    MultiPoint, MultiPolygon, Point, Polygon,
};

fn c(x: f64, y: f64) -> Coord<f64> {
    Coord { x, y }
}

#[test]
fn point_round_trips_through_geo_types() {
    let ours = Point::new(vec![-96.8, 32.8]);
    let geo = ours.to_geo().unwrap();
    assert_eq!(geo, c(-96.8, 32.8));
    // geo -> ours reproduces the 2D position.
    assert_eq!(Point::from_geo(geo), ours);
}

#[test]
fn elevation_is_dropped_like_upstream() {
    // A 3D position converts (x, y kept; z dropped).
    let p3d = Point::new(vec![1.0, 2.0, 3.0]);
    let geo = p3d.to_geo().unwrap();
    assert_eq!(geo, c(1.0, 2.0));
}

#[test]
fn short_position_is_an_error() {
    let bad = Point::new(vec![1.0]);
    let err = bad.to_geo().unwrap_err();
    assert_eq!(err, ArityError { found: 1 });
}

fn square_with_hole() -> Polygon<f64> {
    Polygon::new(vec![
        vec![
            vec![0.0, 0.0],
            vec![4.0, 0.0],
            vec![4.0, 4.0],
            vec![0.0, 4.0],
            vec![0.0, 0.0],
        ],
        vec![vec![1.0, 1.0], vec![2.0, 1.0], vec![1.0, 2.0], vec![1.0, 1.0]],
    ])
}

#[test]
fn polygon_rings_survive_both_directions() {
    // A square with a triangular hole: exterior ring + one interior ring.
    let ours = square_with_hole();
    let geo = ours.to_geo().unwrap();
    assert_eq!(geo.interiors.len(), 1);
    assert_eq!(Polygon::from_geo(&geo), ours);
}

#[test]
fn geo_line_and_triangle_degrade_to_geojson_shapes() {
    let line = GeoGeometry::Line(c(0.0, 0.0), c(1.0, 1.0));
    assert!(matches!(Geometry::from_geo(&line), Geometry::LineString(_)));

    // The polygon outline of the triangle (0,0) (2,0) (1,1).
    let tri = GeoGeometry::Triangle(GeoPolygon {
        exterior: vec![c(0.0, 0.0), c(2.0, 0.0), c(1.0, 1.0), c(0.0, 0.0)],
        interiors: vec![],
    });
    assert!(matches!(Geometry::from_geo(&tri), Geometry::Polygon(_)));
}

#[test]
fn geometry_union_round_trips() {
    let ours = Geometry::MultiPoint(MultiPoint::new(vec![vec![0.0, 0.0], vec![1.0, 1.0]]));
    let geo = ours.to_geo().unwrap();
    assert_eq!(Geometry::from_geo(&geo), ours);
}

#[test]
fn line_becomes_two_point_line_string() {
    let line = GeoGeometry::Line(c(0.5, 1.5), c(2.5, 3.5));
    assert_eq!(
        Geometry::from_geo(&line),
        Geometry::LineString(LineString::new(vec![vec![0.5, 1.5], vec![2.5, 3.5]]))
    );
}

#[test]
fn rect_becomes_its_outline_polygon() {
    let outline = vec![c(1.0, 0.0), c(1.0, 1.0), c(0.0, 1.0), c(0.0, 0.0), c(1.0, 0.0)];
    let rect = GeoGeometry::Rect(GeoPolygon { exterior: outline, interiors: vec![] });
    assert_eq!(
        Geometry::from_geo(&rect),
        Geometry::Polygon(Polygon::new(vec![vec![
            vec![1.0, 0.0],
            vec![1.0, 1.0],
            vec![0.0, 1.0],
            vec![0.0, 0.0],
            vec![1.0, 0.0],
        ]]))
    );
}

#[test]
fn empty_exterior_yields_no_rings() {
    let poly = GeoPolygon::<f64> {
        exterior: vec![],
        interiors: vec![vec![c(1.0, 1.0), c(2.0, 2.0)]],
    };
    assert_eq!(Polygon::from_geo(&poly), Polygon::new(vec![]));
}

#[test]
fn no_rings_give_an_empty_exterior() {
    let poly = Polygon::<f64>::new(vec![]);
    assert_eq!(poly.to_geo().unwrap(), GeoPolygon { exterior: vec![], interiors: vec![] });
}

#[test]
fn first_short_position_in_order_is_the_error() {
    let gc = Geometry::GeometryCollection(GeometryCollection::new(vec![
        Geometry::Point(Point::new(vec![1.0, 2.0])),
        Geometry::MultiPolygon(MultiPolygon::new(vec![vec![vec![
            vec![0.0, 0.0],
            vec![3.0],
            vec![],
        ]]])),
        Geometry::Point(Point::new(vec![])),
    ]));
    assert_eq!(gc.to_geo().unwrap_err(), ArityError { found: 1 });
}

#[test]
fn nested_collection_round_trips() {
    let ours = Geometry::GeometryCollection(GeometryCollection::new(vec![
        Geometry::Point(Point::new(vec![1.0, 2.0])),
        Geometry::GeometryCollection(GeometryCollection::new(vec![Geometry::Polygon(
            square_with_hole(),
        )])),
        Geometry::LineString(LineString::new(vec![vec![5.0, 6.0], vec![7.0, 8.0]])),
    ]));
    let geo = ours.to_geo().unwrap();
    match &geo {
        GeoGeometry::GeometryCollection(gs) => assert_eq!(gs.len(), 3),
        _ => panic!("expected a collection"),
    }
    assert_eq!(Geometry::from_geo(&geo), ours);
}

#[test]
fn position_is_x_then_y() {
    assert_eq!(typed_geojson::position(c(3.0, -4.0)), vec![3.0, -4.0]);
    assert_eq!(typed_geojson::coord(&vec![7.0, 8.0, 9.0]), Ok(c(7.0, 8.0)));
    assert_eq!(typed_geojson::coord(&Vec::<f64>::new()), Err(ArityError { found: 0 }));
}

#[test]
fn open_rings_are_closed_like_geo_types() {
    let open = Polygon::new(vec![
        vec![vec![0.0, 0.0], vec![1.0, 1.0], vec![1.0, 0.0]],
        vec![vec![0.2, 0.1], vec![0.8, 0.1], vec![0.8, 0.5]],
    ]);
    let geo = open.to_geo().unwrap();
    assert_eq!(geo.exterior, vec![c(0.0, 0.0), c(1.0, 1.0), c(1.0, 0.0), c(0.0, 0.0)]);
    assert_eq!(geo.interiors, vec![vec![c(0.2, 0.1), c(0.8, 0.1), c(0.8, 0.5), c(0.2, 0.1)]]);
    assert_eq!(typed_geojson::geo_polygon(&open.coordinates).unwrap(), geo);
}

#[test]
fn closed_rings_are_left_as_they_are() {
    let geo = square_with_hole().to_geo().unwrap();
    assert_eq!(geo.exterior.len(), 5);
    assert_eq!(geo.interiors[0].len(), 4);
}

#[test]
fn rings_close_over_integer_coordinates_too() {
    let open: Polygon<i64> = Polygon::new(vec![vec![vec![0, 0], vec![2, 0], vec![1, 1]], vec![]]);
    let geo = open.to_geo().unwrap();
    assert_eq!(
        geo.exterior,
        vec![Coord { x: 0, y: 0 }, Coord { x: 2, y: 0 }, Coord { x: 1, y: 1 }, Coord { x: 0, y: 0 }]
    );
    assert_eq!(geo.interiors, vec![Vec::<Coord<i64>>::new()]);
    let single: Polygon<i64> = Polygon::new(vec![vec![vec![5, 5]]]);
    assert_eq!(single.to_geo().unwrap().exterior, vec![Coord { x: 5, y: 5 }]);
}

#[test]
fn multipolygon_and_collection_rings_are_closed() {
    let mp = Geometry::MultiPolygon(MultiPolygon::new(vec![vec![vec![
        vec![0.0, 0.0],
        vec![3.0, 0.0],
        vec![0.0, 3.0],
    ]]]));
    let gc = Geometry::GeometryCollection(GeometryCollection::new(vec![mp]));
    match gc.to_geo().unwrap() {
        GeoGeometry::GeometryCollection(gs) => match &gs[0] {
            GeoGeometry::MultiPolygon(ps) => {
                assert_eq!(ps[0].exterior, vec![c(0.0, 0.0), c(3.0, 0.0), c(0.0, 3.0), c(0.0, 0.0)])
            }
            _ => panic!("expected a multipolygon"),
        },
        _ => panic!("expected a collection"),
    }
}
