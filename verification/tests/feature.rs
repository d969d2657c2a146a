use typed_geojson::{
    bbox_from_vec, bbox_into_vec, collection_field, feature_field, from_untyped, properties_value,
    to_untyped, typed_foreign_members, untyped_foreign_members, untyped_properties, Bbox,
    BboxLengthError, CollectionDecoder, CollectionField, CollectionMember, DecodeError, Feature,
    FeatureCollection, FeatureDecoder, FeatureField, FeatureMember, FeatureType, GeometryMember,
    Id, JsonShape, NotAnObject, Point, UntypedFeature,
};

#[derive(Debug, PartialEq)]
struct Alert {
    event: String,
    severity: u8,
}

fn alert(event: &str, severity: u8) -> Alert {
    Alert { event: event.to_string(), severity }
}

type AlertFeature = Feature<Option<Point<f64>>, Alert, f64>;

/// Decode the members that encoding writes for `f`, in the order written.
fn reencode(f: AlertFeature) -> Result<AlertFeature, DecodeError> {
    let plan = f.members();
    let Feature { geometry, properties, id, bbox, foreign_members } = f;
    let mut geometry = Some(geometry);
    let mut properties = Some(properties);
    let mut id = Some(id);
    let mut bbox = Some(bbox);
    let mut foreign: Vec<Option<(String, serde_json::Value)>> =
        foreign_members.into_iter().map(Some).collect();
    let mut d = FeatureDecoder::new();
    for m in plan {
        match m {
            FeatureMember::Type => d.accept_type(FeatureType::Feature.name())?,
            FeatureMember::Geometry => d.set_geometry(geometry.take().unwrap()),
            FeatureMember::Properties => d.set_properties(properties.take().unwrap()),
            FeatureMember::Id => d.set_id(id.take().unwrap()),
            FeatureMember::Bbox => d.set_bbox(bbox.take().unwrap()),
            FeatureMember::Foreign(i) => {
                let (k, v) = foreign[i].take().unwrap();
                assert_eq!(feature_field(&k), FeatureField::Other);
                d.add_foreign(k, v)
            }
        }
    }
    d.finish()
}

type AlertCollection = FeatureCollection<Option<Point<f64>>, Alert, f64>;

/// Decode the members that encoding writes for `fc`, in the order written.
fn recollect(fc: AlertCollection) -> Result<AlertCollection, DecodeError> {
    let plan = fc.members();
    let FeatureCollection { features, bbox, foreign_members } = fc;
    let mut features = Some(features);
    let mut bbox = Some(bbox);
    let mut foreign: Vec<Option<(String, serde_json::Value)>> =
        foreign_members.into_iter().map(Some).collect();
    let mut d = CollectionDecoder::new();
    for m in plan {
        match m {
            CollectionMember::Type => d.accept_type("FeatureCollection")?,
            CollectionMember::Features => d.set_features(features.take().unwrap()),
            CollectionMember::Bbox => d.set_bbox(bbox.take().unwrap()),
            CollectionMember::Foreign(i) => {
                let (k, v) = foreign[i].take().unwrap();
                assert_eq!(collection_field(&k), CollectionField::Other);
                d.add_foreign(k, v)
            }
        }
    }
    d.finish()
}

fn two_alerts() -> AlertCollection {
    let mut first = Feature::new(Some(Point::new(vec![-96.8, 32.8])), alert("Tornado Warning", 3));
    first.id = Some(Id::String("urn:oid:1".to_string()));
    let second = Feature::new(None, alert("Flood Watch", 1));
    FeatureCollection::from_features(vec![first, second])
}

#[test]
fn wrong_type_is_rejected() {
    let mut d: FeatureDecoder<Option<Point<f64>>, Alert, f64> = FeatureDecoder::new();
    assert_eq!(d.accept_type("Point"), Err(DecodeError::WrongType));
}

#[test]
fn numeric_id_preserved() {
    let mut d: FeatureDecoder<Option<Point<f64>>, Alert, f64> = FeatureDecoder::new();
    d.accept_type("Feature").unwrap();
    d.set_id(Some(Id::Number(42.into())));
    d.set_geometry(None);
    d.set_properties(alert("x", 0));
    let f = d.finish().unwrap();
    assert_eq!(f.id, Some(Id::Number(42.into())));
}

#[test]
fn feature_round_trips_through_its_members() {
    let mut f = Feature::new(Some(Point::new(vec![-96.8, 32.8])), alert("Tornado Warning", 3));
    f.id = Some(Id::String("urn:oid:1".to_string()));
    f.bbox = Some(Bbox::D2([-97.0, 32.0, -96.0, 33.0]));
    let back = reencode(f).unwrap();
    assert_eq!(back.properties.event, "Tornado Warning");
    assert_eq!(back.id, Some(Id::String("urn:oid:1".to_string())));
    assert_eq!(back.bbox, Some(Bbox::D2([-97.0, 32.0, -96.0, 33.0])));
    assert_eq!(back.geometry, Some(Point::new(vec![-96.8, 32.8])));
}

#[test]
fn feature_members_omit_absent_id_and_bbox() {
    let f: AlertFeature = Feature::new(None, alert("Flood Watch", 1));
    assert_eq!(
        f.members(),
        vec![FeatureMember::Type, FeatureMember::Geometry, FeatureMember::Properties]
    );
    let mut g: AlertFeature = Feature::new(None, alert("Flood Watch", 1));
    g.bbox = Some(Bbox::D2([0.0, 0.0, 1.0, 1.0]));
    assert_eq!(
        g.members(),
        vec![
            FeatureMember::Type,
            FeatureMember::Geometry,
            FeatureMember::Properties,
            FeatureMember::Bbox
        ]
    );
    assert_eq!(reencode(g).unwrap().id, None);
}

#[test]
fn missing_members_are_refused_in_order() {
    let d: FeatureDecoder<Option<Point<f64>>, Alert, f64> = FeatureDecoder::new();
    assert_eq!(d.finish(), Err(DecodeError::MissingType));

    let mut d: FeatureDecoder<Option<Point<f64>>, Alert, f64> = FeatureDecoder::new();
    d.accept_type("Feature").unwrap();
    d.set_properties(alert("x", 0));
    assert_eq!(d.finish(), Err(DecodeError::MissingGeometry));

    let mut d: FeatureDecoder<Option<Point<f64>>, Alert, f64> = FeatureDecoder::new();
    d.accept_type("Feature").unwrap();
    d.set_geometry(None);
    assert_eq!(d.finish(), Err(DecodeError::MissingProperties));
}

#[test]
fn null_geometry_is_still_a_geometry() {
    let mut d: FeatureDecoder<Option<Point<f64>>, Alert, f64> = FeatureDecoder::new();
    d.set_properties(alert("Flood Watch", 1));
    d.set_geometry(None);
    d.accept_type("Feature").unwrap();
    let f = d.finish().unwrap();
    assert!(f.geometry.is_none());
}

#[test]
fn later_duplicate_member_wins() {
    let mut d: FeatureDecoder<Option<Point<f64>>, Alert, f64> = FeatureDecoder::new();
    d.accept_type("Feature").unwrap();
    d.set_geometry(None);
    d.set_properties(alert("first", 1));
    d.set_properties(alert("second", 2));
    d.set_id(Some(Id::String("a".to_string())));
    d.set_id(None);
    let f = d.finish().unwrap();
    assert_eq!(f.properties, alert("second", 2));
    assert_eq!(f.id, None);
}

#[test]
fn member_keys_are_recognised_exactly() {
    assert_eq!(feature_field("type"), FeatureField::Type);
    assert_eq!(feature_field("geometry"), FeatureField::Geometry);
    assert_eq!(feature_field("properties"), FeatureField::Properties);
    assert_eq!(feature_field("id"), FeatureField::Id);
    assert_eq!(feature_field("bbox"), FeatureField::Bbox);
    assert_eq!(feature_field("Type"), FeatureField::Other);
    assert_eq!(feature_field("title"), FeatureField::Other);
    assert_eq!(collection_field("features"), CollectionField::Features);
    assert_eq!(collection_field("type"), CollectionField::Type);
    assert_eq!(collection_field("bbox"), CollectionField::Bbox);
    assert_eq!(collection_field("geometry"), CollectionField::Other);
}

#[test]
fn feature_collection_round_trips() {
    let fc = two_alerts();
    assert_eq!(fc.features.len(), 2);
    assert_eq!(fc.features[0].properties.event, "Tornado Warning");
    assert_eq!(fc.features[0].id, Some(Id::String("urn:oid:1".to_string())));
    assert!(fc.features[1].geometry.is_none());
    assert_eq!(fc.members(), vec![CollectionMember::Type, CollectionMember::Features]);

    let reparsed = recollect(fc).unwrap();
    assert_eq!(reparsed, two_alerts());
}

#[test]
fn foreign_members_round_trip() {
    let mut f = Feature::new(Some(Point::new(vec![1.0, 2.0])), alert("Heat Advisory", 2));
    f.foreign_members.push(("title".to_string(), serde_json::Value::from("Example")));
    f.foreign_members.push(("sequence".to_string(), serde_json::Value::from(7)));
    assert_eq!(
        f.members(),
        vec![
            FeatureMember::Type,
            FeatureMember::Geometry,
            FeatureMember::Properties,
            FeatureMember::Foreign(0),
            FeatureMember::Foreign(1)
        ]
    );
    let back = reencode(f).unwrap();
    assert_eq!(
        back.foreign_members,
        vec![
            ("title".to_string(), serde_json::Value::from("Example")),
            ("sequence".to_string(), serde_json::Value::from(7))
        ]
    );

    let mut fc = two_alerts();
    fc.foreign_members.push(("generator".to_string(), serde_json::Value::from("nws")));
    assert_eq!(
        fc.members(),
        vec![CollectionMember::Type, CollectionMember::Features, CollectionMember::Foreign(0)]
    );
    let mut expected = two_alerts();
    expected.foreign_members.push(("generator".to_string(), serde_json::Value::from("nws")));
    assert_eq!(recollect(fc).unwrap(), expected);
}

#[test]
fn foreign_member_does_not_disturb_own_members() {
    let mut d: FeatureDecoder<Option<Point<f64>>, Alert, f64> = FeatureDecoder::new();
    d.add_foreign("title".to_string(), serde_json::Value::from("first"));
    d.accept_type("Feature").unwrap();
    d.set_geometry(None);
    d.add_foreign("properties_note".to_string(), serde_json::Value::Null);
    d.set_properties(alert("x", 0));
    let f = d.finish().unwrap();
    assert_eq!(f.properties, alert("x", 0));
    assert_eq!(f.foreign_members.len(), 2);
    assert_eq!(f.foreign_members[0].0, "title");
    assert_eq!(f.foreign_members[1].0, "properties_note");

    let mut d: FeatureDecoder<Option<Point<f64>>, Alert, f64> = FeatureDecoder::new();
    d.add_foreign("title".to_string(), serde_json::Value::from("first"));
    assert_eq!(d.finish(), Err(DecodeError::MissingType));
}

#[test]
fn new_has_no_foreign_members() {
    let f: AlertFeature = Feature::new(None, alert("x", 0));
    assert!(f.foreign_members.is_empty());
    assert_eq!(f.id, None);
    assert_eq!(f.bbox, None);
    assert!(two_alerts().foreign_members.is_empty());
}

type JsonObject = serde_json::Map<String, serde_json::Value>;

fn heat_advisory() -> Feature<Option<Point<f64>>, JsonShape<JsonObject>, f64> {
    let mut props = JsonObject::new();
    props.insert("event".to_string(), serde_json::Value::from("Heat Advisory"));
    props.insert("severity".to_string(), serde_json::Value::from(2));
    Feature::new(None, JsonShape::Object(props))
}

#[test]
fn bridges_to_and_from_untyped_geojson() {
    let untyped = to_untyped(heat_advisory()).unwrap();
    assert_eq!(
        untyped.properties.as_ref().unwrap()["event"],
        serde_json::Value::from("Heat Advisory")
    );
    assert!(untyped.foreign_members.is_none());
    assert!(untyped.bbox.is_none());

    let back = from_untyped(untyped).unwrap();
    assert_eq!(back, heat_advisory());
}

#[test]
fn foreign_members_and_bbox_cross_the_untyped_bridge() {
    let mut f = heat_advisory();
    f.bbox = Some(Bbox::D2([0.0, 1.0, 2.0, 3.0]));
    f.foreign_members.push(("title".to_string(), serde_json::Value::from("Example")));
    let untyped = to_untyped(f).unwrap();
    assert_eq!(untyped.bbox, Some(vec![0.0, 1.0, 2.0, 3.0]));
    assert_eq!(
        untyped.foreign_members,
        Some(vec![("title".to_string(), serde_json::Value::from("Example"))])
    );
    let back = from_untyped(untyped).unwrap();
    let mut expected = heat_advisory();
    expected.bbox = Some(Bbox::D2([0.0, 1.0, 2.0, 3.0]));
    expected.foreign_members.push(("title".to_string(), serde_json::Value::from("Example")));
    assert_eq!(back, expected);
}

#[test]
fn untyped_bridge_refuses_what_it_cannot_hold() {
    let bad: Feature<Option<Point<f64>>, JsonShape<JsonObject>, f64> =
        Feature::new(None, JsonShape::Other);
    assert!(matches!(to_untyped(bad), Err(NotAnObject)));

    let u: UntypedFeature<Option<Point<f64>>, JsonObject, f64> = UntypedFeature {
        bbox: Some(vec![1.0, 2.0, 3.0]),
        geometry: None,
        id: None,
        properties: None,
        foreign_members: None,
    };
    assert!(matches!(from_untyped(u), Err(BboxLengthError { found: 3 })));

    let u: UntypedFeature<Option<Point<f64>>, JsonObject, f64> = UntypedFeature {
        bbox: None,
        geometry: None,
        id: Some(Id::Number(5.into())),
        properties: None,
        foreign_members: Some(vec![]),
    };
    let f = from_untyped(u).unwrap();
    assert_eq!(f.properties, JsonShape::Null);
    assert!(f.foreign_members.is_empty());
    assert_eq!(f.id, Some(Id::Number(5.into())));
}

#[test]
fn foreign_members_are_absent_only_when_empty() {
    assert_eq!(untyped_foreign_members(vec![]), None);
    let one = vec![("a".to_string(), serde_json::Value::Bool(true))];
    assert_eq!(untyped_foreign_members(one.clone()), Some(one.clone()));
    assert_eq!(typed_foreign_members(None), vec![]);
    assert_eq!(typed_foreign_members(Some(one.clone())), one);
}

#[test]
fn collection_type_and_features_are_checked() {
    let mut d: CollectionDecoder<Option<Point<f64>>, Alert, f64> = CollectionDecoder::new();
    assert_eq!(d.accept_type("Feature"), Err(DecodeError::WrongType));
    let d: CollectionDecoder<Option<Point<f64>>, Alert, f64> = CollectionDecoder::new();
    assert_eq!(d.finish(), Err(DecodeError::MissingType));
    let mut d: CollectionDecoder<Option<Point<f64>>, Alert, f64> = CollectionDecoder::new();
    d.accept_type("FeatureCollection").unwrap();
    assert_eq!(d.finish(), Err(DecodeError::MissingFeatures));
}

#[test]
fn bbox_accepts_only_four_or_six_numbers() {
    assert_eq!(bbox_from_vec(vec![1.0, 2.0, 3.0, 4.0]), Ok(Bbox::D2([1.0, 2.0, 3.0, 4.0])));
    assert_eq!(
        bbox_from_vec(vec![1.0, 2.0, 3.0, 4.0, 5.0, 6.0]),
        Ok(Bbox::D3([1.0, 2.0, 3.0, 4.0, 5.0, 6.0]))
    );
    assert_eq!(bbox_from_vec(vec![1.0, 2.0, 3.0, 4.0, 5.0]), Err(BboxLengthError { found: 5 }));
    assert_eq!(bbox_from_vec(Vec::<f64>::new()), Err(BboxLengthError { found: 0 }));
}

#[test]
fn bbox_survives_the_flat_list() {
    let b = Bbox::D3([-1.0, -2.0, 0.0, 1.0, 2.0, 100.0]);
    let flat = bbox_into_vec(b);
    assert_eq!(flat, vec![-1.0, -2.0, 0.0, 1.0, 2.0, 100.0]);
    assert_eq!(bbox_from_vec(flat), Ok(b));
}

#[test]
fn properties_must_be_an_object_or_null() {
    assert_eq!(untyped_properties(JsonShape::Object(7u32)), Ok(Some(7)));
    assert_eq!(untyped_properties(JsonShape::<u32>::Null), Ok(None));
    assert_eq!(untyped_properties(JsonShape::<u32>::Other), Err(NotAnObject));
    assert_eq!(untyped_properties(properties_value(Some(3u32))), Ok(Some(3)));
    assert_eq!(untyped_properties(properties_value(None::<u32>)), Ok(None));
}

#[test]
fn geometry_members_omit_absent_bbox() {
    let mut p = Point::new(vec![1.0, 2.0]);
    assert_eq!(p.members(), vec![GeometryMember::Type, GeometryMember::Coordinates]);
    p.bbox = Some(Bbox::D2([1.0, 2.0, 1.0, 2.0]));
    assert_eq!(
        p.members(),
        vec![GeometryMember::Type, GeometryMember::Coordinates, GeometryMember::Bbox]
    );
    assert_eq!(p.kind.name(), "Point");
    assert_eq!(FeatureType::Feature.name(), "Feature");
}
