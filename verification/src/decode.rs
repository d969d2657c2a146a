//! Encoding and decoding Features and FeatureCollections member by member.
//!
//! Encoding writes `"type"`, then the mandatory members, then `"id"` and
//! `"bbox"` only when present, then the foreign members in order. Decoding
//! reads the members of an object in any order: `"type"` must name the right
//! kind, `geometry` and `properties` (or `features`) are mandatory, later
//! duplicates of the object's own members replace earlier ones, and foreign
//! members are kept in the order read.
use vstd::prelude::*;

use crate::bbox::Bbox;
use crate::feature::{
    str_eq, Feature, FeatureCollection, FeatureCollectionModel, FeatureCollectionType,
    FeatureModel, FeatureType, ForeignMember, Id,
};

verus! {

/// Why an object could not be decoded.
#[derive(Clone, Copy, Debug, PartialEq, Eq)]
pub enum DecodeError {
    /// The `"type"` member named another kind of object.
    WrongType,
    /// There was no `"type"` member.
    MissingType,
    /// A Feature had no `geometry` member.
    MissingGeometry,
    /// A Feature had no `properties` member.
    MissingProperties,
    /// A FeatureCollection had no `features` member.
    MissingFeatures,
}

// --- Feature ----------------------------------------------------------------------

/// A member of an encoded Feature object, in the order written; a foreign
/// member is named by its position among the Feature's foreign members.
#[derive(Clone, Copy, Debug, PartialEq, Eq)]
pub enum FeatureMember {
    Type,
    Geometry,
    Properties,
    Id,
    Bbox,
    Foreign(usize),
}

/// One decoded member of a Feature object, with its value.
pub enum FeatureEvent<G, P, C> {
    Type(Seq<char>),
    Geometry(G),
    Properties(P),
    Id(Option<Id>),
    Bbox(Option<Bbox<C>>),
    Foreign(String, serde_json::Value),
}

/// What has been read of a Feature object so far.
pub struct FeatureDecoder<G, P, C> {
    pub had_type: bool,
    pub geometry: Option<G>,
    pub properties: Option<P>,
    pub id: Option<Id>,
    pub bbox: Option<Bbox<C>>,
    pub foreign_members: Vec<ForeignMember>,
}

/// What has been read of a Feature object so far, as mathematical values.
pub struct FeatureState<G, P, C> {
    pub had_type: bool,
    pub geometry: Option<G>,
    pub properties: Option<P>,
    pub id: Option<Id>,
    pub bbox: Option<Bbox<C>>,
    pub foreign_members: Seq<ForeignMember>,
}

impl<G, P, C> View for FeatureDecoder<G, P, C> {
    type V = FeatureState<G, P, C>;

    open spec fn view(&self) -> FeatureState<G, P, C> {
        FeatureState {
            had_type: self.had_type,
            geometry: self.geometry,
            properties: self.properties,
            id: self.id,
            bbox: self.bbox,
            foreign_members: self.foreign_members@,
        }
    }
}

/// Nothing read yet.
pub open spec fn feature_start<G, P, C>() -> FeatureState<G, P, C> {
    FeatureState {
        had_type: false,
        geometry: None,
        properties: None,
        id: None,
        bbox: None,
        foreign_members: Seq::empty(),
    }
}

/// Reading one member: a `"type"` other than `"Feature"` is refused; any other
/// of the Feature's own members replaces what was read for it before; a
/// foreign member is kept after those read before it.
pub open spec fn feature_step<G, P, C>(d: FeatureState<G, P, C>, e: FeatureEvent<G, P, C>) -> Result<
    FeatureState<G, P, C>,
    DecodeError,
> {
    match e {
        FeatureEvent::Type(t) => if t == "Feature"@ {
            Ok(FeatureState { had_type: true, ..d })
        } else {
            Err(DecodeError::WrongType)
        },
        FeatureEvent::Geometry(g) => Ok(FeatureState { geometry: Some(g), ..d }),
        FeatureEvent::Properties(p) => Ok(FeatureState { properties: Some(p), ..d }),
        FeatureEvent::Id(i) => Ok(FeatureState { id: i, ..d }),
        FeatureEvent::Bbox(b) => Ok(FeatureState { bbox: b, ..d }),
        FeatureEvent::Foreign(k, v) => Ok(
            FeatureState { foreign_members: d.foreign_members.push((k, v)), ..d },
        ),
    }
}

/// Reading members in order, stopping at the first refusal.
pub open spec fn feature_run<G, P, C>(d: FeatureState<G, P, C>, es: Seq<FeatureEvent<G, P, C>>) -> Result<
    FeatureState<G, P, C>,
    DecodeError,
>
    decreases es.len(),
{
    if es.len() == 0 {
        Ok(d)
    } else {
        match feature_step(d, es[0]) {
            Ok(d2) => feature_run(d2, es.drop_first()),
            Err(e) => Err(e),
        }
    }
}

/// The Feature once the object ends: `"type"`, `geometry` and `properties`
/// are mandatory, checked in that order.
pub open spec fn feature_finish<G, P, C>(d: FeatureState<G, P, C>) -> Result<
    FeatureModel<G, P, C>,
    DecodeError,
> {
    if !d.had_type {
        Err(DecodeError::MissingType)
    } else if d.geometry is None {
        Err(DecodeError::MissingGeometry)
    } else if d.properties is None {
        Err(DecodeError::MissingProperties)
    } else {
        Ok(
            FeatureModel {
                geometry: d.geometry->Some_0,
                properties: d.properties->Some_0,
                id: d.id,
                bbox: d.bbox,
                foreign_members: d.foreign_members,
            },
        )
    }
}

/// Decoding a whole Feature object from its members, in order.
pub open spec fn feature_decode<G, P, C>(es: Seq<FeatureEvent<G, P, C>>) -> Result<
    FeatureModel<G, P, C>,
    DecodeError,
> {
    match feature_run(feature_start(), es) {
        Ok(d) => feature_finish(d),
        Err(e) => Err(e),
    }
}

/// The first `n` foreign members, named by position.
pub open spec fn foreign_positions_feature(n: nat) -> Seq<FeatureMember> {
    Seq::new(n, |i: int| FeatureMember::Foreign(i as usize))
}

/// The members written for a Feature, in order: `"type"`, `geometry`,
/// `properties`, then `id` and `bbox` only when present, then its `n`
/// foreign members.
pub open spec fn feature_members(has_id: bool, has_bbox: bool, n: nat) -> Seq<FeatureMember> {
    seq![FeatureMember::Type, FeatureMember::Geometry, FeatureMember::Properties] + (if has_id {
        seq![FeatureMember::Id]
    } else {
        Seq::empty()
    }) + (if has_bbox {
        seq![FeatureMember::Bbox]
    } else {
        Seq::empty()
    }) + foreign_positions_feature(n)
}

/// The member of `f` written as `m`, with its value.
pub open spec fn feature_event_for<G, P, C>(f: FeatureModel<G, P, C>, m: FeatureMember) -> FeatureEvent<
    G,
    P,
    C,
> {
    match m {
        FeatureMember::Type => FeatureEvent::Type("Feature"@),
        FeatureMember::Geometry => FeatureEvent::Geometry(f.geometry),
        FeatureMember::Properties => FeatureEvent::Properties(f.properties),
        FeatureMember::Id => FeatureEvent::Id(f.id),
        FeatureMember::Bbox => FeatureEvent::Bbox(f.bbox),
        FeatureMember::Foreign(i) => FeatureEvent::Foreign(
            f.foreign_members[i as int].0,
            f.foreign_members[i as int].1,
        ),
    }
}

/// The members written for a Feature, with their values.
pub open spec fn feature_events<G, P, C>(f: FeatureModel<G, P, C>) -> Seq<FeatureEvent<G, P, C>> {
    feature_members(f.id is Some, f.bbox is Some, f.foreign_members.len()).map_values(
        |m: FeatureMember| feature_event_for(f, m),
    )
}

/// The members written for a Feature with or without an `id` and a `bbox`
/// and with `n` foreign members, in order.
pub fn feature_member_plan(has_id: bool, has_bbox: bool, n: usize) -> (plan: Vec<FeatureMember>)
    ensures
        plan@ == feature_members(has_id, has_bbox, n as nat),
{
    let mut plan = Vec::new();
    plan.push(FeatureMember::Type);
    plan.push(FeatureMember::Geometry);
    plan.push(FeatureMember::Properties);
    if has_id {
        plan.push(FeatureMember::Id);
    }
    if has_bbox {
        plan.push(FeatureMember::Bbox);
    }
    let ghost head = plan@;
    for i in 0..n
        invariant
            plan@ == head + foreign_positions_feature(i as nat),
    {
        plan.push(FeatureMember::Foreign(i));
        assert(foreign_positions_feature((i + 1) as nat) =~= foreign_positions_feature(
            i as nat,
        ).push(FeatureMember::Foreign(i)));
    }
    assert(plan@ =~= feature_members(has_id, has_bbox, n as nat));
    plan
}

impl<G, P, C> Feature<G, P, C> {
    /// The members written when encoding, in order.
    pub fn members(&self) -> (plan: Vec<FeatureMember>)
        ensures
            plan@ == feature_members(
                self.id is Some,
                self.bbox is Some,
                self.foreign_members@.len(),
            ),
    {
        feature_member_plan(self.id.is_some(), self.bbox.is_some(), self.foreign_members.len())
    }
}

impl<G, P, C> FeatureDecoder<G, P, C> {
    /// A decoder that has read nothing.
    pub fn new() -> (d: Self)
        ensures
            d@ == feature_start::<G, P, C>(),
    {
        FeatureDecoder {
            had_type: false,
            geometry: None,
            properties: None,
            id: None,
            bbox: None,
            foreign_members: Vec::new(),
        }
    }

    /// Read the `"type"` member: only `"Feature"` is accepted.
    pub fn accept_type(&mut self, ty: &str) -> (r: Result<(), DecodeError>)
        ensures
            feature_step(old(self)@, FeatureEvent::Type(ty@)) == (match r {
                Ok(_) => Ok(final(self)@),
                Err(e) => Err(e),
            }),
    {
        if str_eq(ty, FeatureType::Feature.name()) {
            self.had_type = true;
            Ok(())
        } else {
            Err(DecodeError::WrongType)
        }
    }

    /// Read the `geometry` member.
    pub fn set_geometry(&mut self, g: G)
        ensures
            feature_step(old(self)@, FeatureEvent::Geometry(g)) == Ok::<_, DecodeError>(
                final(self)@,
            ),
    {
        self.geometry = Some(g);
    }

    /// Read the `properties` member.
    pub fn set_properties(&mut self, p: P)
        ensures
            feature_step(old(self)@, FeatureEvent::Properties(p)) == Ok::<_, DecodeError>(
                final(self)@,
            ),
    {
        self.properties = Some(p);
    }

    /// Read the `id` member (`null` reads as no id).
    pub fn set_id(&mut self, id: Option<Id>)
        ensures
            feature_step(old(self)@, FeatureEvent::Id(id)) == Ok::<_, DecodeError>(final(self)@),
    {
        self.id = id;
    }

    /// Read the `bbox` member (`null` reads as no bbox).
    pub fn set_bbox(&mut self, bbox: Option<Bbox<C>>)
        ensures
            feature_step(old(self)@, FeatureEvent::Bbox(bbox)) == Ok::<_, DecodeError>(
                final(self)@,
            ),
    {
        self.bbox = bbox;
    }

    /// Read a foreign member.
    pub fn add_foreign(&mut self, key: String, value: serde_json::Value)
        ensures
            feature_step(old(self)@, FeatureEvent::Foreign(key, value)) == Ok::<_, DecodeError>(
                final(self)@,
            ),
    {
        self.foreign_members.push((key, value));
    }

    /// The Feature, once the object has ended.
    pub fn finish(self) -> (r: Result<Feature<G, P, C>, DecodeError>)
        ensures
            match r {
                Ok(f) => feature_finish(self@) == Ok::<_, DecodeError>(f@),
                Err(e) => feature_finish(self@) == Err::<FeatureModel<G, P, C>, _>(e),
            },
    {
        if !self.had_type {
            return Err(DecodeError::MissingType);
        }
        match (self.geometry, self.properties) {
            (None, _) => Err(DecodeError::MissingGeometry),
            (Some(_), None) => Err(DecodeError::MissingProperties),
            (Some(geometry), Some(properties)) => Ok(
                Feature {
                    geometry,
                    properties,
                    id: self.id,
                    bbox: self.bbox,
                    foreign_members: self.foreign_members,
                },
            ),
        }
    }
}

// --- FeatureCollection --------------------------------------------------------------

/// A member of an encoded FeatureCollection object, in the order written; a
/// foreign member is named by its position among the collection's foreign
/// members.
#[derive(Clone, Copy, Debug, PartialEq, Eq)]
pub enum CollectionMember {
    Type,
    Features,
    Bbox,
    Foreign(usize),
}

/// One decoded member of a FeatureCollection object, with its value.
pub enum CollectionEvent<G, P, C> {
    Type(Seq<char>),
    Features(Vec<Feature<G, P, C>>),
    Bbox(Option<Bbox<C>>),
    Foreign(String, serde_json::Value),
}

/// What has been read of a FeatureCollection object so far.
pub struct CollectionDecoder<G, P, C> {
    pub had_type: bool,
    pub features: Option<Vec<Feature<G, P, C>>>,
    pub bbox: Option<Bbox<C>>,
    pub foreign_members: Vec<ForeignMember>,
}

/// What has been read of a FeatureCollection object so far, as mathematical
/// values.
pub struct CollectionState<G, P, C> {
    pub had_type: bool,
    pub features: Option<Vec<Feature<G, P, C>>>,
    pub bbox: Option<Bbox<C>>,
    pub foreign_members: Seq<ForeignMember>,
}

impl<G, P, C> View for CollectionDecoder<G, P, C> {
    type V = CollectionState<G, P, C>;

    open spec fn view(&self) -> CollectionState<G, P, C> {
        CollectionState {
            had_type: self.had_type,
            features: self.features,
            bbox: self.bbox,
            foreign_members: self.foreign_members@,
        }
    }
}

/// Nothing read yet.
pub open spec fn collection_start<G, P, C>() -> CollectionState<G, P, C> {
    CollectionState { had_type: false, features: None, bbox: None, foreign_members: Seq::empty() }
}

/// Reading one member: a `"type"` other than `"FeatureCollection"` is
/// refused; any other of the collection's own members replaces what was read
/// for it before; a foreign member is kept after those read before it.
pub open spec fn collection_step<G, P, C>(
    d: CollectionState<G, P, C>,
    e: CollectionEvent<G, P, C>,
) -> Result<CollectionState<G, P, C>, DecodeError> {
    match e {
        CollectionEvent::Type(t) => if t == "FeatureCollection"@ {
            Ok(CollectionState { had_type: true, ..d })
        } else {
            Err(DecodeError::WrongType)
        },
        CollectionEvent::Features(fs) => Ok(CollectionState { features: Some(fs), ..d }),
        CollectionEvent::Bbox(b) => Ok(CollectionState { bbox: b, ..d }),
        CollectionEvent::Foreign(k, v) => Ok(
            CollectionState { foreign_members: d.foreign_members.push((k, v)), ..d },
        ),
    }
}

/// Reading members in order, stopping at the first refusal.
pub open spec fn collection_run<G, P, C>(
    d: CollectionState<G, P, C>,
    es: Seq<CollectionEvent<G, P, C>>,
) -> Result<CollectionState<G, P, C>, DecodeError>
    decreases es.len(),
{
    if es.len() == 0 {
        Ok(d)
    } else {
        match collection_step(d, es[0]) {
            Ok(d2) => collection_run(d2, es.drop_first()),
            Err(e) => Err(e),
        }
    }
}

/// The FeatureCollection once the object ends: `"type"` and `features` are
/// mandatory, checked in that order.
pub open spec fn collection_finish<G, P, C>(d: CollectionState<G, P, C>) -> Result<
    FeatureCollectionModel<G, P, C>,
    DecodeError,
> {
    if !d.had_type {
        Err(DecodeError::MissingType)
    } else if d.features is None {
        Err(DecodeError::MissingFeatures)
    } else {
        Ok(
            FeatureCollectionModel {
                features: d.features->Some_0,
                bbox: d.bbox,
                foreign_members: d.foreign_members,
            },
        )
    }
}

/// Decoding a whole FeatureCollection object from its members, in order.
pub open spec fn collection_decode<G, P, C>(es: Seq<CollectionEvent<G, P, C>>) -> Result<
    FeatureCollectionModel<G, P, C>,
    DecodeError,
> {
    match collection_run(collection_start(), es) {
        Ok(d) => collection_finish(d),
        Err(e) => Err(e),
    }
}

/// The first `n` foreign members, named by position.
pub open spec fn foreign_positions_collection(n: nat) -> Seq<CollectionMember> {
    Seq::new(n, |i: int| CollectionMember::Foreign(i as usize))
}

/// The members written for a FeatureCollection, in order: `"type"`,
/// `features`, then `bbox` only when present, then its `n` foreign members.
pub open spec fn collection_members(has_bbox: bool, n: nat) -> Seq<CollectionMember> {
    seq![CollectionMember::Type, CollectionMember::Features] + (if has_bbox {
        seq![CollectionMember::Bbox]
    } else {
        Seq::empty()
    }) + foreign_positions_collection(n)
}

/// The member of `fc` written as `m`, with its value.
pub open spec fn collection_event_for<G, P, C>(
    fc: FeatureCollectionModel<G, P, C>,
    m: CollectionMember,
) -> CollectionEvent<G, P, C> {
    match m {
        CollectionMember::Type => CollectionEvent::Type("FeatureCollection"@),
        CollectionMember::Features => CollectionEvent::Features(fc.features),
        CollectionMember::Bbox => CollectionEvent::Bbox(fc.bbox),
        CollectionMember::Foreign(i) => CollectionEvent::Foreign(
            fc.foreign_members[i as int].0,
            fc.foreign_members[i as int].1,
        ),
    }
}

/// The members written for a FeatureCollection, with their values.
pub open spec fn collection_events<G, P, C>(fc: FeatureCollectionModel<G, P, C>) -> Seq<
    CollectionEvent<G, P, C>,
> {
    collection_members(fc.bbox is Some, fc.foreign_members.len()).map_values(
        |m: CollectionMember| collection_event_for(fc, m),
    )
}

/// The members written for a FeatureCollection with or without a `bbox` and
/// with `n` foreign members, in order.
pub fn collection_member_plan(has_bbox: bool, n: usize) -> (plan: Vec<CollectionMember>)
    ensures
        plan@ == collection_members(has_bbox, n as nat),
{
    let mut plan = Vec::new();
    plan.push(CollectionMember::Type);
    plan.push(CollectionMember::Features);
    if has_bbox {
        plan.push(CollectionMember::Bbox);
    }
    let ghost head = plan@;
    for i in 0..n
        invariant
            plan@ == head + foreign_positions_collection(i as nat),
    {
        plan.push(CollectionMember::Foreign(i));
        assert(foreign_positions_collection((i + 1) as nat) =~= foreign_positions_collection(
            i as nat,
        ).push(CollectionMember::Foreign(i)));
    }
    assert(plan@ =~= collection_members(has_bbox, n as nat));
    plan
}

impl<G, P, C> FeatureCollection<G, P, C> {
    /// The members written when encoding, in order.
    pub fn members(&self) -> (plan: Vec<CollectionMember>)
        ensures
            plan@ == collection_members(self.bbox is Some, self.foreign_members@.len()),
    {
        collection_member_plan(self.bbox.is_some(), self.foreign_members.len())
    }
}

impl<G, P, C> CollectionDecoder<G, P, C> {
    /// A decoder that has read nothing.
    pub fn new() -> (d: Self)
        ensures
            d@ == collection_start::<G, P, C>(),
    {
        CollectionDecoder { had_type: false, features: None, bbox: None, foreign_members: Vec::new() }
    }

    /// Read the `"type"` member: only `"FeatureCollection"` is accepted.
    pub fn accept_type(&mut self, ty: &str) -> (r: Result<(), DecodeError>)
        ensures
            collection_step(old(self)@, CollectionEvent::Type(ty@)) == (match r {
                Ok(_) => Ok(final(self)@),
                Err(e) => Err(e),
            }),
    {
        if str_eq(ty, FeatureCollectionType::FeatureCollection.name()) {
            self.had_type = true;
            Ok(())
        } else {
            Err(DecodeError::WrongType)
        }
    }

    /// Read the `features` member.
    pub fn set_features(&mut self, features: Vec<Feature<G, P, C>>)
        ensures
            collection_step(old(self)@, CollectionEvent::Features(features)) == Ok::<
                _,
                DecodeError,
            >(final(self)@),
    {
        self.features = Some(features);
    }

    /// Read the `bbox` member (`null` reads as no bbox).
    pub fn set_bbox(&mut self, bbox: Option<Bbox<C>>)
        ensures
            collection_step(old(self)@, CollectionEvent::Bbox(bbox)) == Ok::<_, DecodeError>(
                final(self)@,
            ),
    {
        self.bbox = bbox;
    }

    /// Read a foreign member.
    pub fn add_foreign(&mut self, key: String, value: serde_json::Value)
        ensures
            collection_step(old(self)@, CollectionEvent::Foreign(key, value)) == Ok::<
                _,
                DecodeError,
            >(final(self)@),
    {
        self.foreign_members.push((key, value));
    }

    /// The FeatureCollection, once the object has ended.
    pub fn finish(self) -> (r: Result<FeatureCollection<G, P, C>, DecodeError>)
        ensures
            match r {
                Ok(fc) => collection_finish(self@) == Ok::<_, DecodeError>(fc@),
                Err(e) => collection_finish(self@) == Err::<FeatureCollectionModel<G, P, C>, _>(e),
            },
    {
        if !self.had_type {
            return Err(DecodeError::MissingType);
        }
        match self.features {
            None => Err(DecodeError::MissingFeatures),
            Some(features) => Ok(
                FeatureCollection { features, bbox: self.bbox, foreign_members: self.foreign_members },
            ),
        }
    }
}

} // verus!
