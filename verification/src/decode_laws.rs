//! What encoding and decoding promise as a whole: what is written is read
//! back, foreign members included; a foreign member changes nothing of the
//! object's own members; and the `"type"` member is validated.
use vstd::prelude::*;

use crate::decode::{
    collection_decode, collection_event_for, collection_events, collection_members, collection_run,
    collection_start, collection_step, feature_decode, feature_event_for, feature_events,
    feature_members, feature_run, feature_start, feature_step, foreign_positions_collection,
    foreign_positions_feature, CollectionEvent, CollectionMember, CollectionState, DecodeError, FeatureEvent,
    FeatureMember, FeatureState,
};
use crate::feature::{Feature, FeatureCollection, FeatureCollectionModel, FeatureModel, ForeignMember};

verus! {

// --- Features: reading in pieces ----------------------------------------------------

/// Reading `a` then `b` is reading `a + b`.
proof fn lemma_feature_run_append<G, P, C>(
    d: FeatureState<G, P, C>,
    a: Seq<FeatureEvent<G, P, C>>,
    b: Seq<FeatureEvent<G, P, C>>,
)
    ensures
        feature_run(d, a + b) == (match feature_run(d, a) {
            Ok(d2) => feature_run(d2, b),
            Err(e) => Err(e),
        }),
    decreases a.len(),
{
    if a.len() == 0 {
        assert(a + b =~= b);
    } else {
        assert((a + b)[0] == a[0]);
        assert((a + b).drop_first() =~= a.drop_first() + b);
        match feature_step(d, a[0]) {
            Ok(d2) => lemma_feature_run_append(d2, a.drop_first(), b),
            Err(_) => {},
        }
    }
}

/// The events that read the foreign members `ms`, in order.
pub open spec fn feature_foreign_events<G, P, C>(ms: Seq<ForeignMember>) -> Seq<
    FeatureEvent<G, P, C>,
> {
    ms.map_values(|m: ForeignMember| FeatureEvent::Foreign(m.0, m.1))
}

/// Reading foreign members appends them, in order, to those read before.
proof fn lemma_feature_run_foreign<G, P, C>(d: FeatureState<G, P, C>, ms: Seq<ForeignMember>)
    ensures
        feature_run(d, feature_foreign_events(ms)) == Ok::<_, DecodeError>(
            FeatureState { foreign_members: d.foreign_members + ms, ..d },
        ),
    decreases ms.len(),
{
    let es = feature_foreign_events::<G, P, C>(ms);
    if ms.len() == 0 {
        assert(d.foreign_members + ms =~= d.foreign_members);
    } else {
        let d2 = FeatureState { foreign_members: d.foreign_members.push(ms[0]), ..d };
        assert(feature_step(d, es[0]) == Ok::<_, DecodeError>(d2));
        assert(es.drop_first() =~= feature_foreign_events::<G, P, C>(ms.drop_first()));
        lemma_feature_run_foreign(d2, ms.drop_first());
        assert(d2.foreign_members + ms.drop_first() =~= d.foreign_members + ms);
    }
}

// --- Features: what is written is read back -------------------------------------------

/// Decoding the members written for a Feature gives that Feature back, its
/// foreign members included, in order.
pub proof fn lemma_feature_round_trip<G, P, C>(feature: Feature<G, P, C>)
    ensures
        feature_decode(feature_events(feature@)) == Ok::<_, DecodeError>(feature@),
{
    let f = feature@;
    let n = f.foreign_members.len();
    assert(n == feature.foreign_members.len());
    let ev = |m: FeatureMember| feature_event_for(f, m);
    let own = feature_members(f.id is Some, f.bbox is Some, 0);
    let own_events = own.map_values(ev);
    let foreign_events = foreign_positions_feature(n).map_values(ev);
    assert(feature_members(f.id is Some, f.bbox is Some, n) =~= own + foreign_positions_feature(n));
    assert(feature_events(f) =~= own_events + foreign_events);
    assert forall|i: int| 0 <= i < n implies #[trigger] foreign_events[i]
        == feature_foreign_events::<G, P, C>(f.foreign_members)[i] by {
        assert((i as usize) as int == i);
    }
    assert(foreign_events =~= feature_foreign_events::<G, P, C>(f.foreign_members));
    lemma_feature_run_append(feature_start(), own_events, foreign_events);
    reveal_with_fuel(feature_run, 6);
    let d3 = FeatureState {
        had_type: true,
        geometry: Some(f.geometry),
        properties: Some(f.properties),
        ..feature_start::<G, P, C>()
    };
    let d5 = FeatureState { id: f.id, bbox: f.bbox, ..d3 };
    assert(own_events[0] == FeatureEvent::<G, P, C>::Type("Feature"@));
    assert(own_events[1] == FeatureEvent::<G, P, C>::Geometry(f.geometry));
    assert(own_events[2] == FeatureEvent::<G, P, C>::Properties(f.properties));
    let r3 = own_events.drop_first().drop_first().drop_first();
    assert(feature_run(feature_start(), own_events) == feature_run(d3, r3));
    if f.id is Some {
        assert(r3[0] == FeatureEvent::<G, P, C>::Id(f.id));
        if f.bbox is Some {
            assert(r3.drop_first()[0] == FeatureEvent::<G, P, C>::Bbox(f.bbox));
            assert(r3.drop_first().drop_first().len() == 0);
        } else {
            assert(r3.drop_first().len() == 0);
        }
    } else {
        if f.bbox is Some {
            assert(r3[0] == FeatureEvent::<G, P, C>::Bbox(f.bbox));
            assert(r3.drop_first().len() == 0);
        } else {
            assert(r3.len() == 0);
        }
    }
    assert(feature_run(feature_start(), own_events) == Ok::<_, DecodeError>(d5));
    lemma_feature_run_foreign(d5, f.foreign_members);
    assert(Seq::<ForeignMember>::empty() + f.foreign_members =~= f.foreign_members);
}

// --- Features: foreign members ----------------------------------------------------------

/// The foreign members among the members of an object, in order.
pub open spec fn feature_foreign_of<G, P, C>(es: Seq<FeatureEvent<G, P, C>>) -> Seq<ForeignMember>
    decreases es.len(),
{
    if es.len() == 0 {
        Seq::empty()
    } else {
        let rest = feature_foreign_of(es.drop_first());
        match es[0] {
            FeatureEvent::Foreign(k, v) => seq![(k, v)] + rest,
            _ => rest,
        }
    }
}

/// Two reading states that agree on everything but the foreign members.
pub open spec fn feature_same_own<G, P, C>(a: FeatureState<G, P, C>, b: FeatureState<G, P, C>) -> bool {
    &&& a.had_type == b.had_type
    &&& a.geometry == b.geometry
    &&& a.properties == b.properties
    &&& a.id == b.id
    &&& a.bbox == b.bbox
}

/// Two outcomes of reading that are alike but for the foreign members: both
/// refused with the same error, or both read with the same own members.
pub open spec fn feature_alike<G, P, C>(
    a: Result<FeatureModel<G, P, C>, DecodeError>,
    b: Result<FeatureModel<G, P, C>, DecodeError>,
) -> bool {
    match (a, b) {
        (Ok(x), Ok(y)) => x.geometry == y.geometry && x.properties == y.properties && x.id == y.id
            && x.bbox == y.bbox,
        (Err(x), Err(y)) => x == y,
        _ => false,
    }
}

proof fn lemma_feature_run_kept<G, P, C>(d: FeatureState<G, P, C>, es: Seq<FeatureEvent<G, P, C>>)
    ensures
        feature_run(d, es) matches Ok(d2) ==> d2.foreign_members == d.foreign_members
            + feature_foreign_of(es),
    decreases es.len(),
{
    if es.len() == 0 {
        assert(d.foreign_members + Seq::<ForeignMember>::empty() =~= d.foreign_members);
    } else {
        match feature_step(d, es[0]) {
            Ok(d2) => {
                lemma_feature_run_kept(d2, es.drop_first());
                let rest = feature_foreign_of(es.drop_first());
                match es[0] {
                    FeatureEvent::Foreign(k, v) => {
                        assert(d.foreign_members.push((k, v)) + rest =~= d.foreign_members + (seq![
                            (k, v),
                        ] + rest));
                    },
                    _ => {},
                }
            },
            Err(_) => {},
        }
    }
}

/// A decoded Feature holds the foreign members of its object, in the order
/// they came.
pub proof fn lemma_feature_foreign_members_kept<G, P, C>(es: Seq<FeatureEvent<G, P, C>>)
    ensures
        feature_decode(es) matches Ok(f) ==> f.foreign_members == feature_foreign_of(es),
{
    lemma_feature_run_kept(feature_start(), es);
    assert(Seq::<ForeignMember>::empty() + feature_foreign_of(es) =~= feature_foreign_of(es));
}

proof fn lemma_feature_run_own<G, P, C>(
    d1: FeatureState<G, P, C>,
    d2: FeatureState<G, P, C>,
    es: Seq<FeatureEvent<G, P, C>>,
)
    requires
        feature_same_own(d1, d2),
    ensures
        match (feature_run(d1, es), feature_run(d2, es)) {
            (Ok(x), Ok(y)) => feature_same_own(x, y),
            (Err(x), Err(y)) => x == y,
            _ => false,
        },
    decreases es.len(),
{
    if es.len() > 0 {
        match (feature_step(d1, es[0]), feature_step(d2, es[0])) {
            (Ok(x), Ok(y)) => lemma_feature_run_own(x, y, es.drop_first()),
            _ => {},
        }
    }
}

proof fn lemma_feature_run_insert<G, P, C>(
    d1: FeatureState<G, P, C>,
    d2: FeatureState<G, P, C>,
    es: Seq<FeatureEvent<G, P, C>>,
    i: int,
    key: String,
    value: serde_json::Value,
)
    requires
        feature_same_own(d1, d2),
        0 <= i <= es.len(),
    ensures
        match (feature_run(d1, es.insert(i, FeatureEvent::Foreign(key, value))), feature_run(d2, es)) {
            (Ok(x), Ok(y)) => feature_same_own(x, y),
            (Err(x), Err(y)) => x == y,
            _ => false,
        },
    decreases i,
{
    let es2 = es.insert(i, FeatureEvent::Foreign(key, value));
    if i == 0 {
        assert(es2.drop_first() =~= es);
        let d1b = FeatureState { foreign_members: d1.foreign_members.push((key, value)), ..d1 };
        lemma_feature_run_own(d1b, d2, es);
    } else {
        assert(es2[0] == es[0]);
        assert(es2.drop_first() =~= es.drop_first().insert(i - 1, FeatureEvent::Foreign(key, value)));
        match (feature_step(d1, es[0]), feature_step(d2, es[0])) {
            (Ok(x), Ok(y)) => lemma_feature_run_insert(x, y, es.drop_first(), i - 1, key, value),
            _ => {},
        }
    }
}

/// A foreign member, wherever it stands among the members of a Feature
/// object, changes neither whether the object is accepted, nor the error it
/// is refused with, nor the Feature's own members.
pub proof fn lemma_feature_foreign_member_tolerated<G, P, C>(
    es: Seq<FeatureEvent<G, P, C>>,
    i: int,
    key: String,
    value: serde_json::Value,
)
    requires
        0 <= i <= es.len(),
    ensures
        feature_alike(feature_decode(es.insert(i, FeatureEvent::Foreign(key, value))), feature_decode(es)),
{
    let d0 = feature_start::<G, P, C>();
    lemma_feature_run_insert(d0, d0, es, i, key, value);
}

// --- Features: the "type" member ----------------------------------------------------------

/// Some member is a `"type"` that is not `"Feature"`.
pub open spec fn has_wrong_feature_type<G, P, C>(es: Seq<FeatureEvent<G, P, C>>) -> bool {
    exists|i: int|
        0 <= i < es.len() && (#[trigger] es[i]) is Type && es[i]->Type_0 != "Feature"@
}

/// Some member is a `"type"`.
pub open spec fn has_feature_type<G, P, C>(es: Seq<FeatureEvent<G, P, C>>) -> bool {
    exists|i: int| 0 <= i < es.len() && (#[trigger] es[i]) is Type
}

proof fn lemma_feature_run_type<G, P, C>(d: FeatureState<G, P, C>, es: Seq<FeatureEvent<G, P, C>>)
    ensures
        feature_run(d, es) == Err::<FeatureState<G, P, C>, _>(DecodeError::WrongType)
            <==> has_wrong_feature_type(es),
        !has_wrong_feature_type(es) ==> feature_run(d, es) is Ok,
        !has_feature_type(es) ==> (feature_run(d, es) matches Ok(d2) && d2.had_type
            == d.had_type),
    decreases es.len(),
{
    if es.len() > 0 {
        let rest = es.drop_first();
        assert forall|i: int| 0 <= i < rest.len() implies #[trigger] rest[i] == es[i + 1] by {}
        if has_wrong_feature_type(rest) {
            let i = choose|i: int|
                0 <= i < rest.len() && (#[trigger] rest[i]) is Type && rest[i]->Type_0
                    != "Feature"@;
            assert(es[i + 1] == rest[i]);
        }
        if has_feature_type(rest) {
            let i = choose|i: int| 0 <= i < rest.len() && (#[trigger] rest[i]) is Type;
            assert(es[i + 1] == rest[i]);
        }
        if has_wrong_feature_type(es) && !(es[0] is Type && es[0]->Type_0 != "Feature"@) {
            let i = choose|i: int|
                0 <= i < es.len() && (#[trigger] es[i]) is Type && es[i]->Type_0 != "Feature"@;
            assert(rest[i - 1] == es[i]);
        }
        if has_feature_type(es) && !(es[0] is Type) {
            let i = choose|i: int| 0 <= i < es.len() && (#[trigger] es[i]) is Type;
            assert(rest[i - 1] == es[i]);
        }
        match feature_step(d, es[0]) {
            Ok(d2) => {
                lemma_feature_run_type(d2, rest);
            },
            Err(_) => {},
        }
    }
}

/// A Feature object is refused as of the wrong type exactly when one of its
/// `"type"` members is not `"Feature"`.
pub proof fn lemma_feature_wrong_type_refused<G, P, C>(es: Seq<FeatureEvent<G, P, C>>)
    ensures
        feature_decode(es) == Err::<FeatureModel<G, P, C>, _>(DecodeError::WrongType)
            <==> has_wrong_feature_type(es),
{
    lemma_feature_run_type(feature_start::<G, P, C>(), es);
}

/// A Feature object without a `"type"` member is refused for that.
pub proof fn lemma_feature_missing_type_refused<G, P, C>(es: Seq<FeatureEvent<G, P, C>>)
    requires
        !has_feature_type(es),
    ensures
        feature_decode(es) == Err::<FeatureModel<G, P, C>, _>(DecodeError::MissingType),
{
    lemma_feature_run_type(feature_start::<G, P, C>(), es);
}

// --- Features: the order of distinct members ---------------------------------------

/// Which member of a Feature object an event reads (foreign members all count
/// as one kind).
pub open spec fn feature_event_kind<G, P, C>(e: FeatureEvent<G, P, C>) -> int {
    match e {
        FeatureEvent::Type(_) => 0,
        FeatureEvent::Geometry(_) => 1,
        FeatureEvent::Properties(_) => 2,
        FeatureEvent::Id(_) => 3,
        FeatureEvent::Bbox(_) => 4,
        FeatureEvent::Foreign(_, _) => 5,
    }
}

/// `es` with its members at `i` and `i + 1` exchanged.
pub open spec fn swap_adjacent<A>(es: Seq<A>, i: int) -> Seq<A> {
    es.update(i, es[i + 1]).update(i + 1, es[i])
}

proof fn lemma_feature_swap_front<G, P, C>(
    d: FeatureState<G, P, C>,
    x: FeatureEvent<G, P, C>,
    y: FeatureEvent<G, P, C>,
    rest: Seq<FeatureEvent<G, P, C>>,
)
    requires
        feature_event_kind(x) != feature_event_kind(y),
    ensures
        feature_run(d, seq![x, y] + rest) == feature_run(d, seq![y, x] + rest),
{
    lemma_feature_run_append(d, seq![x, y], rest);
    lemma_feature_run_append(d, seq![y, x], rest);
    reveal_with_fuel(feature_run, 3);
    assert(seq![x, y].drop_first() =~= seq![y]);
    assert(seq![y, x].drop_first() =~= seq![x]);
    assert(seq![x].drop_first() =~= Seq::<FeatureEvent<G, P, C>>::empty());
    assert(seq![y].drop_first() =~= Seq::<FeatureEvent<G, P, C>>::empty());
    assert(feature_run(d, seq![x, y]) == feature_run(d, seq![y, x]));
}

/// Decoding a Feature object does not depend on the order of its distinct
/// members: exchanging two neighbouring members of different kinds (say a
/// `bbox` read before the `geometry`) gives the same Feature, or the same
/// refusal.
pub proof fn lemma_feature_member_order_irrelevant<G, P, C>(
    es: Seq<FeatureEvent<G, P, C>>,
    i: int,
)
    requires
        0 <= i,
        i + 1 < es.len(),
        feature_event_kind(es[i]) != feature_event_kind(es[i + 1]),
    ensures
        feature_decode(swap_adjacent(es, i)) == feature_decode(es),
{
    let a = es.take(i);
    let b = es.skip(i + 2);
    let x = es[i];
    let y = es[i + 1];
    assert(es =~= a + (seq![x, y] + b));
    assert(swap_adjacent(es, i) =~= a + (seq![y, x] + b));
    let d0 = feature_start::<G, P, C>();
    lemma_feature_run_append(d0, a, seq![x, y] + b);
    lemma_feature_run_append(d0, a, seq![y, x] + b);
    if let Ok(d) = feature_run(d0, a) {
        lemma_feature_swap_front(d, x, y, b);
    }
}

// --- FeatureCollections -------------------------------------------------------------------

proof fn lemma_collection_run_append<G, P, C>(
    d: CollectionState<G, P, C>,
    a: Seq<CollectionEvent<G, P, C>>,
    b: Seq<CollectionEvent<G, P, C>>,
)
    ensures
        collection_run(d, a + b) == (match collection_run(d, a) {
            Ok(d2) => collection_run(d2, b),
            Err(e) => Err(e),
        }),
    decreases a.len(),
{
    if a.len() == 0 {
        assert(a + b =~= b);
    } else {
        assert((a + b)[0] == a[0]);
        assert((a + b).drop_first() =~= a.drop_first() + b);
        match collection_step(d, a[0]) {
            Ok(d2) => lemma_collection_run_append(d2, a.drop_first(), b),
            Err(_) => {},
        }
    }
}

/// The events that read the foreign members `ms` of a collection, in order.
pub open spec fn collection_foreign_events<G, P, C>(ms: Seq<ForeignMember>) -> Seq<
    CollectionEvent<G, P, C>,
> {
    ms.map_values(|m: ForeignMember| CollectionEvent::Foreign(m.0, m.1))
}

proof fn lemma_collection_run_foreign<G, P, C>(d: CollectionState<G, P, C>, ms: Seq<ForeignMember>)
    ensures
        collection_run(d, collection_foreign_events(ms)) == Ok::<_, DecodeError>(
            CollectionState { foreign_members: d.foreign_members + ms, ..d },
        ),
    decreases ms.len(),
{
    let es = collection_foreign_events::<G, P, C>(ms);
    if ms.len() == 0 {
        assert(d.foreign_members + ms =~= d.foreign_members);
    } else {
        let d2 = CollectionState { foreign_members: d.foreign_members.push(ms[0]), ..d };
        assert(collection_step(d, es[0]) == Ok::<_, DecodeError>(d2));
        assert(es.drop_first() =~= collection_foreign_events::<G, P, C>(ms.drop_first()));
        lemma_collection_run_foreign(d2, ms.drop_first());
        assert(d2.foreign_members + ms.drop_first() =~= d.foreign_members + ms);
    }
}

/// Decoding the members written for a FeatureCollection gives that
/// collection back, its foreign members included, in order.
pub proof fn lemma_collection_round_trip<G, P, C>(collection: FeatureCollection<G, P, C>)
    ensures
        collection_decode(collection_events(collection@)) == Ok::<_, DecodeError>(collection@),
{
    let fc = collection@;
    let n = fc.foreign_members.len();
    assert(n == collection.foreign_members.len());
    let ev = |m: CollectionMember| collection_event_for(fc, m);
    let own = collection_members(fc.bbox is Some, 0);
    let own_events = own.map_values(ev);
    let foreign_events = foreign_positions_collection(n).map_values(ev);
    assert(collection_members(fc.bbox is Some, n) =~= own + foreign_positions_collection(n));
    assert(collection_events(fc) =~= own_events + foreign_events);
    assert forall|i: int| 0 <= i < n implies #[trigger] foreign_events[i]
        == collection_foreign_events::<G, P, C>(fc.foreign_members)[i] by {
        assert((i as usize) as int == i);
    }
    assert(foreign_events =~= collection_foreign_events::<G, P, C>(fc.foreign_members));
    lemma_collection_run_append(collection_start(), own_events, foreign_events);
    reveal_with_fuel(collection_run, 4);
    let d3 = CollectionState { bbox: fc.bbox, ..CollectionState {
        had_type: true,
        features: Some(fc.features),
        ..collection_start::<G, P, C>()
    } };
    assert(own_events[0] == CollectionEvent::<G, P, C>::Type("FeatureCollection"@));
    assert(own_events[1] == CollectionEvent::<G, P, C>::Features(fc.features));
    if fc.bbox is Some {
        assert(own_events[2] == CollectionEvent::<G, P, C>::Bbox(fc.bbox));
        assert(own_events.drop_first().drop_first().drop_first().len() == 0);
    } else {
        assert(own_events.drop_first().drop_first().len() == 0);
    }
    assert(collection_run(collection_start(), own_events) == Ok::<_, DecodeError>(d3));
    lemma_collection_run_foreign(d3, fc.foreign_members);
    assert(Seq::<ForeignMember>::empty() + fc.foreign_members =~= fc.foreign_members);
}

/// The foreign members among the members of a collection object, in order.
pub open spec fn collection_foreign_of<G, P, C>(es: Seq<CollectionEvent<G, P, C>>) -> Seq<
    ForeignMember,
>
    decreases es.len(),
{
    if es.len() == 0 {
        Seq::empty()
    } else {
        let rest = collection_foreign_of(es.drop_first());
        match es[0] {
            CollectionEvent::Foreign(k, v) => seq![(k, v)] + rest,
            _ => rest,
        }
    }
}

/// Two reading states that agree on everything but the foreign members.
pub open spec fn collection_same_own<G, P, C>(
    a: CollectionState<G, P, C>,
    b: CollectionState<G, P, C>,
) -> bool {
    &&& a.had_type == b.had_type
    &&& a.features == b.features
    &&& a.bbox == b.bbox
}

/// Two outcomes of reading a collection that are alike but for the foreign
/// members: both refused with the same error, or both read with the same
/// features and `bbox`.
pub open spec fn collection_alike<G, P, C>(
    a: Result<FeatureCollectionModel<G, P, C>, DecodeError>,
    b: Result<FeatureCollectionModel<G, P, C>, DecodeError>,
) -> bool {
    match (a, b) {
        (Ok(x), Ok(y)) => x.features == y.features && x.bbox == y.bbox,
        (Err(x), Err(y)) => x == y,
        _ => false,
    }
}

proof fn lemma_collection_run_kept<G, P, C>(
    d: CollectionState<G, P, C>,
    es: Seq<CollectionEvent<G, P, C>>,
)
    ensures
        collection_run(d, es) matches Ok(d2) ==> d2.foreign_members == d.foreign_members
            + collection_foreign_of(es),
    decreases es.len(),
{
    if es.len() == 0 {
        assert(d.foreign_members + Seq::<ForeignMember>::empty() =~= d.foreign_members);
    } else {
        match collection_step(d, es[0]) {
            Ok(d2) => {
                lemma_collection_run_kept(d2, es.drop_first());
                let rest = collection_foreign_of(es.drop_first());
                match es[0] {
                    CollectionEvent::Foreign(k, v) => {
                        assert(d.foreign_members.push((k, v)) + rest =~= d.foreign_members + (seq![
                            (k, v),
                        ] + rest));
                    },
                    _ => {},
                }
            },
            Err(_) => {},
        }
    }
}

/// A decoded FeatureCollection holds the foreign members of its object, in
/// the order they came.
pub proof fn lemma_collection_foreign_members_kept<G, P, C>(es: Seq<CollectionEvent<G, P, C>>)
    ensures
        collection_decode(es) matches Ok(fc) ==> fc.foreign_members == collection_foreign_of(es),
{
    lemma_collection_run_kept(collection_start(), es);
    assert(Seq::<ForeignMember>::empty() + collection_foreign_of(es) =~= collection_foreign_of(es));
}

proof fn lemma_collection_run_own<G, P, C>(
    d1: CollectionState<G, P, C>,
    d2: CollectionState<G, P, C>,
    es: Seq<CollectionEvent<G, P, C>>,
)
    requires
        collection_same_own(d1, d2),
    ensures
        match (collection_run(d1, es), collection_run(d2, es)) {
            (Ok(x), Ok(y)) => collection_same_own(x, y),
            (Err(x), Err(y)) => x == y,
            _ => false,
        },
    decreases es.len(),
{
    if es.len() > 0 {
        match (collection_step(d1, es[0]), collection_step(d2, es[0])) {
            (Ok(x), Ok(y)) => lemma_collection_run_own(x, y, es.drop_first()),
            _ => {},
        }
    }
}

proof fn lemma_collection_run_insert<G, P, C>(
    d1: CollectionState<G, P, C>,
    d2: CollectionState<G, P, C>,
    es: Seq<CollectionEvent<G, P, C>>,
    i: int,
    key: String,
    value: serde_json::Value,
)
    requires
        collection_same_own(d1, d2),
        0 <= i <= es.len(),
    ensures
        match (
            collection_run(d1, es.insert(i, CollectionEvent::Foreign(key, value))),
            collection_run(d2, es),
        ) {
            (Ok(x), Ok(y)) => collection_same_own(x, y),
            (Err(x), Err(y)) => x == y,
            _ => false,
        },
    decreases i,
{
    let es2 = es.insert(i, CollectionEvent::Foreign(key, value));
    if i == 0 {
        assert(es2.drop_first() =~= es);
        let d1b = CollectionState { foreign_members: d1.foreign_members.push((key, value)), ..d1 };
        lemma_collection_run_own(d1b, d2, es);
    } else {
        assert(es2[0] == es[0]);
        assert(es2.drop_first() =~= es.drop_first().insert(
            i - 1,
            CollectionEvent::Foreign(key, value),
        ));
        match (collection_step(d1, es[0]), collection_step(d2, es[0])) {
            (Ok(x), Ok(y)) => lemma_collection_run_insert(x, y, es.drop_first(), i - 1, key, value),
            _ => {},
        }
    }
}

/// A foreign member, wherever it stands among the members of a
/// FeatureCollection object, changes neither whether the object is accepted,
/// nor the error it is refused with, nor the collection's features and
/// `bbox`.
pub proof fn lemma_collection_foreign_member_tolerated<G, P, C>(
    es: Seq<CollectionEvent<G, P, C>>,
    i: int,
    key: String,
    value: serde_json::Value,
)
    requires
        0 <= i <= es.len(),
    ensures
        collection_alike(
            collection_decode(es.insert(i, CollectionEvent::Foreign(key, value))),
            collection_decode(es),
        ),
{
    let d0 = collection_start::<G, P, C>();
    lemma_collection_run_insert(d0, d0, es, i, key, value);
}

/// Some member is a `"type"` that is not `"FeatureCollection"`.
pub open spec fn has_wrong_collection_type<G, P, C>(es: Seq<CollectionEvent<G, P, C>>) -> bool {
    exists|i: int|
        0 <= i < es.len() && (#[trigger] es[i]) is Type && es[i]->Type_0
            != "FeatureCollection"@
}

/// Some member of a collection object is a `"type"`.
pub open spec fn has_collection_type<G, P, C>(es: Seq<CollectionEvent<G, P, C>>) -> bool {
    exists|i: int| 0 <= i < es.len() && (#[trigger] es[i]) is Type
}

proof fn lemma_collection_run_type<G, P, C>(
    d: CollectionState<G, P, C>,
    es: Seq<CollectionEvent<G, P, C>>,
)
    ensures
        collection_run(d, es) == Err::<CollectionState<G, P, C>, _>(DecodeError::WrongType)
            <==> has_wrong_collection_type(es),
        !has_wrong_collection_type(es) ==> collection_run(d, es) is Ok,
        !has_collection_type(es) ==> (collection_run(d, es) matches Ok(d2) && d2.had_type
            == d.had_type),
    decreases es.len(),
{
    if es.len() > 0 {
        let rest = es.drop_first();
        assert forall|i: int| 0 <= i < rest.len() implies #[trigger] rest[i] == es[i + 1] by {}
        if has_wrong_collection_type(rest) {
            let i = choose|i: int|
                0 <= i < rest.len() && (#[trigger] rest[i]) is Type && rest[i]->Type_0
                    != "FeatureCollection"@;
            assert(es[i + 1] == rest[i]);
        }
        if has_collection_type(rest) {
            let i = choose|i: int| 0 <= i < rest.len() && (#[trigger] rest[i]) is Type;
            assert(es[i + 1] == rest[i]);
        }
        if has_wrong_collection_type(es) && !(es[0] is Type && es[0]->Type_0
            != "FeatureCollection"@) {
            let i = choose|i: int|
                0 <= i < es.len() && (#[trigger] es[i]) is Type && es[i]->Type_0
                    != "FeatureCollection"@;
            assert(rest[i - 1] == es[i]);
        }
        if has_collection_type(es) && !(es[0] is Type) {
            let i = choose|i: int| 0 <= i < es.len() && (#[trigger] es[i]) is Type;
            assert(rest[i - 1] == es[i]);
        }
        match collection_step(d, es[0]) {
            Ok(d2) => {
                lemma_collection_run_type(d2, rest);
            },
            Err(_) => {},
        }
    }
}

/// A FeatureCollection object is refused as of the wrong type exactly when one
/// of its `"type"` members is not `"FeatureCollection"`.
pub proof fn lemma_collection_wrong_type_refused<G, P, C>(es: Seq<CollectionEvent<G, P, C>>)
    ensures
        collection_decode(es) == Err::<FeatureCollectionModel<G, P, C>, _>(DecodeError::WrongType)
            <==> has_wrong_collection_type(es),
{
    lemma_collection_run_type(collection_start::<G, P, C>(), es);
}

/// A FeatureCollection object without a `"type"` member is refused for that.
pub proof fn lemma_collection_missing_type_refused<G, P, C>(es: Seq<CollectionEvent<G, P, C>>)
    requires
        !has_collection_type(es),
    ensures
        collection_decode(es) == Err::<FeatureCollectionModel<G, P, C>, _>(
            DecodeError::MissingType,
        ),
{
    lemma_collection_run_type(collection_start::<G, P, C>(), es);
}


// --- FeatureCollections: the order of distinct members -----------------------------

/// Which member of a FeatureCollection object an event reads (foreign members
/// all count as one kind).
pub open spec fn collection_event_kind<G, P, C>(e: CollectionEvent<G, P, C>) -> int {
    match e {
        CollectionEvent::Type(_) => 0,
        CollectionEvent::Features(_) => 1,
        CollectionEvent::Bbox(_) => 2,
        CollectionEvent::Foreign(_, _) => 3,
    }
}

proof fn lemma_collection_swap_front<G, P, C>(
    d: CollectionState<G, P, C>,
    x: CollectionEvent<G, P, C>,
    y: CollectionEvent<G, P, C>,
    rest: Seq<CollectionEvent<G, P, C>>,
)
    requires
        collection_event_kind(x) != collection_event_kind(y),
    ensures
        collection_run(d, seq![x, y] + rest) == collection_run(d, seq![y, x] + rest),
{
    lemma_collection_run_append(d, seq![x, y], rest);
    lemma_collection_run_append(d, seq![y, x], rest);
    reveal_with_fuel(collection_run, 3);
    assert(seq![x, y].drop_first() =~= seq![y]);
    assert(seq![y, x].drop_first() =~= seq![x]);
    assert(seq![x].drop_first() =~= Seq::<CollectionEvent<G, P, C>>::empty());
    assert(seq![y].drop_first() =~= Seq::<CollectionEvent<G, P, C>>::empty());
    assert(collection_run(d, seq![x, y]) == collection_run(d, seq![y, x]));
}

/// Decoding a FeatureCollection object does not depend on the order of its
/// distinct members: exchanging two neighbouring members of different kinds
/// (say a `bbox` read before `features`) gives the same collection, or the
/// same refusal.
pub proof fn lemma_collection_member_order_irrelevant<G, P, C>(
    es: Seq<CollectionEvent<G, P, C>>,
    i: int,
)
    requires
        0 <= i,
        i + 1 < es.len(),
        collection_event_kind(es[i]) != collection_event_kind(es[i + 1]),
    ensures
        collection_decode(swap_adjacent(es, i)) == collection_decode(es),
{
    let a = es.take(i);
    let b = es.skip(i + 2);
    let x = es[i];
    let y = es[i + 1];
    assert(es =~= a + (seq![x, y] + b));
    assert(swap_adjacent(es, i) =~= a + (seq![y, x] + b));
    let d0 = collection_start::<G, P, C>();
    lemma_collection_run_append(d0, a, seq![x, y] + b);
    lemma_collection_run_append(d0, a, seq![y, x] + b);
    if let Ok(d) = collection_run(d0, a) {
        lemma_collection_swap_front(d, x, y, b);
    }
}

} // verus!
