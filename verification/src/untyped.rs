//! The rules for crossing to and from the untyped `geojson` Feature, whose
//! `properties` are a JSON object or nothing, whose `bbox` is a flat list,
//! and whose foreign members are there only when there is at least one.
use vstd::prelude::*;

use crate::bbox::{
    bbox_from_vec, bbox_into_vec, bbox_of_list, is_bbox_len, lemma_bbox_determined_by_list,
    lemma_bbox_list_exists, BboxLengthError,
};
use crate::feature::{Feature, FeatureModel, ForeignMember, Id};

verus! {

/// The shape of a JSON value, as far as Feature properties care: an object
/// (holding `M`), `null`, or anything else.
#[derive(Clone, Debug, PartialEq)]
pub enum JsonShape<M> {
    Object(M),
    Null,
    Other,
}

/// Feature properties that encode to neither a JSON object nor `null`.
#[derive(Clone, Copy, Debug, PartialEq, Eq)]
pub struct NotAnObject;

/// Untyped Feature properties from encoded typed ones: an object is kept,
/// `null` means no properties, and anything else is refused.
pub open spec fn properties_of<M>(v: JsonShape<M>) -> Result<Option<M>, NotAnObject> {
    match v {
        JsonShape::Object(m) => Ok(Some(m)),
        JsonShape::Null => Ok(None),
        JsonShape::Other => Err(NotAnObject),
    }
}

/// The JSON value that untyped Feature properties stand for: their object, or
/// `null` when there are none.
pub open spec fn value_of<M>(p: Option<M>) -> JsonShape<M> {
    match p {
        Some(m) => JsonShape::Object(m),
        None => JsonShape::Null,
    }
}

/// Untyped Feature properties from encoded typed ones.
pub fn untyped_properties<M>(v: JsonShape<M>) -> (r: Result<Option<M>, NotAnObject>)
    ensures
        r == properties_of(v),
{
    match v {
        JsonShape::Object(m) => Ok(Some(m)),
        JsonShape::Null => Ok(None),
        JsonShape::Other => Err(NotAnObject),
    }
}

/// The JSON value that untyped Feature properties stand for.
pub fn properties_value<M>(p: Option<M>) -> (v: JsonShape<M>)
    ensures
        v == value_of(p),
{
    match p {
        Some(m) => JsonShape::Object(m),
        None => JsonShape::Null,
    }
}

/// Untyped properties turned into a JSON value are accepted back unchanged.
pub proof fn lemma_properties_round_trip<M>(p: Option<M>)
    ensures
        properties_of(value_of(p)) == Ok::<_, NotAnObject>(p),
{
}


// --- foreign members ----------------------------------------------------------------

/// Untyped foreign members from typed ones: none at all when there are none.
pub open spec fn foreign_members_of(ms: Seq<ForeignMember>) -> Option<Seq<ForeignMember>> {
    if ms.len() == 0 {
        None
    } else {
        Some(ms)
    }
}

/// Typed foreign members from untyped ones: none when there are none.
pub open spec fn typed_foreign_members_of(ms: Option<Seq<ForeignMember>>) -> Seq<ForeignMember> {
    match ms {
        Some(s) => s,
        None => Seq::empty(),
    }
}

/// Untyped foreign members from typed ones.
pub fn untyped_foreign_members(ms: Vec<ForeignMember>) -> (r: Option<Vec<ForeignMember>>)
    ensures
        match r {
            Some(v) => foreign_members_of(ms@) == Some(v@),
            None => foreign_members_of(ms@) is None,
        },
{
    if ms.len() == 0 {
        None
    } else {
        Some(ms)
    }
}

/// Typed foreign members from untyped ones.
pub fn typed_foreign_members(ms: Option<Vec<ForeignMember>>) -> (r: Vec<ForeignMember>)
    ensures
        r@ == typed_foreign_members_of(
            match ms {
                Some(v) => Some(v@),
                None => None,
            },
        ),
{
    match ms {
        Some(v) => v,
        None => Vec::new(),
    }
}

// --- whole Features -----------------------------------------------------------------

/// An untyped `geojson` Feature as plain values: its geometry `G` (nullable
/// there), its properties as a JSON object `M` or none, its bounding box as a
/// flat list, and its foreign members, if any.
#[derive(Debug, PartialEq)]
pub struct UntypedFeature<G, M, C> {
    pub bbox: Option<Vec<C>>,
    pub geometry: G,
    pub id: Option<Id>,
    pub properties: Option<M>,
    pub foreign_members: Option<Vec<ForeignMember>>,
}

/// An untyped Feature as mathematical values.
pub struct UntypedFeatureModel<G, M, C> {
    pub bbox: Option<Seq<C>>,
    pub geometry: G,
    pub id: Option<Id>,
    pub properties: Option<M>,
    pub foreign_members: Option<Seq<ForeignMember>>,
}

impl<G, M, C> View for UntypedFeature<G, M, C> {
    type V = UntypedFeatureModel<G, M, C>;

    open spec fn view(&self) -> UntypedFeatureModel<G, M, C> {
        UntypedFeatureModel {
            bbox: match self.bbox {
                Some(v) => Some(v@),
                None => None,
            },
            geometry: self.geometry,
            id: self.id,
            properties: self.properties,
            foreign_members: match self.foreign_members {
                Some(v) => Some(v@),
                None => None,
            },
        }
    }
}

/// The untyped Feature for a typed one whose properties are encoded as `M`:
/// refused when the properties are neither an object nor `null`.
pub open spec fn untyped_of<G, M, C>(f: FeatureModel<G, JsonShape<M>, C>) -> Result<
    UntypedFeatureModel<G, M, C>,
    NotAnObject,
> {
    match properties_of(f.properties) {
        Err(e) => Err(e),
        Ok(p) => Ok(
            UntypedFeatureModel {
                bbox: match f.bbox {
                    Some(b) => Some(b@),
                    None => None,
                },
                geometry: f.geometry,
                id: f.id,
                properties: p,
                foreign_members: foreign_members_of(f.foreign_members),
            },
        ),
    }
}

/// The typed Feature, properties encoded as `M`, for an untyped one: refused
/// when the bounding box holds neither 4 nor 6 numbers.
pub open spec fn typed_of<G, M, C>(u: UntypedFeatureModel<G, M, C>) -> Result<
    FeatureModel<G, JsonShape<M>, C>,
    BboxLengthError,
> {
    match u.bbox {
        Some(v) if !is_bbox_len(v.len()) => Err(BboxLengthError { found: v.len() as usize }),
        _ => Ok(
            FeatureModel {
                geometry: u.geometry,
                properties: value_of(u.properties),
                id: u.id,
                bbox: match u.bbox {
                    Some(v) => Some(bbox_of_list(v)),
                    None => None,
                },
                foreign_members: typed_foreign_members_of(u.foreign_members),
            },
        ),
    }
}

/// A typed Feature, its properties encoded, as an untyped one.
pub fn to_untyped<G, M, C: Copy>(f: Feature<G, JsonShape<M>, C>) -> (r: Result<
    UntypedFeature<G, M, C>,
    NotAnObject,
>)
    ensures
        match r {
            Ok(u) => untyped_of(f@) == Ok::<_, NotAnObject>(u@),
            Err(e) => untyped_of(f@) == Err::<UntypedFeatureModel<G, M, C>, _>(e),
        },
{
    let ghost model = f@;
    let properties = match untyped_properties(f.properties) {
        Ok(p) => p,
        Err(e) => return Err(e),
    };
    let bbox = match f.bbox {
        Some(b) => Some(bbox_into_vec(b)),
        None => None,
    };
    let u = UntypedFeature {
        bbox,
        geometry: f.geometry,
        id: f.id,
        properties,
        foreign_members: untyped_foreign_members(f.foreign_members),
    };
    assert(untyped_of(model) == Ok::<_, NotAnObject>(u@));
    Ok(u)
}

/// An untyped Feature as a typed one, its properties still encoded.
pub fn from_untyped<G, M, C: Copy>(u: UntypedFeature<G, M, C>) -> (r: Result<
    Feature<G, JsonShape<M>, C>,
    BboxLengthError,
>)
    ensures
        match r {
            Ok(f) => typed_of(u@) == Ok::<_, BboxLengthError>(f@),
            Err(e) => typed_of(u@) == Err::<FeatureModel<G, JsonShape<M>, C>, _>(e),
        },
{
    let ghost model = u@;
    let bbox = match u.bbox {
        Some(v) => match bbox_from_vec(v) {
            Ok(b) => {
                proof {
                    lemma_bbox_determined_by_list(b, bbox_of_list(b@));
                }
                Some(b)
            },
            Err(e) => return Err(e),
        },
        None => None,
    };
    let f = Feature {
        geometry: u.geometry,
        properties: properties_value(u.properties),
        id: u.id,
        bbox,
        foreign_members: typed_foreign_members(u.foreign_members),
    };
    assert(typed_of(model) == Ok::<_, BboxLengthError>(f@));
    Ok(f)
}

/// A typed Feature whose properties encode to an object or `null` crosses to
/// an untyped Feature and back unchanged: geometry, properties, `id`, `bbox`
/// and foreign members.
pub proof fn lemma_untyped_round_trip<G, M, C>(f: FeatureModel<G, JsonShape<M>, C>)
    requires
        !(f.properties is Other),
    ensures
        untyped_of(f) matches Ok(u) && typed_of(u) == Ok::<_, BboxLengthError>(f),
{
    if let Some(b) = f.bbox {
        lemma_bbox_determined_by_list(b, bbox_of_list(b@));
    }
    if f.foreign_members.len() == 0 {
        assert(f.foreign_members =~= Seq::<ForeignMember>::empty());
    }
}

/// An untyped Feature whose bounding box holds 4 or 6 numbers, and whose
/// foreign members, when present, are not empty, crosses to a typed Feature
/// and back unchanged.
pub proof fn lemma_typed_round_trip<G, M, C>(u: UntypedFeatureModel<G, M, C>)
    requires
        u.bbox matches Some(v) ==> is_bbox_len(v.len()),
        u.foreign_members matches Some(ms) ==> ms.len() > 0,
    ensures
        typed_of(u) matches Ok(f) && untyped_of(f) == Ok::<_, NotAnObject>(u),
{
    if let Some(v) = u.bbox {
        lemma_bbox_list_exists(v);
    }
}

} // verus!
