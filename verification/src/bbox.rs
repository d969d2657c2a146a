use vstd::prelude::*;

verus! {

/// A GeoJSON bounding box (RFC 7946 §5): a flat array of `2*n` numbers, either
/// 4 (2D, `[west, south, east, north]`) or 6 (3D, with min/max elevation).
///
/// Generic over the coordinate scalar `C`.
#[derive(Clone, Copy, Debug, PartialEq)]
pub enum Bbox<C> {
    /// 2D bounding box: `[west, south, east, north]`.
    D2([C; 4]),
    /// 3D bounding box: `[west, south, min-elev, east, north, max-elev]`.
    D3([C; 6]),
}

impl<C> View for Bbox<C> {
    type V = Seq<C>;

    /// A bounding box is seen as its flat list of numbers; the variant is
    /// recovered from the length (4 or 6).
    open spec fn view(&self) -> Seq<C> {
        match self {
            Bbox::D2(a) => a@,
            Bbox::D3(a) => a@,
        }
    }
}

/// The error of [`bbox_from_vec`]: the list did not hold 4 or 6 numbers.
#[derive(Clone, Copy, Debug, PartialEq, Eq)]
pub struct BboxLengthError {
    /// How many numbers the list held.
    pub found: usize,
}

/// Whether a flat list of `n` numbers is a valid RFC 7946 bounding box length.
pub open spec fn is_bbox_len(n: nat) -> bool {
    n == 4 || n == 6
}

/// Build a [`Bbox`] from a flat list of numbers (as the untyped `geojson`
/// crate stores it), accepting only the RFC 7946 lengths of 4 or 6.
pub fn bbox_from_vec<C: Copy>(v: Vec<C>) -> (res: Result<Bbox<C>, BboxLengthError>)
    ensures
        res is Ok <==> is_bbox_len(v@.len()),
        res matches Ok(b) ==> b@ == v@ && (b is D2 <==> v@.len() == 4),
        res matches Err(e) ==> e.found == v@.len(),
{
    let n = v.len();
    if n == 4 {
        let a = [v[0], v[1], v[2], v[3]];
        assert(a@ =~= v@);
        Ok(Bbox::D2(a))
    } else if n == 6 {
        let a = [v[0], v[1], v[2], v[3], v[4], v[5]];
        assert(a@ =~= v@);
        Ok(Bbox::D3(a))
    } else {
        Err(BboxLengthError { found: n })
    }
}

/// The flat list of numbers of a [`Bbox`].
pub fn bbox_into_vec<C: Copy>(bbox: Bbox<C>) -> (res: Vec<C>)
    ensures
        res@ == bbox@,
        is_bbox_len(res@.len()),
{
    match bbox {
        Bbox::D2(a) => {
            let v = vec![a[0], a[1], a[2], a[3]];
            assert(v@ =~= a@);
            v
        },
        Bbox::D3(a) => {
            let v = vec![a[0], a[1], a[2], a[3], a[4], a[5]];
            assert(v@ =~= a@);
            v
        },
    }
}

/// A bounding box is determined by its flat list of numbers, so converting a
/// box to its list and accepting the list back gives the same box.
pub proof fn lemma_bbox_determined_by_list<C>(b1: Bbox<C>, b2: Bbox<C>)
    requires
        b1@ == b2@,
    ensures
        b1 == b2,
{
    broadcast use vstd::array::group_array_axioms;

    match (b1, b2) {
        (Bbox::D2(a1), Bbox::D2(a2)) => {
            assert(a1 =~= a2);
        },
        (Bbox::D3(a1), Bbox::D3(a2)) => {
            assert(a1 =~= a2);
        },
        (Bbox::D2(a1), Bbox::D3(a2)) => {
            assert(a1@.len() == 4 && a2@.len() == 6);
        },
        (Bbox::D3(a1), Bbox::D2(a2)) => {
            assert(a1@.len() == 6 && a2@.len() == 4);
        },
    }
}

/// The flat list of any bounding box has a valid length, 4 exactly for a 2D
/// box, so a bounding box converted to a list is accepted back as the same box.
pub proof fn lemma_bbox_list_accepted<C>(b: Bbox<C>)
    ensures
        is_bbox_len(b@.len()),
        b is D2 <==> b@.len() == 4,
{
}


/// The bounding box whose flat list is `v` (one with 4 or 6 numbers).
pub open spec fn bbox_of_list<C>(v: Seq<C>) -> Bbox<C> {
    choose|b: Bbox<C>| b@ == v
}

/// Every list of 4 or 6 numbers is the flat list of a bounding box.
pub proof fn lemma_bbox_list_exists<C>(v: Seq<C>)
    requires
        is_bbox_len(v.len()),
    ensures
        bbox_of_list(v)@ == v,
{
    broadcast use vstd::array::group_array_axioms;

    if v.len() == 4 {
        let a0: [C; 4] = vstd::pervasive::arbitrary();
        let a = vstd::array::spec_array_update(
            vstd::array::spec_array_update(
                vstd::array::spec_array_update(vstd::array::spec_array_update(a0, 0, v[0]), 1, v[1]),
                2,
                v[2],
            ),
            3,
            v[3],
        );
        assert(a@ =~= v);
        assert(Bbox::D2(a)@ == v);
    } else {
        let a0: [C; 6] = vstd::pervasive::arbitrary();
        let a1 = vstd::array::spec_array_update(vstd::array::spec_array_update(a0, 0, v[0]), 1, v[1]);
        let a2 = vstd::array::spec_array_update(vstd::array::spec_array_update(a1, 2, v[2]), 3, v[3]);
        let a = vstd::array::spec_array_update(vstd::array::spec_array_update(a2, 4, v[4]), 5, v[5]);
        assert(a@ =~= v);
        assert(Bbox::D3(a)@ == v);
    }
}

} // verus!
