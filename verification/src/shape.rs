//! What it means for two JSON values to have the same shape, and where two
//! values first differ.
//!
//! Two values have the same shape when they are of the same kind and, for
//! arrays, have the same length and items of the same shape at each index,
//! for objects, have the same keys and values of the same shape under each
//! key. What a scalar holds plays no part.

use crate::error::SegmentView;
use crate::error::TesterError;
use crate::error::TesterErrorView;
use crate::json::has_key;
use crate::json::value_of;
use crate::json::JsonView;
use vstd::prelude::*;

verus! {

/// `a` and `b` have the same shape: they are of the same kind; two arrays
/// have the same length and, index by index, items of the same shape; two
/// objects have the same keys and, key by key, values of the same shape.
pub open spec fn same_shape(a: JsonView, b: JsonView) -> bool
    decreases a,
{
    match (a, b) {
        (JsonView::Array(x), JsonView::Array(y)) => {
            &&& x.len() == y.len()
            &&& forall|i: int| 0 <= i < x.len() ==> same_shape(#[trigger] x[i], y[i])
        },
        (JsonView::Object(x), JsonView::Object(y)) => {
            &&& forall|i: int|
                0 <= i < x.len() ==> has_key(y, (#[trigger] x[i]).0) && same_shape(
                    x[i].1,
                    value_of(y, x[i].0),
                )
            &&& forall|j: int| 0 <= j < y.len() ==> has_key(x, (#[trigger] y[j]).0)
        },
        _ => a.tag() == b.tag(),
    }
}

/// The member `m` of one object has a counterpart of the same shape among
/// `others`, the members of another object: a member with the same key,
/// whose value has the shape of `m`'s.
pub open spec fn member_agrees(m: (Seq<char>, JsonView), others: Seq<(Seq<char>, JsonView)>) -> bool {
    has_key(others, m.0) && same_shape(m.1, value_of(others, m.0))
}

/// `i` is the first index at which the arrays `x` and `y` hold items of
/// different shape.
pub open spec fn is_first_differing_item(x: Seq<JsonView>, y: Seq<JsonView>, i: int) -> bool {
    &&& 0 <= i < x.len()
    &&& !same_shape(x[i], y[i])
    &&& forall|j: int| 0 <= j < i ==> same_shape(#[trigger] x[j], y[j])
}

/// The first index at which `x` and `y` differ in shape, where there is one.
pub open spec fn first_differing_item(x: Seq<JsonView>, y: Seq<JsonView>) -> int {
    choose|i: int| is_first_differing_item(x, y, i)
}

/// `i` is the position of the first member of `x` that has no counterpart
/// of the same shape in `y`.
pub open spec fn is_first_disagreeing_member(
    x: Seq<(Seq<char>, JsonView)>,
    y: Seq<(Seq<char>, JsonView)>,
    i: int,
) -> bool {
    &&& 0 <= i < x.len()
    &&& !member_agrees(x[i], y)
    &&& forall|j: int| 0 <= j < i ==> member_agrees(#[trigger] x[j], y)
}

/// The position of the first member of `x` without a counterpart of the
/// same shape in `y`, where there is one.
pub open spec fn first_disagreeing_member(
    x: Seq<(Seq<char>, JsonView)>,
    y: Seq<(Seq<char>, JsonView)>,
) -> int {
    choose|i: int| is_first_disagreeing_member(x, y, i)
}

/// `j` is the position of the first member of `y` whose key `x` lacks.
pub open spec fn is_first_extra_member(
    x: Seq<(Seq<char>, JsonView)>,
    y: Seq<(Seq<char>, JsonView)>,
    j: int,
) -> bool {
    &&& 0 <= j < y.len()
    &&& !has_key(x, y[j].0)
    &&& forall|k: int| 0 <= k < j ==> has_key(x, (#[trigger] y[k]).0)
}

/// The position of the first member of `y` whose key `x` lacks, where there
/// is one.
pub open spec fn first_extra_member(
    x: Seq<(Seq<char>, JsonView)>,
    y: Seq<(Seq<char>, JsonView)>,
) -> int {
    choose|j: int| is_first_extra_member(x, y, j)
}

/// A place where two values differ in shape: the path to it from the root,
/// and what each side holds there.
pub struct Divergence {
    pub path: Seq<SegmentView>,
    pub client_value: JsonView,
    pub actual_value: JsonView,
}

/// The first place where `a` and `b` differ in shape, if they do; `path`
/// is the path that leads to `a` and `b` themselves.
///
/// Values of different kinds differ where they stand. Arrays of different
/// lengths differ as a whole; arrays of one length differ where their first
/// pair of differing items does. Objects are walked in two passes. The first
/// goes through the members of `a` in order and stops at the first without
/// a counterpart of the same shape in `b`: where `b` lacks the key, `a`'s
/// value stands against null; where `b` has it, the two values differ
/// further down. The second goes through the members of `b` and stops at the
/// first whose key `a` lacks: null stands against `b`'s value.
pub open spec fn divergence(a: JsonView, b: JsonView, path: Seq<SegmentView>) -> Option<
    Divergence,
>
    decreases a,
{
    match (a, b) {
        (JsonView::Array(x), JsonView::Array(y)) => {
            if x.len() != y.len() {
                Some(Divergence { path, client_value: a, actual_value: b })
            } else if exists|i: int| is_first_differing_item(x, y, i) {
                let i = first_differing_item(x, y);
                divergence(x[i], y[i], path.push(SegmentView::Index(i as nat)))
            } else {
                None
            }
        },
        (JsonView::Object(x), JsonView::Object(y)) => {
            if exists|i: int| is_first_disagreeing_member(x, y, i) {
                let i = first_disagreeing_member(x, y);
                let key = x[i].0;
                if has_key(y, key) {
                    divergence(x[i].1, value_of(y, key), path.push(SegmentView::Key(key)))
                } else {
                    Some(
                        Divergence {
                            path: path.push(SegmentView::Key(key)),
                            client_value: x[i].1,
                            actual_value: JsonView::Null,
                        },
                    )
                }
            } else if exists|j: int| is_first_extra_member(x, y, j) {
                let j = first_extra_member(x, y);
                Some(
                    Divergence {
                        path: path.push(SegmentView::Key(y[j].0)),
                        client_value: JsonView::Null,
                        actual_value: y[j].1,
                    },
                )
            } else {
                None
            }
        },
        _ => {
            if a.tag() == b.tag() {
                None
            } else {
                Some(Divergence { path, client_value: a, actual_value: b })
            }
        },
    }
}

/// The error that reports the divergence `d` for `endpoint`.
pub open spec fn mismatch(endpoint: Seq<char>, d: Divergence) -> TesterErrorView {
    TesterErrorView::JsonTypeMismatch {
        endpoint,
        path: d.path,
        client_value: d.client_value,
        actual_value: d.actual_value,
    }
}

/// The result `r` says what `d` says: success where there is no
/// divergence, else the mismatch that reports it for `endpoint`.
pub open spec fn reports(r: Result<(), TesterError>, endpoint: Seq<char>, d: Option<Divergence>) -> bool {
    match d {
        None => r is Ok,
        Some(d) => r matches Err(e) && e@ == mismatch(endpoint, d),
    }
}

/// Where the arrays differ at some index, they differ at a first one.
pub proof fn lemma_first_differing_item_exists(x: Seq<JsonView>, y: Seq<JsonView>, k: int)
    requires
        0 <= k < x.len(),
        !same_shape(x[k], y[k]),
    ensures
        exists|i: int| is_first_differing_item(x, y, i),
    decreases k,
{
    if forall|j: int| 0 <= j < k ==> same_shape(#[trigger] x[j], y[j]) {
        assert(is_first_differing_item(x, y, k));
    } else {
        let j = choose|j: int| 0 <= j < k && !same_shape(#[trigger] x[j], y[j]);
        lemma_first_differing_item_exists(x, y, j);
    }
}

/// Where some member of `x` has no counterpart of the same shape in `y`, a
/// first one has none.
pub proof fn lemma_first_disagreeing_member_exists(
    x: Seq<(Seq<char>, JsonView)>,
    y: Seq<(Seq<char>, JsonView)>,
    k: int,
)
    requires
        0 <= k < x.len(),
        !member_agrees(x[k], y),
    ensures
        exists|i: int| is_first_disagreeing_member(x, y, i),
    decreases k,
{
    if forall|j: int| 0 <= j < k ==> member_agrees(#[trigger] x[j], y) {
        assert(is_first_disagreeing_member(x, y, k));
    } else {
        let j = choose|j: int| 0 <= j < k && !member_agrees(#[trigger] x[j], y);
        lemma_first_disagreeing_member_exists(x, y, j);
    }
}

/// Where `x` lacks the key of some member of `y`, it lacks that of a first
/// one.
pub proof fn lemma_first_extra_member_exists(
    x: Seq<(Seq<char>, JsonView)>,
    y: Seq<(Seq<char>, JsonView)>,
    k: int,
)
    requires
        0 <= k < y.len(),
        !has_key(x, y[k].0),
    ensures
        exists|j: int| is_first_extra_member(x, y, j),
    decreases k,
{
    if forall|j: int| 0 <= j < k ==> has_key(x, (#[trigger] y[j]).0) {
        assert(is_first_extra_member(x, y, k));
    } else {
        let j = choose|j: int| 0 <= j < k && !has_key(x, (#[trigger] y[j]).0);
        lemma_first_extra_member_exists(x, y, j);
    }
}

/// Two values have the same shape exactly when they differ nowhere.
pub proof fn lemma_same_shape_iff_no_divergence(a: JsonView, b: JsonView, path: Seq<SegmentView>)
    ensures
        same_shape(a, b) <==> divergence(a, b, path) is None,
    decreases a,
{
    match (a, b) {
        (JsonView::Array(x), JsonView::Array(y)) => {
            if x.len() != y.len() {
            } else if exists|i: int| is_first_differing_item(x, y, i) {
                let i = first_differing_item(x, y);
                lemma_same_shape_iff_no_divergence(
                    x[i],
                    y[i],
                    path.push(SegmentView::Index(i as nat)),
                );
            } else {
                assert forall|i: int| 0 <= i < x.len() implies same_shape(#[trigger] x[i], y[i]) by {
                    if !same_shape(x[i], y[i]) {
                        lemma_first_differing_item_exists(x, y, i);
                    }
                }
            }
        },
        (JsonView::Object(x), JsonView::Object(y)) => {
            if exists|i: int| is_first_disagreeing_member(x, y, i) {
                let i = first_disagreeing_member(x, y);
                let key = x[i].0;
                if has_key(y, key) {
                    lemma_same_shape_iff_no_divergence(
                        x[i].1,
                        value_of(y, key),
                        path.push(SegmentView::Key(key)),
                    );
                }
            } else if exists|j: int| is_first_extra_member(x, y, j) {
                let j = first_extra_member(x, y);
                assert(!has_key(x, y[j].0));
            } else {
                assert forall|i: int| 0 <= i < x.len() implies member_agrees(#[trigger] x[i], y) by {
                    if !member_agrees(x[i], y) {
                        lemma_first_disagreeing_member_exists(x, y, i);
                    }
                }
                assert forall|j: int| 0 <= j < y.len() implies has_key(x, (#[trigger] y[j]).0) by {
                    if !has_key(x, y[j].0) {
                        lemma_first_extra_member_exists(x, y, j);
                    }
                }
            }
        },
        _ => {},
    }
}

} // verus!
