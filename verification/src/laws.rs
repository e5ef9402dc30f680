//! What holds of the comparison for all values, stated over [`same_shape`]
//! and [`divergence`], of which the comparator's contracts speak.

use crate::error::SegmentView;
use crate::json::distinct_keys;
use crate::json::has_key;
use crate::json::is_first_with_key;
use crate::json::key_index;
use crate::json::lemma_distinct_keys_first;
use crate::json::lemma_first_key_exists;
use crate::json::value_of;
use crate::json::JsonView;
use crate::shape::divergence;
use crate::shape::first_differing_item;
use crate::shape::first_disagreeing_member;
use crate::shape::first_extra_member;
use crate::shape::is_first_differing_item;
use crate::shape::is_first_disagreeing_member;
use crate::shape::is_first_extra_member;
use crate::shape::lemma_same_shape_iff_no_divergence;
use crate::shape::member_agrees;
use crate::shape::same_shape;
use crate::shape::Divergence;
use vstd::prelude::*;

verus! {

/// Reflexivity: a well-formed value has the same shape as itself, so its
/// comparison with itself finds no divergence.
pub proof fn lemma_same_shape_reflexive(t: JsonView, path: Seq<SegmentView>)
    requires
        t.wf(),
    ensures
        same_shape(t, t),
        divergence(t, t, path) is None,
    decreases t,
{
    match t {
        JsonView::Array(x) => {
            assert forall|i: int| 0 <= i < x.len() implies same_shape(#[trigger] x[i], x[i]) by {
                lemma_same_shape_reflexive(x[i], path);
            }
        },
        JsonView::Object(x) => {
            assert forall|i: int| 0 <= i < x.len() implies member_agrees(#[trigger] x[i], x) by {
                lemma_distinct_keys_first(x, i);
                lemma_same_shape_reflexive(x[i].1, path);
            }
            assert forall|j: int| 0 <= j < x.len() implies has_key(x, (#[trigger] x[j]).0) by {
                lemma_distinct_keys_first(x, j);
            }
        },
        _ => {},
    }
    lemma_same_shape_iff_no_divergence(t, t, path);
}

/// `a` and `b` are the same tree but for what their scalars hold: at each
/// position they are of the same kind, arrays have the same length, and
/// objects have the same keys in the same order.
pub open spec fn differ_in_scalar_values_only(a: JsonView, b: JsonView) -> bool
    decreases a,
{
    match (a, b) {
        (JsonView::Array(x), JsonView::Array(y)) => {
            &&& x.len() == y.len()
            &&& forall|i: int|
                0 <= i < x.len() ==> differ_in_scalar_values_only(#[trigger] x[i], y[i])
        },
        (JsonView::Object(x), JsonView::Object(y)) => {
            &&& x.len() == y.len()
            &&& forall|i: int|
                0 <= i < x.len() ==> (#[trigger] x[i]).0 == y[i].0
                    && differ_in_scalar_values_only(x[i].1, y[i].1)
        },
        _ => a.tag() == b.tag(),
    }
}

/// Values do not enter the comparison: two well-formed values that differ
/// only in what their scalars hold have the same shape.
pub proof fn lemma_scalar_values_ignored(a: JsonView, b: JsonView, path: Seq<SegmentView>)
    requires
        a.wf(),
        differ_in_scalar_values_only(a, b),
    ensures
        same_shape(a, b),
        divergence(a, b, path) is None,
    decreases a,
{
    match (a, b) {
        (JsonView::Array(x), JsonView::Array(y)) => {
            assert forall|i: int| 0 <= i < x.len() implies same_shape(#[trigger] x[i], y[i]) by {
                lemma_scalar_values_ignored(x[i], y[i], path);
            }
        },
        (JsonView::Object(x), JsonView::Object(y)) => {
            assert(distinct_keys(y)) by {
                assert forall|i: int, j: int| 0 <= i < j < y.len() implies (#[trigger] y[i]).0 != (
                #[trigger] y[j]).0 by {
                    assert(x[i].0 == y[i].0);
                    assert(x[j].0 == y[j].0);
                }
            }
            assert forall|i: int| 0 <= i < x.len() implies member_agrees(#[trigger] x[i], y) by {
                assert(x[i].0 == y[i].0);
                lemma_distinct_keys_first(y, i);
                lemma_scalar_values_ignored(x[i].1, y[i].1, path);
            }
            assert forall|j: int| 0 <= j < y.len() implies has_key(x, (#[trigger] y[j]).0) by {
                assert(x[j].0 == y[j].0);
                lemma_distinct_keys_first(x, j);
            }
        },
        _ => {},
    }
    lemma_same_shape_iff_no_divergence(a, b, path);
}

/// An object with a key that the other lacks does not have the other's
/// shape: the comparison ends in a mismatch.
pub proof fn lemma_missing_key_is_mismatch(
    x: Seq<(Seq<char>, JsonView)>,
    y: Seq<(Seq<char>, JsonView)>,
    key: Seq<char>,
    path: Seq<SegmentView>,
)
    requires
        has_key(x, key),
        !has_key(y, key),
    ensures
        !same_shape(JsonView::Object(x), JsonView::Object(y)),
        divergence(JsonView::Object(x), JsonView::Object(y), path) is Some,
{
    let i = choose|i: int| 0 <= i < x.len() && (#[trigger] x[i]).0 == key;
    assert(!member_agrees(x[i], y));
    lemma_same_shape_iff_no_divergence(JsonView::Object(x), JsonView::Object(y), path);
}

/// A key of the candidate's object that the reference's object lacks is
/// reported under that key, with the candidate's value against null,
/// provided that the walk gets that far: every member before the first
/// with this key has a counterpart of the same shape.
pub proof fn lemma_missing_key_reported(
    x: Seq<(Seq<char>, JsonView)>,
    y: Seq<(Seq<char>, JsonView)>,
    key: Seq<char>,
    path: Seq<SegmentView>,
)
    requires
        has_key(x, key),
        !has_key(y, key),
        forall|j: int| 0 <= j < key_index(x, key) ==> member_agrees(#[trigger] x[j], y),
    ensures
        divergence(JsonView::Object(x), JsonView::Object(y), path) == Some(
            Divergence {
                path: path.push(SegmentView::Key(key)),
                client_value: value_of(x, key),
                actual_value: JsonView::Null,
            },
        ),
{
    let k = choose|k: int| 0 <= k < x.len() && (#[trigger] x[k]).0 == key;
    lemma_first_key_exists(x, key, k);
    let i = key_index(x, key);
    assert(is_first_with_key(x, key, i));
    assert(!member_agrees(x[i], y));
    assert(is_first_disagreeing_member(x, y, i));
    let f = first_disagreeing_member(x, y);
    assert(is_first_disagreeing_member(x, y, f));
    assert(f == i);
}

/// A key of the reference's object that the candidate's object lacks is
/// reported under that key, with null against the reference's value,
/// provided that the walk gets that far: every member of the candidate's
/// object has a counterpart of the same shape, and the candidate's object
/// has the key of every member before the first with this key.
pub proof fn lemma_extra_key_reported(
    x: Seq<(Seq<char>, JsonView)>,
    y: Seq<(Seq<char>, JsonView)>,
    key: Seq<char>,
    path: Seq<SegmentView>,
)
    requires
        has_key(y, key),
        !has_key(x, key),
        forall|i: int| 0 <= i < x.len() ==> member_agrees(#[trigger] x[i], y),
        forall|j: int| 0 <= j < key_index(y, key) ==> has_key(x, (#[trigger] y[j]).0),
    ensures
        divergence(JsonView::Object(x), JsonView::Object(y), path) == Some(
            Divergence {
                path: path.push(SegmentView::Key(key)),
                client_value: JsonView::Null,
                actual_value: value_of(y, key),
            },
        ),
{
    let k = choose|k: int| 0 <= k < y.len() && (#[trigger] y[k]).0 == key;
    lemma_first_key_exists(y, key, k);
    let j = key_index(y, key);
    assert(is_first_with_key(y, key, j));
    assert(is_first_extra_member(x, y, j));
    let f = first_extra_member(x, y);
    assert(is_first_extra_member(x, y, f));
    assert(f == j);
    assert(!exists|i: int| is_first_disagreeing_member(x, y, i));
}

/// Arrays of different lengths are reported as a whole, whatever they
/// hold: the mismatch stands at the arrays' own path and captures both in
/// full.
pub proof fn lemma_length_mismatch_reported(
    x: Seq<JsonView>,
    y: Seq<JsonView>,
    path: Seq<SegmentView>,
)
    requires
        x.len() != y.len(),
    ensures
        divergence(JsonView::Array(x), JsonView::Array(y), path) == Some(
            Divergence {
                path,
                client_value: JsonView::Array(x),
                actual_value: JsonView::Array(y),
            },
        ),
{
}

/// Values of different kinds are reported where they stand, with both
/// values in full: nothing below them is looked at.
pub proof fn lemma_tag_mismatch_reported(a: JsonView, b: JsonView, path: Seq<SegmentView>)
    requires
        a.tag() != b.tag(),
    ensures
        divergence(a, b, path) == Some(Divergence { path, client_value: a, actual_value: b }),
{
}

/// Arrays of one length that differ at some index are reported below the
/// first such index: the mismatch is that of the two items there.
pub proof fn lemma_differing_item_reported(
    x: Seq<JsonView>,
    y: Seq<JsonView>,
    i: int,
    path: Seq<SegmentView>,
)
    requires
        x.len() == y.len(),
        is_first_differing_item(x, y, i),
    ensures
        divergence(JsonView::Array(x), JsonView::Array(y), path) == divergence(
            x[i],
            y[i],
            path.push(SegmentView::Index(i as nat)),
        ),
        divergence(JsonView::Array(x), JsonView::Array(y), path) is Some,
{
    let f = first_differing_item(x, y);
    assert(is_first_differing_item(x, y, f));
    assert(f == i);
    lemma_same_shape_iff_no_divergence(x[i], y[i], path.push(SegmentView::Index(i as nat)));
}

/// A key that both objects have, with values of different shapes, is
/// reported below that key, provided that the walk gets that far: the
/// mismatch is that of the two values.
pub proof fn lemma_differing_member_reported(
    x: Seq<(Seq<char>, JsonView)>,
    y: Seq<(Seq<char>, JsonView)>,
    i: int,
    path: Seq<SegmentView>,
)
    requires
        is_first_disagreeing_member(x, y, i),
        has_key(y, x[i].0),
    ensures
        divergence(JsonView::Object(x), JsonView::Object(y), path) == divergence(
            x[i].1,
            value_of(y, x[i].0),
            path.push(SegmentView::Key(x[i].0)),
        ),
        divergence(JsonView::Object(x), JsonView::Object(y), path) is Some,
{
    let f = first_disagreeing_member(x, y);
    assert(is_first_disagreeing_member(x, y, f));
    assert(f == i);
    lemma_same_shape_iff_no_divergence(
        x[i].1,
        value_of(y, x[i].0),
        path.push(SegmentView::Key(x[i].0)),
    );
}

/// A mismatch is reported at or below the place where the comparison
/// began: the path of the divergence starts with the path given.
pub proof fn lemma_divergence_below_path(a: JsonView, b: JsonView, path: Seq<SegmentView>)
    requires
        divergence(a, b, path) is Some,
    ensures
        path.is_prefix_of(divergence(a, b, path)->Some_0.path),
    decreases a,
{
    match (a, b) {
        (JsonView::Array(x), JsonView::Array(y)) => {
            if x.len() == y.len() {
                let i = first_differing_item(x, y);
                let below = path.push(SegmentView::Index(i as nat));
                lemma_divergence_below_path(x[i], y[i], below);
                lemma_prefix_of_longer(path, below, divergence(x[i], y[i], below)->Some_0.path);
            }
        },
        (JsonView::Object(x), JsonView::Object(y)) => {
            if exists|i: int| is_first_disagreeing_member(x, y, i) {
                let i = first_disagreeing_member(x, y);
                let key = x[i].0;
                let below = path.push(SegmentView::Key(key));
                if has_key(y, key) {
                    lemma_divergence_below_path(x[i].1, value_of(y, key), below);
                    lemma_prefix_of_longer(
                        path,
                        below,
                        divergence(x[i].1, value_of(y, key), below)->Some_0.path,
                    );
                }
            }
        },
        _ => {},
    }
}

/// A prefix of a prefix is a prefix.
proof fn lemma_prefix_of_longer(
    short: Seq<SegmentView>,
    middle: Seq<SegmentView>,
    long: Seq<SegmentView>,
)
    requires
        short.is_prefix_of(middle),
        middle.is_prefix_of(long),
    ensures
        short.is_prefix_of(long),
{
    assert(short =~= long.subrange(0, short.len() as int)) by {
        assert(short =~= middle.subrange(0, short.len() as int));
        assert(middle =~= long.subrange(0, middle.len() as int));
    }
}

/// Symmetry: among well-formed values, to have the same shape does not
/// depend on which side is the candidate's.
pub proof fn lemma_same_shape_symmetric(a: JsonView, b: JsonView)
    requires
        a.wf(),
        b.wf(),
        same_shape(a, b),
    ensures
        same_shape(b, a),
    decreases a,
{
    match (a, b) {
        (JsonView::Array(x), JsonView::Array(y)) => {
            assert forall|i: int| 0 <= i < y.len() implies same_shape(#[trigger] y[i], x[i]) by {
                assert(same_shape(x[i], y[i]));
                lemma_same_shape_symmetric(x[i], y[i]);
            }
        },
        (JsonView::Object(x), JsonView::Object(y)) => {
            assert forall|j: int| 0 <= j < y.len() implies member_agrees(#[trigger] y[j], x) by {
                let key = y[j].0;
                assert(has_key(x, key));
                let k = choose|k: int| 0 <= k < x.len() && (#[trigger] x[k]).0 == key;
                lemma_distinct_keys_first(x, k);
                lemma_distinct_keys_first(y, j);
                assert(member_agrees(x[k], y));
                lemma_same_shape_symmetric(x[k].1, y[j].1);
            }
            assert forall|i: int| 0 <= i < x.len() implies has_key(y, (#[trigger] x[i]).0) by {
                assert(member_agrees(x[i], y));
            }
        },
        _ => {},
    }
}

/// Transitivity: a value of the shape of a second, which is of the shape of
/// a third, is of the shape of the third.
pub proof fn lemma_same_shape_transitive(a: JsonView, b: JsonView, c: JsonView)
    requires
        same_shape(a, b),
        same_shape(b, c),
    ensures
        same_shape(a, c),
    decreases a,
{
    match (a, b, c) {
        (JsonView::Array(x), JsonView::Array(y), JsonView::Array(z)) => {
            assert forall|i: int| 0 <= i < x.len() implies same_shape(#[trigger] x[i], z[i]) by {
                assert(same_shape(x[i], y[i]));
                assert(same_shape(y[i], z[i]));
                lemma_same_shape_transitive(x[i], y[i], z[i]);
            }
        },
        (JsonView::Object(x), JsonView::Object(y), JsonView::Object(z)) => {
            assert forall|i: int| 0 <= i < x.len() implies member_agrees(#[trigger] x[i], z) by {
                let key = x[i].0;
                assert(member_agrees(x[i], y));
                let k = choose|k: int| 0 <= k < y.len() && (#[trigger] y[k]).0 == key;
                lemma_first_key_exists(y, key, k);
                let j = key_index(y, key);
                assert(member_agrees(y[j], z));
                lemma_same_shape_transitive(x[i].1, y[j].1, value_of(z, key));
            }
            assert forall|l: int| 0 <= l < z.len() implies has_key(x, (#[trigger] z[l]).0) by {
                assert(has_key(y, z[l].0));
                let j = choose|j: int| 0 <= j < y.len() && (#[trigger] y[j]).0 == z[l].0;
                assert(has_key(x, y[j].0));
            }
        },
        _ => {},
    }
}

/// `y` and `z` hold the same members as mappings: the same keys, and under
/// each key the same value.
pub open spec fn same_members(y: Seq<(Seq<char>, JsonView)>, z: Seq<(Seq<char>, JsonView)>) -> bool {
    forall|key: Seq<char>|
        #![trigger has_key(y, key)]
        #![trigger has_key(z, key)]
        has_key(y, key) == has_key(z, key) && (has_key(y, key) ==> value_of(y, key) == value_of(
            z,
            key,
        ))
}

/// The order of an object's members plays no part in whether a comparison
/// succeeds: an object has the shape of a second exactly when it has the
/// shape of any object with the second's members.
pub proof fn lemma_member_order_irrelevant(
    x: Seq<(Seq<char>, JsonView)>,
    y: Seq<(Seq<char>, JsonView)>,
    z: Seq<(Seq<char>, JsonView)>,
)
    requires
        same_members(y, z),
    ensures
        same_shape(JsonView::Object(x), JsonView::Object(y)) == same_shape(
            JsonView::Object(x),
            JsonView::Object(z),
        ),
{
    if same_shape(JsonView::Object(x), JsonView::Object(y)) {
        lemma_member_order_irrelevant_one_way(x, y, z);
    }
    assert(same_members(z, y)) by {
        assert forall|key: Seq<char>|
            #![trigger has_key(z, key)]
            #![trigger has_key(y, key)]
            has_key(z, key) == has_key(y, key) && (has_key(z, key) ==> value_of(z, key)
                == value_of(y, key)) by {
            assert(has_key(y, key) == has_key(z, key));
        }
    }
    if same_shape(JsonView::Object(x), JsonView::Object(z)) {
        lemma_member_order_irrelevant_one_way(x, z, y);
    }
}

proof fn lemma_member_order_irrelevant_one_way(
    x: Seq<(Seq<char>, JsonView)>,
    y: Seq<(Seq<char>, JsonView)>,
    z: Seq<(Seq<char>, JsonView)>,
)
    requires
        same_members(y, z),
        same_shape(JsonView::Object(x), JsonView::Object(y)),
    ensures
        same_shape(JsonView::Object(x), JsonView::Object(z)),
{
    assert forall|i: int| 0 <= i < x.len() implies member_agrees(#[trigger] x[i], z) by {
        assert(member_agrees(x[i], y));
        assert(has_key(y, x[i].0) == has_key(z, x[i].0));
    }
    assert forall|l: int| 0 <= l < z.len() implies has_key(x, (#[trigger] z[l]).0) by {
        let key = z[l].0;
        assert(has_key(z, key));
        assert(has_key(y, key) == has_key(z, key));
        let j = choose|j: int| 0 <= j < y.len() && (#[trigger] y[j]).0 == key;
        assert(has_key(x, y[j].0));
    }
}

/// The order of the members of the candidate's object plays no part
/// either, where its keys are distinct: two objects with distinct keys and
/// the same members have the shape of the same objects.
pub proof fn lemma_own_member_order_irrelevant(
    x: Seq<(Seq<char>, JsonView)>,
    w: Seq<(Seq<char>, JsonView)>,
    y: Seq<(Seq<char>, JsonView)>,
)
    requires
        distinct_keys(x),
        distinct_keys(w),
        same_members(x, w),
    ensures
        same_shape(JsonView::Object(x), JsonView::Object(y)) == same_shape(
            JsonView::Object(w),
            JsonView::Object(y),
        ),
{
    if same_shape(JsonView::Object(x), JsonView::Object(y)) {
        lemma_own_member_order_irrelevant_one_way(x, w, y);
    }
    assert(same_members(w, x)) by {
        assert forall|key: Seq<char>|
            #![trigger has_key(w, key)]
            #![trigger has_key(x, key)]
            has_key(w, key) == has_key(x, key) && (has_key(w, key) ==> value_of(w, key)
                == value_of(x, key)) by {
            assert(has_key(x, key) == has_key(w, key));
        }
    }
    if same_shape(JsonView::Object(w), JsonView::Object(y)) {
        lemma_own_member_order_irrelevant_one_way(w, x, y);
    }
}

proof fn lemma_own_member_order_irrelevant_one_way(
    x: Seq<(Seq<char>, JsonView)>,
    w: Seq<(Seq<char>, JsonView)>,
    y: Seq<(Seq<char>, JsonView)>,
)
    requires
        distinct_keys(x),
        distinct_keys(w),
        same_members(x, w),
        same_shape(JsonView::Object(x), JsonView::Object(y)),
    ensures
        same_shape(JsonView::Object(w), JsonView::Object(y)),
{
    assert forall|i: int| 0 <= i < w.len() implies member_agrees(#[trigger] w[i], y) by {
        let key = w[i].0;
        lemma_distinct_keys_first(w, i);
        assert(has_key(x, key) == has_key(w, key));
        let k = choose|k: int| 0 <= k < x.len() && (#[trigger] x[k]).0 == key;
        lemma_distinct_keys_first(x, k);
        assert(member_agrees(x[k], y));
    }
    assert forall|j: int| 0 <= j < y.len() implies has_key(w, (#[trigger] y[j]).0) by {
        assert(has_key(x, y[j].0) == has_key(w, y[j].0));
    }
}

} // verus!
