//! The shape comparator: walks two JSON values in lockstep and stops at the
//! first place where they differ in shape.

use crate::error::clone_path;
use crate::error::path_view;
use crate::error::PathSegment;
use crate::error::TesterError;
use crate::json::clone_items;
use crate::json::find_member;
use crate::json::has_key;
use crate::json::is_first_with_key;
use crate::json::items_view;
use crate::json::lemma_array_view;
use crate::json::lemma_first_with_key_unique;
use crate::json::lemma_object_view;
use crate::json::members_view;
use crate::json::Json;
use crate::json::JsonView;
use crate::shape::divergence;
use crate::shape::first_differing_item;
use crate::shape::first_disagreeing_member;
use crate::shape::first_extra_member;
use crate::shape::is_first_differing_item;
use crate::shape::is_first_disagreeing_member;
use crate::shape::is_first_extra_member;
use crate::shape::lemma_same_shape_iff_no_divergence;
use crate::shape::member_agrees;
use crate::shape::mismatch;
use crate::shape::reports;
use crate::shape::same_shape;
use crate::shape::Divergence;
use vstd::prelude::*;

verus! {

/// The path `path` with `segment` after it.
proof fn lemma_path_view_push(path: Seq<PathSegment>, segment: PathSegment)
    ensures
        path_view(path.push(segment)) == path_view(path).push(segment@),
{
    assert(path_view(path.push(segment)) =~= path_view(path).push(segment@));
}

/// The mismatch at `path` between `client_value` and `actual_value`.
fn mismatch_at(endpoint: &str, path: &Vec<PathSegment>, client_value: Json, actual_value: Json) -> (e:
    TesterError)
    ensures
        e@ == mismatch(
            endpoint@,
            Divergence {
                path: path_view(path@),
                client_value: client_value@,
                actual_value: actual_value@,
            },
        ),
{
    TesterError::JsonTypeMismatch {
        endpoint: endpoint.to_owned(),
        path: clone_path(path),
        client_value,
        actual_value,
    }
}

/// Compares the shapes of `a` and `b`, which stand at `path` in the two
/// responses of `endpoint`.
///
/// Succeeds where they have the same shape. Else the error is the mismatch
/// at the first place where they differ, as [`divergence`] defines it.
/// `path` is used as a stack on the way down and is handed back as it came.
pub fn compare_json_types(a: &Json, b: &Json, endpoint: &str, path: &mut Vec<PathSegment>) -> (r:
    Result<(), TesterError>)
    ensures
        final(path)@ == old(path)@,
        reports(r, endpoint@, divergence(a@, b@, path_view(old(path)@))),
        r is Ok <==> same_shape(a@, b@),
    decreases a,
{
    proof {
        lemma_same_shape_iff_no_divergence(a@, b@, path_view(path@));
    }
    match (a, b) {
        (Json::Object(map_a), Json::Object(map_b)) => {
            proof {
                lemma_object_view(*map_a);
                lemma_object_view(*map_b);
            }
            compare_json_objects(map_a, map_b, endpoint, path)
        },
        (Json::Array(arr_a), Json::Array(arr_b)) => {
            proof {
                lemma_array_view(*arr_a);
                lemma_array_view(*arr_b);
            }
            compare_json_arrays(arr_a, arr_b, endpoint, path)
        },
        (Json::String(_), Json::String(_)) => Ok(()),
        (Json::Number(_), Json::Number(_)) => Ok(()),
        (Json::Bool(_), Json::Bool(_)) => Ok(()),
        (Json::Null, Json::Null) => Ok(()),
        _ => Err(mismatch_at(endpoint, path, a.clone(), b.clone())),
    }
}

/// Compares two objects, given by their members, which stand at `path`.
///
/// Walks the members of `map_a` in order: a key that `map_b` lacks is a
/// mismatch of the member's value against null, a key that it has leads into
/// the two values. Then walks the members of `map_b`: a key that `map_a`
/// lacks is a mismatch of null against the member's value.
pub fn compare_json_objects(
    map_a: &Vec<(String, Json)>,
    map_b: &Vec<(String, Json)>,
    endpoint: &str,
    path: &mut Vec<PathSegment>,
) -> (r: Result<(), TesterError>)
    ensures
        final(path)@ == old(path)@,
        reports(
            r,
            endpoint@,
            divergence(
                JsonView::Object(members_view(map_a@)),
                JsonView::Object(members_view(map_b@)),
                path_view(old(path)@),
            ),
        ),
        r is Ok <==> same_shape(
            JsonView::Object(members_view(map_a@)),
            JsonView::Object(members_view(map_b@)),
        ),
    decreases map_a,
{
    let ghost x = members_view(map_a@);
    let ghost y = members_view(map_b@);
    let ghost base = path_view(path@);
    proof {
        lemma_same_shape_iff_no_divergence(JsonView::Object(x), JsonView::Object(y), base);
    }
    let mut i: usize = 0;
    while i < map_a.len()
        invariant
            i <= map_a.len(),
            path@ == old(path)@,
            base == path_view(path@),
            x == members_view(map_a@),
            y == members_view(map_b@),
            forall|j: int| 0 <= j < i ==> member_agrees(#[trigger] x[j], y),
        decreases map_a.len() - i,
    {
        let key = &map_a[i].0;
        let value_a = &map_a[i].1;
        assert(x[i as int] == (key@, value_a@));
        match find_member(map_b, key) {
            Some(at) => {
                let value_b = &map_b[at].1;
                proof {
                    lemma_first_with_key_unique(y, key@, at as int);
                    lemma_path_view_push(path@, PathSegment::Key(*key));
                }
                path.push(PathSegment::Key(key.clone()));
                let below = compare_json_types(value_a, value_b, endpoint, path);
                path.pop();
                assert(path@ =~= old(path)@);
                match below {
                    Err(e) => {
                        proof {
                            assert(!member_agrees(x[i as int], y));
                            assert(is_first_disagreeing_member(x, y, i as int));
                            assert(first_disagreeing_member(x, y) == i as int);
                        }
                        return Err(e);
                    },
                    Ok(()) => {
                        assert(member_agrees(x[i as int], y));
                    },
                }
            },
            None => {
                proof {
                    lemma_path_view_push(path@, PathSegment::Key(*key));
                    assert(!member_agrees(x[i as int], y));
                    assert(is_first_disagreeing_member(x, y, i as int));
                    assert(first_disagreeing_member(x, y) == i as int);
                }
                path.push(PathSegment::Key(key.clone()));
                let e = mismatch_at(endpoint, path, value_a.clone(), Json::Null);
                path.pop();
                assert(path@ =~= old(path)@);
                return Err(e);
            },
        }
        i += 1;
    }
    assert(!exists|i: int| is_first_disagreeing_member(x, y, i));
    let mut j: usize = 0;
    while j < map_b.len()
        invariant
            j <= map_b.len(),
            path@ == old(path)@,
            base == path_view(path@),
            x == members_view(map_a@),
            y == members_view(map_b@),
            !exists|i: int| is_first_disagreeing_member(x, y, i),
            forall|k: int| 0 <= k < j ==> has_key(x, (#[trigger] y[k]).0),
        decreases map_b.len() - j,
    {
        let key = &map_b[j].0;
        assert(y[j as int] == (key@, map_b[j as int].1@));
        if find_member(map_a, key).is_none() {
            proof {
                lemma_path_view_push(path@, PathSegment::Key(*key));
                assert(is_first_extra_member(x, y, j as int));
                assert(first_extra_member(x, y) == j as int);
            }
            path.push(PathSegment::Key(key.clone()));
            let e = mismatch_at(endpoint, path, Json::Null, map_b[j].1.clone());
            path.pop();
            assert(path@ =~= old(path)@);
            return Err(e);
        }
        proof {
            let at = choose|at: int| is_first_with_key(x, key@, at);
            lemma_first_with_key_unique(x, key@, at);
        }
        j += 1;
    }
    assert(!exists|j: int| is_first_extra_member(x, y, j));
    Ok(())
}

/// Compares two arrays, given by their items, which stand at `path`.
///
/// Arrays of different lengths are a mismatch of the one whole array against
/// the other, whatever they hold. Arrays of one length are compared item by
/// item, in index order.
pub fn compare_json_arrays(
    arr_a: &Vec<Json>,
    arr_b: &Vec<Json>,
    endpoint: &str,
    path: &mut Vec<PathSegment>,
) -> (r: Result<(), TesterError>)
    ensures
        final(path)@ == old(path)@,
        reports(
            r,
            endpoint@,
            divergence(
                JsonView::Array(items_view(arr_a@)),
                JsonView::Array(items_view(arr_b@)),
                path_view(old(path)@),
            ),
        ),
        r is Ok <==> same_shape(
            JsonView::Array(items_view(arr_a@)),
            JsonView::Array(items_view(arr_b@)),
        ),
    decreases arr_a,
{
    let ghost x = items_view(arr_a@);
    let ghost y = items_view(arr_b@);
    let ghost base = path_view(path@);
    proof {
        lemma_same_shape_iff_no_divergence(JsonView::Array(x), JsonView::Array(y), base);
    }
    if arr_a.len() != arr_b.len() {
        let whole_a = clone_items(arr_a);
        let whole_b = clone_items(arr_b);
        proof {
            lemma_array_view(whole_a);
            lemma_array_view(whole_b);
        }
        return Err(mismatch_at(endpoint, path, Json::Array(whole_a), Json::Array(whole_b)));
    }
    let mut i: usize = 0;
    while i < arr_a.len()
        invariant
            i <= arr_a.len(),
            arr_a.len() == arr_b.len(),
            path@ == old(path)@,
            base == path_view(path@),
            x == items_view(arr_a@),
            y == items_view(arr_b@),
            forall|j: int| 0 <= j < i ==> same_shape(#[trigger] x[j], y[j]),
        decreases arr_a.len() - i,
    {
        proof {
            lemma_path_view_push(path@, PathSegment::Index(i));
        }
        path.push(PathSegment::Index(i));
        let below = compare_json_types(&arr_a[i], &arr_b[i], endpoint, path);
        path.pop();
        assert(path@ =~= old(path)@);
        match below {
            Err(e) => {
                proof {
                    assert(!same_shape(x[i as int], y[i as int]));
                    assert(is_first_differing_item(x, y, i as int));
                    assert(first_differing_item(x, y) == i as int);
                }
                return Err(e);
            },
            Ok(()) => {
                assert(same_shape(x[i as int], y[i as int]));
            },
        }
        i += 1;
    }
    assert(!exists|i: int| is_first_differing_item(x, y, i));
    Ok(())
}

} // verus!
