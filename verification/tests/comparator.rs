use api_tester::comparator::compare_json_arrays;
use api_tester::comparator::compare_json_objects;
use api_tester::comparator::compare_json_types;
use api_tester::error::PathSegment;
use api_tester::error::TesterError;
use api_tester::json::clone_items;
use api_tester::json::clone_members;
use api_tester::json::find_member;
use api_tester::json::has_distinct_keys;
use api_tester::json::Json;
use api_tester::json::JsonTag;

fn num(n: u64) -> Json {
    Json::Number(serde_json::Number::from(n))
}

fn text(s: &str) -> Json {
    Json::String(s.to_string())
}

fn object(members: Vec<(&str, Json)>) -> Json {
    Json::Object(members.into_iter().map(|(k, v)| (k.to_string(), v)).collect())
}

fn key(k: &str) -> PathSegment {
    PathSegment::Key(k.to_string())
}

fn compare(a: &Json, b: &Json) -> Result<(), TesterError> {
    let mut path = Vec::new();
    compare_json_types(a, b, "/quiz", &mut path)
}

fn mismatch(path: Vec<PathSegment>, client_value: Json, actual_value: Json) -> TesterError {
    TesterError::JsonTypeMismatch {
        endpoint: "/quiz".to_string(),
        path,
        client_value,
        actual_value,
    }
}

fn sample() -> Json {
    object(vec![
        ("id", num(7)),
        ("name", text("Quiz A")),
        ("open", Json::Bool(true)),
        ("owner", Json::Null),
        (
            "questions",
            Json::Array(vec![
                object(vec![("text", text("Why?")), ("points", num(3))]),
                object(vec![("text", text("How?")), ("points", num(5))]),
            ]),
        ),
    ])
}

#[test]
fn a_value_has_its_own_shape() {
    let t = sample();
    assert_eq!(compare(&t, &t), Ok(()));
    assert_eq!(compare(&t, &t.clone()), Ok(()));
}

#[test]
fn scalars_of_one_kind_agree_whatever_they_hold() {
    assert_eq!(compare(&Json::Null, &Json::Null), Ok(()));
    assert_eq!(compare(&Json::Bool(true), &Json::Bool(false)), Ok(()));
    assert_eq!(compare(&num(1), &num(2)), Ok(()));
    assert_eq!(compare(&text("a"), &text("")), Ok(()));
    let minus = Json::Number(serde_json::Number::from(-4i64));
    let half = Json::Number(serde_json::Number::from_f64(0.5).unwrap());
    assert_eq!(compare(&minus, &half), Ok(()));
}

#[test]
fn values_that_differ_in_scalars_only_agree() {
    let a = sample();
    let b = object(vec![
        ("id", num(8)),
        ("name", text("Quiz B")),
        ("open", Json::Bool(false)),
        ("owner", Json::Null),
        (
            "questions",
            Json::Array(vec![
                object(vec![("text", text("")), ("points", num(0))]),
                object(vec![("text", text("Where?")), ("points", num(1))]),
            ]),
        ),
    ]);
    assert_eq!(compare(&a, &b), Ok(()));
    assert_eq!(compare(&b, &a), Ok(()));
}

#[test]
fn the_order_of_members_does_not_matter() {
    let a = object(vec![("id", num(1)), ("name", text("x"))]);
    let b = object(vec![("name", text("y")), ("id", num(2))]);
    assert_eq!(compare(&a, &b), Ok(()));
}

#[test]
fn empty_containers_agree_with_their_kind_only() {
    assert_eq!(compare(&Json::Array(vec![]), &Json::Array(vec![])), Ok(()));
    assert_eq!(compare(&object(vec![]), &object(vec![])), Ok(()));
    assert_eq!(
        compare(&Json::Array(vec![]), &object(vec![])),
        Err(mismatch(vec![], Json::Array(vec![]), object(vec![])))
    );
}

#[test]
fn a_key_that_the_reference_lacks_is_reported_against_null() {
    let a = object(vec![("id", num(1)), ("k", text("v"))]);
    let b = object(vec![("id", num(1))]);
    assert_eq!(compare(&a, &b), Err(mismatch(vec![key("k")], text("v"), Json::Null)));
}

#[test]
fn a_key_that_the_reference_lacks_is_reported_below_its_path() {
    let a = object(vec![("quiz", Json::Array(vec![object(vec![("k", num(9))])]))]);
    let b = object(vec![("quiz", Json::Array(vec![object(vec![])]))]);
    assert_eq!(
        compare(&a, &b),
        Err(mismatch(vec![key("quiz"), PathSegment::Index(0), key("k")], num(9), Json::Null))
    );
}

#[test]
fn a_key_that_the_candidate_lacks_is_reported_against_null() {
    let a = object(vec![("id", num(1))]);
    let b = object(vec![("id", num(1)), ("extra", Json::Array(vec![num(1)]))]);
    assert_eq!(
        compare(&a, &b),
        Err(mismatch(vec![key("extra")], Json::Null, Json::Array(vec![num(1)])))
    );
}

#[test]
fn an_earlier_member_that_differs_is_reported_before_a_missing_key() {
    let a = object(vec![("x", num(1)), ("k", num(2))]);
    let b = object(vec![("x", text("s"))]);
    assert_eq!(compare(&a, &b), Err(mismatch(vec![key("x")], num(1), text("s"))));
}

#[test]
fn the_candidates_members_are_walked_before_the_references() {
    let a = object(vec![("a", num(1)), ("only_here", num(2))]);
    let b = object(vec![("only_there", num(3)), ("a", num(1))]);
    assert_eq!(compare(&a, &b), Err(mismatch(vec![key("only_here")], num(2), Json::Null)));
}

#[test]
fn arrays_of_different_lengths_are_reported_in_full() {
    let a = Json::Array(vec![num(1), text("two")]);
    let b = Json::Array(vec![Json::Null, Json::Bool(true), object(vec![])]);
    assert_eq!(compare(&a, &b), Err(mismatch(vec![], a.clone(), b.clone())));
    assert_eq!(compare(&b, &a), Err(mismatch(vec![], b.clone(), a.clone())));
    let none = Json::Array(vec![]);
    assert_eq!(compare(&none, &a), Err(mismatch(vec![], none.clone(), a.clone())));
}

#[test]
fn arrays_of_one_length_are_compared_item_by_item() {
    let a = Json::Array(vec![num(1), text("two"), Json::Bool(true), Json::Null]);
    let b = Json::Array(vec![num(4), text("five"), num(6), text("seven")]);
    assert_eq!(
        compare(&a, &b),
        Err(mismatch(vec![PathSegment::Index(2)], Json::Bool(true), num(6)))
    );
}

#[test]
fn values_of_different_kinds_are_reported_where_they_stand() {
    let all = vec![
        Json::Null,
        Json::Bool(true),
        num(1),
        text("1"),
        Json::Array(vec![num(1)]),
        object(vec![("a", num(1))]),
    ];
    for (i, a) in all.iter().enumerate() {
        for (j, b) in all.iter().enumerate() {
            let expected = if i == j { Ok(()) } else { Err(mismatch(vec![], a.clone(), b.clone())) };
            assert_eq!(compare(a, b), expected);
        }
    }
}

#[test]
fn values_of_different_kinds_are_reported_at_the_given_path() {
    let mut path = vec![key("items"), PathSegment::Index(3)];
    let r = compare_json_types(&num(1), &text("1"), "/quiz", &mut path);
    assert_eq!(
        r,
        Err(mismatch(vec![key("items"), PathSegment::Index(3)], num(1), text("1")))
    );
    assert_eq!(path, vec![key("items"), PathSegment::Index(3)]);
}

#[test]
fn the_path_comes_back_as_it_went_in() {
    let mut path = vec![key("root")];
    let a = sample();
    assert_eq!(compare_json_types(&a, &a, "/quiz", &mut path), Ok(()));
    assert_eq!(path, vec![key("root")]);
    let b = object(vec![("id", num(7))]);
    assert!(compare_json_types(&a, &b, "/quiz", &mut path).is_err());
    assert_eq!(path, vec![key("root")]);
}

#[test]
fn a_difference_deep_down_is_reported_with_its_whole_path() {
    let a = sample();
    let b = object(vec![
        ("id", num(7)),
        ("name", text("Quiz A")),
        ("open", Json::Bool(true)),
        ("owner", Json::Null),
        (
            "questions",
            Json::Array(vec![
                object(vec![("text", text("Why?")), ("points", num(3))]),
                object(vec![("text", text("How?")), ("points", text("5"))]),
            ]),
        ),
    ]);
    assert_eq!(
        compare(&a, &b),
        Err(mismatch(
            vec![key("questions"), PathSegment::Index(1), key("points")],
            num(5),
            text("5")
        ))
    );
}

#[test]
fn objects_are_compared_by_their_members() {
    let a = vec![("id".to_string(), num(1))];
    let b = vec![("id".to_string(), Json::Null)];
    let mut path = vec![PathSegment::Index(4)];
    assert_eq!(
        compare_json_objects(&a, &b, "/quiz", &mut path),
        Err(mismatch(vec![PathSegment::Index(4), key("id")], num(1), Json::Null))
    );
    assert_eq!(compare_json_objects(&a, &a, "/quiz", &mut path), Ok(()));
    assert_eq!(path, vec![PathSegment::Index(4)]);
}

#[test]
fn arrays_are_compared_by_their_items() {
    let a = vec![num(1), num(2)];
    let b = vec![num(1), text("2")];
    let mut path = vec![key("list")];
    assert_eq!(
        compare_json_arrays(&a, &b, "/quiz", &mut path),
        Err(mismatch(vec![key("list"), PathSegment::Index(1)], num(2), text("2")))
    );
    assert_eq!(compare_json_arrays(&a, &a, "/quiz", &mut path), Ok(()));
    assert_eq!(
        compare_json_arrays(&a, &vec![], "/quiz", &mut path),
        Err(mismatch(vec![key("list")], Json::Array(a.clone()), Json::Array(vec![])))
    );
    assert_eq!(path, vec![key("list")]);
}

#[test]
fn the_first_member_with_a_key_is_the_one_found() {
    let members = vec![
        ("a".to_string(), num(1)),
        ("b".to_string(), num(2)),
        ("a".to_string(), num(3)),
    ];
    assert_eq!(find_member(&members, &"a".to_string()), Some(0));
    assert_eq!(find_member(&members, &"b".to_string()), Some(1));
    assert_eq!(find_member(&members, &"c".to_string()), None);
    assert_eq!(find_member(&vec![], &"a".to_string()), None);
}

#[test]
fn each_value_has_its_tag() {
    assert_eq!(Json::Null.tag(), JsonTag::Null);
    assert_eq!(Json::Bool(false).tag(), JsonTag::Bool);
    assert_eq!(num(0).tag(), JsonTag::Number);
    assert_eq!(text("").tag(), JsonTag::String);
    assert_eq!(Json::Array(vec![]).tag(), JsonTag::Array);
    assert_eq!(object(vec![]).tag(), JsonTag::Object);
}

#[test]
fn a_clone_is_the_same_tree() {
    let t = sample();
    assert_eq!(t.clone(), t);
    assert_eq!(key("k").clone(), key("k"));
    assert_eq!(PathSegment::Index(3).clone(), PathSegment::Index(3));
}

#[test]
fn copies_of_items_and_members_are_the_same() {
    let items = vec![num(1), sample(), Json::Null];
    assert_eq!(clone_items(&items), items);
    assert_eq!(clone_items(&vec![]), vec![]);
    let members = vec![("a".to_string(), sample()), ("b".to_string(), num(2))];
    assert_eq!(clone_members(&members), members);
    assert_eq!(clone_members(&vec![]), vec![]);
}

#[test]
fn distinct_keys_are_told_from_repeated_ones() {
    assert!(has_distinct_keys(&vec![]));
    assert!(has_distinct_keys(&vec![("a".to_string(), num(1))]));
    assert!(has_distinct_keys(&vec![("a".to_string(), num(1)), ("b".to_string(), num(1))]));
    assert!(!has_distinct_keys(&vec![
        ("a".to_string(), num(1)),
        ("b".to_string(), num(2)),
        ("a".to_string(), num(3)),
    ]));
}

#[test]
fn a_value_is_well_formed_when_no_object_repeats_a_key() {
    assert!(Json::Null.is_well_formed());
    assert!(num(1).is_well_formed());
    assert!(sample().is_well_formed());
    assert!(Json::Array(vec![]).is_well_formed());
    assert!(object(vec![]).is_well_formed());
    let twice = object(vec![("k", num(1)), ("k", text("x"))]);
    assert!(!twice.is_well_formed());
    assert!(!Json::Array(vec![num(1), twice.clone()]).is_well_formed());
    assert!(!object(vec![("outer", Json::Array(vec![twice.clone()]))]).is_well_formed());
    assert!(object(vec![("k", object(vec![("k", num(1))]))]).is_well_formed());
}

#[test]
fn a_repeated_key_breaks_reflexivity() {
    let twice = object(vec![("k", num(1)), ("k", text("x"))]);
    assert_eq!(compare(&twice, &twice), Err(mismatch(vec![key("k")], text("x"), num(1))));
}

#[test]
fn the_same_shape_holds_both_ways() {
    let a = object(vec![("id", num(1)), ("tags", Json::Array(vec![text("a")]))]);
    let b = object(vec![("tags", Json::Array(vec![text("b")])), ("id", num(2))]);
    assert_eq!(compare(&a, &b), Ok(()));
    assert_eq!(compare(&b, &a), Ok(()));
    let c = object(vec![("id", num(3)), ("tags", Json::Array(vec![text("c")]))]);
    assert_eq!(compare(&b, &c), Ok(()));
    assert_eq!(compare(&a, &c), Ok(()));
}

#[test]
fn the_order_of_the_references_members_does_not_change_the_outcome() {
    let a = object(vec![("x", num(1)), ("y", text("s"))]);
    let same = object(vec![("y", text("t")), ("x", num(2))]);
    let other = object(vec![("y", num(0)), ("x", num(2))]);
    let other_turned = object(vec![("x", num(2)), ("y", num(0))]);
    assert_eq!(compare(&a, &same), Ok(()));
    assert_eq!(compare(&a, &other), Err(mismatch(vec![key("y")], text("s"), num(0))));
    assert_eq!(compare(&a, &other_turned), Err(mismatch(vec![key("y")], text("s"), num(0))));
}

#[test]
fn the_mismatch_lies_at_or_below_the_starting_path() {
    let mut path = vec![key("data"), PathSegment::Index(2)];
    let a = object(vec![("list", Json::Array(vec![num(1), Json::Null]))]);
    let b = object(vec![("list", Json::Array(vec![num(1), num(2)]))]);
    match compare_json_types(&a, &b, "/quiz", &mut path) {
        Err(TesterError::JsonTypeMismatch { path: reported, .. }) => {
            assert_eq!(
                reported,
                vec![key("data"), PathSegment::Index(2), key("list"), PathSegment::Index(1)]
            );
        }
        other => panic!("{:?}", other),
    }
}
