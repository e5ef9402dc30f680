//! JSON values as the comparator sees them, and their mathematical view.
//!
//! A [`Json`] is a tree: scalars at the leaves, arrays and objects inside.
//! An object keeps its members in a vector, in the order in which they are
//! walked. Numbers are carried as `serde_json::Number`, which this crate
//! never looks into.

use vstd::prelude::*;

verus! {

/// `serde_json::Number`, carried through without being inspected.
#[verifier::external_type_specification]
#[verifier::external_body]
pub struct ExNumber(serde_json::Number);

/// `<serde_json::Number as Clone>::clone`. The impl is derived: the clone
/// is the same number.
pub assume_specification[ <serde_json::Number as Clone>::clone ](n: &serde_json::Number) -> (r:
    serde_json::Number)
    ensures
        r == *n,
;

/// The six kinds of JSON value.
#[derive(Clone, Copy, Debug, PartialEq, Eq, Structural)]
pub enum JsonTag {
    Null,
    Bool,
    Number,
    String,
    Array,
    Object,
}

/// A JSON value.
///
/// The members of an object are expected to have pairwise distinct keys
/// (see [`JsonView::wf`]); where they do not, the first member with a key is
/// the one that a lookup finds.
#[derive(Debug, PartialEq, Eq)]
pub enum Json {
    Null,
    Bool(bool),
    Number(serde_json::Number),
    String(String),
    Array(Vec<Json>),
    Object(Vec<(String, Json)>),
}

/// The mathematical value of a [`Json`].
pub enum JsonView {
    Null,
    Bool(bool),
    Number(serde_json::Number),
    String(Seq<char>),
    Array(Seq<JsonView>),
    Object(Seq<(Seq<char>, JsonView)>),
}

/// Some member of `members` has the key `key`.
pub open spec fn has_key(members: Seq<(Seq<char>, JsonView)>, key: Seq<char>) -> bool {
    exists|i: int| 0 <= i < members.len() && (#[trigger] members[i]).0 == key
}

/// `i` is the position of the first member of `members` with the key `key`.
pub open spec fn is_first_with_key(
    members: Seq<(Seq<char>, JsonView)>,
    key: Seq<char>,
    i: int,
) -> bool {
    &&& 0 <= i < members.len()
    &&& members[i].0 == key
    &&& forall|j: int| 0 <= j < i ==> (#[trigger] members[j]).0 != key
}

/// The position of the first member with the key `key`, where there is one.
pub open spec fn key_index(members: Seq<(Seq<char>, JsonView)>, key: Seq<char>) -> int {
    choose|i: int| is_first_with_key(members, key, i)
}

/// The value under `key`: that of the first member with this key.
/// Meaningful where `has_key(members, key)`.
pub open spec fn value_of(members: Seq<(Seq<char>, JsonView)>, key: Seq<char>) -> JsonView {
    members[key_index(members, key)].1
}

/// No two members share a key.
pub open spec fn distinct_keys(members: Seq<(Seq<char>, JsonView)>) -> bool {
    forall|i: int, j: int|
        0 <= i < j < members.len() ==> (#[trigger] members[i]).0 != (#[trigger] members[j]).0
}

impl JsonView {
    /// The kind of this value.
    pub open spec fn tag(self) -> JsonTag {
        match self {
            JsonView::Null => JsonTag::Null,
            JsonView::Bool(_) => JsonTag::Bool,
            JsonView::Number(_) => JsonTag::Number,
            JsonView::String(_) => JsonTag::String,
            JsonView::Array(_) => JsonTag::Array,
            JsonView::Object(_) => JsonTag::Object,
        }
    }

    /// Well-formedness: in every object of the tree the keys are pairwise
    /// distinct, so that the members are a mapping from keys to values.
    pub open spec fn wf(self) -> bool
        decreases self,
    {
        match self {
            JsonView::Array(items) => forall|i: int|
                0 <= i < items.len() ==> (#[trigger] items[i]).wf(),
            JsonView::Object(members) => {
                &&& distinct_keys(members)
                &&& forall|i: int| 0 <= i < members.len() ==> (#[trigger] members[i]).1.wf()
            },
            _ => true,
        }
    }
}

impl View for Json {
    type V = JsonView;

    open spec fn view(&self) -> JsonView
        decreases self,
    {
        match self {
            Json::Null => JsonView::Null,
            Json::Bool(b) => JsonView::Bool(*b),
            Json::Number(n) => JsonView::Number(*n),
            Json::String(s) => JsonView::String(s@),
            Json::Array(items) => JsonView::Array(
                Seq::new(
                    items.len() as nat,
                    |i: int|
                        if 0 <= i < items.len() {
                            items[i]@
                        } else {
                            JsonView::Null
                        },
                ),
            ),
            Json::Object(members) => JsonView::Object(
                Seq::new(
                    members.len() as nat,
                    |i: int|
                        if 0 <= i < members.len() {
                            (members[i].0@, members[i].1@)
                        } else {
                            (Seq::empty(), JsonView::Null)
                        },
                ),
            ),
        }
    }
}

/// The values of an array's items, item by item.
pub open spec fn items_view(items: Seq<Json>) -> Seq<JsonView> {
    items.map_values(|item: Json| item@)
}

/// The values of an object's members, member by member: key and value.
pub open spec fn members_view(members: Seq<(String, Json)>) -> Seq<(Seq<char>, JsonView)> {
    members.map_values(|member: (String, Json)| (member.0@, member.1@))
}

/// The value of an array is made of the values of its items.
pub proof fn lemma_array_view(items: Vec<Json>)
    ensures
        Json::Array(items)@ == JsonView::Array(items_view(items@)),
{
    assert(Json::Array(items)@->Array_0 =~= items_view(items@));
}

/// The value of an object is made of the values of its members.
pub proof fn lemma_object_view(members: Vec<(String, Json)>)
    ensures
        Json::Object(members)@ == JsonView::Object(members_view(members@)),
{
    reveal_with_fuel(<Json as View>::view, 2);
    assert(Json::Object(members)@->Object_0 =~= members_view(members@));
}

/// The first member with a key is found at one position only.
pub proof fn lemma_first_with_key_unique(
    members: Seq<(Seq<char>, JsonView)>,
    key: Seq<char>,
    i: int,
)
    requires
        is_first_with_key(members, key, i),
    ensures
        has_key(members, key),
        key_index(members, key) == i,
        value_of(members, key) == members[i].1,
{
    let k = key_index(members, key);
    assert(is_first_with_key(members, key, k));
    if k < i {
        assert(members[k].0 != key);
    }
    if i < k {
        assert(members[i].0 != key);
    }
}

/// A key that occurs among the members occurs at a first position.
pub proof fn lemma_first_key_exists(members: Seq<(Seq<char>, JsonView)>, key: Seq<char>, k: int)
    requires
        0 <= k < members.len(),
        members[k].0 == key,
    ensures
        has_key(members, key),
        is_first_with_key(members, key, key_index(members, key)),
    decreases k,
{
    if forall|j: int| 0 <= j < k ==> (#[trigger] members[j]).0 != key {
        assert(is_first_with_key(members, key, k));
    } else {
        let j = choose|j: int| 0 <= j < k && (#[trigger] members[j]).0 == key;
        lemma_first_key_exists(members, key, j);
    }
}

/// Where the keys are distinct, each member is the first with its key, and
/// its value is the value under its key.
pub proof fn lemma_distinct_keys_first(members: Seq<(Seq<char>, JsonView)>, i: int)
    requires
        distinct_keys(members),
        0 <= i < members.len(),
    ensures
        is_first_with_key(members, members[i].0, i),
        has_key(members, members[i].0),
        value_of(members, members[i].0) == members[i].1,
{
    assert forall|j: int| 0 <= j < i implies (#[trigger] members[j]).0 != members[i].0 by {
        assert(members[j].0 != members[i].0);
    }
    lemma_first_with_key_unique(members, members[i].0, i);
}

impl Json {
    /// The kind of this value.
    pub fn tag(&self) -> (t: JsonTag)
        ensures
            t == self@.tag(),
    {
        match self {
            Json::Null => JsonTag::Null,
            Json::Bool(_) => JsonTag::Bool,
            Json::Number(_) => JsonTag::Number,
            Json::String(_) => JsonTag::String,
            Json::Array(_) => JsonTag::Array,
            Json::Object(_) => JsonTag::Object,
        }
    }
}

/// Looks `key` up among `members`: the position of the first member with
/// that key, or `None` where no member has it.
pub fn find_member(members: &Vec<(String, Json)>, key: &String) -> (found: Option<usize>)
    ensures
        match found {
            Some(i) => is_first_with_key(members_view(members@), key@, i as int),
            None => !has_key(members_view(members@), key@),
        },
{
    let ghost view = members_view(members@);
    let mut i: usize = 0;
    while i < members.len()
        invariant
            i <= members.len(),
            view == members_view(members@),
            forall|j: int| 0 <= j < i ==> (#[trigger] view[j]).0 != key@,
        decreases members.len() - i,
    {
        if members[i].0 == *key {
            assert(view[i as int].0 == key@);
            return Some(i);
        }
        i += 1;
    }
    None
}

/// Whether no two of `members` share a key.
pub fn has_distinct_keys(members: &Vec<(String, Json)>) -> (ok: bool)
    ensures
        ok == distinct_keys(members_view(members@)),
{
    let ghost view = members_view(members@);
    let mut i: usize = 0;
    while i < members.len()
        invariant
            i <= members.len(),
            view == members_view(members@),
            forall|k: int, j: int|
                0 <= k < j < i ==> (#[trigger] view[k]).0 != (#[trigger] view[j]).0,
        decreases members.len() - i,
    {
        match find_member(members, &members[i].0) {
            Some(first) => {
                if first != i {
                    assert(view[first as int].0 == view[i as int].0);
                    return false;
                }
            },
            None => {
                assert(view[i as int].0 == members[i as int].0@);
                return false;
            },
        }
        i += 1;
    }
    true
}

impl Json {
    /// Whether this value is well-formed: no object in it has two members
    /// with one key.
    pub fn is_well_formed(&self) -> (ok: bool)
        ensures
            ok == self@.wf(),
        decreases self,
    {
        match self {
            Json::Array(items) => {
                let ghost view = items_view(items@);
                proof {
                    lemma_array_view(*items);
                }
                let mut i: usize = 0;
                while i < items.len()
                    invariant
                        self is Array,
                        self->Array_0 == *items,
                        self@ == JsonView::Array(view),
                        view == items_view(items@),
                        i <= items.len(),
                        forall|k: int| 0 <= k < i ==> (#[trigger] view[k]).wf(),
                    decreases items.len() - i,
                {
                    if !items[i].is_well_formed() {
                        assert(!(self@->Array_0)[i as int].wf());
                        return false;
                    }
                    i += 1;
                }
                true
            },
            Json::Object(members) => {
                let ghost view = members_view(members@);
                proof {
                    lemma_object_view(*members);
                }
                if !has_distinct_keys(members) {
                    return false;
                }
                let mut i: usize = 0;
                while i < members.len()
                    invariant
                        self is Object,
                        self->Object_0 == *members,
                        self@ == JsonView::Object(view),
                        view == members_view(members@),
                        distinct_keys(view),
                        i <= members.len(),
                        forall|k: int| 0 <= k < i ==> (#[trigger] view[k]).1.wf(),
                    decreases members.len() - i,
                {
                    if !members[i].1.is_well_formed() {
                        assert(!(self@->Object_0)[i as int].1.wf());
                        return false;
                    }
                    i += 1;
                }
                true
            },
            _ => true,
        }
    }
}

/// A deep copy of an array's items.
pub fn clone_items(items: &Vec<Json>) -> (copy: Vec<Json>)
    ensures
        items_view(copy@) == items_view(items@),
    decreases items,
{
    let mut copy: Vec<Json> = Vec::new();
    let mut i: usize = 0;
    while i < items.len()
        invariant
            i <= items.len(),
            copy.len() == i,
            forall|k: int| 0 <= k < i ==> copy[k]@ == items[k]@,
        decreases items.len() - i,
    {
        copy.push(items[i].clone());
        i += 1;
    }
    assert(items_view(copy@) =~= items_view(items@));
    copy
}

/// A deep copy of an object's members.
pub fn clone_members(members: &Vec<(String, Json)>) -> (copy: Vec<(String, Json)>)
    ensures
        members_view(copy@) == members_view(members@),
    decreases members,
{
    let mut copy: Vec<(String, Json)> = Vec::new();
    let mut i: usize = 0;
    while i < members.len()
        invariant
            i <= members.len(),
            copy.len() == i,
            forall|k: int|
                0 <= k < i ==> copy[k].0@ == members[k].0@ && copy[k].1@ == members[k].1@,
        decreases members.len() - i,
    {
        copy.push((members[i].0.clone(), members[i].1.clone()));
        i += 1;
    }
    assert(members_view(copy@) =~= members_view(members@));
    copy
}

impl Clone for Json {
    /// A deep copy: the same tree.
    fn clone(&self) -> (res: Json)
        ensures
            res@ == self@,
        decreases self,
    {
        match self {
            Json::Null => Json::Null,
            Json::Bool(b) => Json::Bool(*b),
            Json::Number(n) => Json::Number(n.clone()),
            Json::String(s) => Json::String(s.clone()),
            Json::Array(items) => {
                let copy = clone_items(items);
                proof {
                    lemma_array_view(*items);
                    lemma_array_view(copy);
                }
                Json::Array(copy)
            },
            Json::Object(members) => {
                let copy = clone_members(members);
                proof {
                    lemma_object_view(*members);
                    lemma_object_view(copy);
                }
                Json::Object(copy)
            },
        }
    }
}

} // verus!
