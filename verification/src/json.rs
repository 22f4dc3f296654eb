//! A JSON value as the argument validation reads it.
use vstd::prelude::*;

verus! {

/// A JSON number: its value as an `i64` when it is an integer that fits one, and
/// its JSON text.
#[derive(Debug)]
pub struct JsonNumber {
    pub as_i64: Option<i64>,
    pub text: String,
}

/// A JSON value. Object members are kept in order.
#[derive(Debug)]
pub enum JsonValue {
    Null,
    Bool(bool),
    Number(JsonNumber),
    String(String),
    Array(Vec<JsonValue>),
    Object(Vec<(String, JsonValue)>),
}

/// The mathematical content of a [`JsonValue`].
pub enum JsonData {
    Null,
    Bool(bool),
    Number(Option<i64>, Seq<char>),
    Str(Seq<char>),
    Array(Seq<JsonData>),
    Object(Seq<(Seq<char>, JsonData)>),
}

impl View for JsonValue {
    type V = JsonData;

    open spec fn view(&self) -> JsonData {
        json_view(*self)
    }
}

/// The content of a JSON value.
pub open spec fn json_view(v: JsonValue) -> JsonData
    decreases v,
{
    match v {
        JsonValue::Null => JsonData::Null,
        JsonValue::Bool(b) => JsonData::Bool(b),
        JsonValue::Number(n) => JsonData::Number(n.as_i64, n.text@),
        JsonValue::String(s) => JsonData::Str(s@),
        JsonValue::Array(items) => JsonData::Array(values_view(items@)),
        JsonValue::Object(members) => JsonData::Object(members_view(members@)),
    }
}

/// The contents of a list of JSON values.
pub open spec fn values_view(s: Seq<JsonValue>) -> Seq<JsonData>
    decreases s,
{
    if s.len() == 0 {
        Seq::empty()
    } else {
        values_view(s.drop_last()).push(json_view(s.last()))
    }
}

/// The contents of the members of a JSON object.
pub open spec fn members_view(s: Seq<(String, JsonValue)>) -> Seq<(Seq<char>, JsonData)>
    decreases s,
{
    if s.len() == 0 {
        Seq::empty()
    } else {
        members_view(s.drop_last()).push((s.last().0@, json_view(s.last().1)))
    }
}

impl JsonNumber {
    /// An exact copy.
    pub fn copy(&self) -> (r: JsonNumber)
        ensures
            r == *self,
    {
        JsonNumber { as_i64: self.as_i64, text: self.text.clone() }
    }
}

/// Lists with elementwise equal contents have equal contents.
pub proof fn lemma_values_view_ext(a: Seq<JsonValue>, b: Seq<JsonValue>)
    requires
        a.len() == b.len(),
        forall|k: int| 0 <= k < a.len() ==> json_view(#[trigger] a[k]) == json_view(b[k]),
    ensures
        values_view(a) == values_view(b),
    decreases a.len(),
{
    if a.len() > 0 {
        lemma_values_view_ext(a.drop_last(), b.drop_last());
    }
}

/// Member lists with elementwise equal contents have equal contents.
pub proof fn lemma_members_view_ext(a: Seq<(String, JsonValue)>, b: Seq<(String, JsonValue)>)
    requires
        a.len() == b.len(),
        forall|k: int|
            0 <= k < a.len() ==> (#[trigger] a[k]).0@ == b[k].0@ && json_view(a[k].1) == json_view(
                b[k].1,
            ),
    ensures
        members_view(a) == members_view(b),
    decreases a.len(),
{
    if a.len() > 0 {
        lemma_members_view_ext(a.drop_last(), b.drop_last());
    }
}

/// The contents of a list, element by element.
pub proof fn lemma_values_view_index(a: Seq<JsonValue>)
    ensures
        values_view(a).len() == a.len(),
        forall|k: int| 0 <= k < a.len() ==> #[trigger] values_view(a)[k] == json_view(a[k]),
    decreases a.len(),
{
    if a.len() > 0 {
        lemma_values_view_index(a.drop_last());
        assert forall|k: int| 0 <= k < a.len() implies #[trigger] values_view(a)[k] == json_view(
            a[k],
        ) by {
            if k < a.len() - 1 {
                assert(a.drop_last()[k] == a[k]);
            }
        }
    }
}

impl JsonValue {
    /// An exact copy of the whole value.
    pub fn copy(&self) -> (r: JsonValue)
        ensures
            r@ == self@,
        decreases self,
    {
        match self {
            JsonValue::Null => JsonValue::Null,
            JsonValue::Bool(b) => JsonValue::Bool(*b),
            JsonValue::Number(n) => JsonValue::Number(n.copy()),
            JsonValue::String(s) => JsonValue::String(s.clone()),
            JsonValue::Array(items) => JsonValue::Array(copy_values(items)),
            JsonValue::Object(members) => JsonValue::Object(copy_members(members)),
        }
    }

    /// Whether the value is `null`.
    pub fn is_null(&self) -> (r: bool)
        ensures
            r == (*self is Null),
    {
        match self {
            JsonValue::Null => true,
            _ => false,
        }
    }
}

/// An exact copy of a list of values.
pub fn copy_values(items: &Vec<JsonValue>) -> (r: Vec<JsonValue>)
    ensures
        r.len() == items.len(),
        forall|k: int| 0 <= k < items.len() ==> (#[trigger] r@[k])@ == items@[k]@,
        values_view(r@) == values_view(items@),
    decreases items,
{
    let mut out: Vec<JsonValue> = Vec::new();
    let mut i: usize = 0;
    while i < items.len()
        invariant
            i <= items.len(),
            out.len() == i,
            forall|k: int| 0 <= k < i ==> (#[trigger] out@[k])@ == items@[k]@,
        decreases items.len() - i,
    {
        assert(decreases_to!(*items => items@[i as int]));
        out.push(items[i].copy());
        i = i + 1;
    }
    proof {
        lemma_values_view_ext(out@, items@);
    }
    out
}

/// An exact copy of the members of an object.
pub fn copy_members(members: &Vec<(String, JsonValue)>) -> (r: Vec<(String, JsonValue)>)
    ensures
        members_view(r@) == members_view(members@),
    decreases members,
{
    let mut out: Vec<(String, JsonValue)> = Vec::new();
    let mut i: usize = 0;
    while i < members.len()
        invariant
            i <= members.len(),
            out.len() == i,
            forall|k: int|
                0 <= k < i ==> (#[trigger] out@[k]).0@ == members@[k].0@ && json_view(out@[k].1)
                    == json_view(members@[k].1),
        decreases members.len() - i,
    {
        let (key, value) = &members[i];
        assert(decreases_to!(*members => members@[i as int]));
        assert(decreases_to!(members@[i as int] => members@[i as int].1));
        out.push((key.clone(), value.copy()));
        i = i + 1;
    }
    proof {
        lemma_members_view_ext(out@, members@);
    }
    out
}

/// The index of the first member named `key`, from index `i` on.
pub open spec fn member_index(members: Seq<(Seq<char>, JsonData)>, key: Seq<char>, i: int) -> Option<int>
    decreases members.len() - i,
{
    if i < 0 || i >= members.len() {
        None
    } else if members[i].0 == key {
        Some(i)
    } else {
        member_index(members, key, i + 1)
    }
}

/// `other` merged into `base`: two objects merge member by member (a member of
/// `other` merges into the first member of `base` with its name, or is added at the
/// end), and anything else is replaced by `other`.
pub open spec fn merged(base: JsonData, other: JsonData) -> JsonData
    decreases other,
{
    match other {
        JsonData::Object(om) => match base {
            JsonData::Object(bm) => JsonData::Object(merged_members(bm, om)),
            _ => other,
        },
        _ => other,
    }
}

/// The members of `other`, in order, merged into `base` (see [`merged`]).
pub open spec fn merged_members(
    base: Seq<(Seq<char>, JsonData)>,
    other: Seq<(Seq<char>, JsonData)>,
) -> Seq<(Seq<char>, JsonData)>
    decreases other,
{
    if other.len() == 0 {
        base
    } else {
        let acc = merged_members(base, other.drop_last());
        let last = other[other.len() - 1];
        match member_index(acc, last.0, 0) {
            Some(i) => acc.update(i, (last.0, merged(acc[i].1, last.1))),
            None => acc.push((last.0, merged(JsonData::Null, last.1))),
        }
    }
}

proof fn lemma_member_index(members: Seq<(Seq<char>, JsonData)>, key: Seq<char>, from: int)
    requires
        0 <= from,
    ensures
        match member_index(members, key, from) {
            Some(i) => from <= i < members.len() && members[i].0 == key,
            None => forall|j: int| from <= j < members.len() ==> (#[trigger] members[j]).0 != key,
        },
    decreases members.len() - from,
{
    if from < members.len() {
        lemma_member_index(members, key, from + 1);
    }
}

/// The index of the first member named `key`.
fn find_member(members: &Vec<(String, JsonValue)>, key: &String) -> (r: Option<usize>)
    ensures
        r == (match member_index(members_view(members@), key@, 0) {
            Some(i) => Some(i as usize),
            None => None::<usize>,
        }),
{
    proof {
        lemma_members_view_index(members@);
    }
    let mut i: usize = 0;
    while i < members.len()
        invariant
            i <= members.len(),
            members_view(members@).len() == members.len(),
            forall|k: int| 0 <= k < members.len() ==> (#[trigger] members_view(members@)[k]).0 == members@[k].0@,
            member_index(members_view(members@), key@, i as int) == member_index(members_view(members@), key@, 0),
        decreases members.len() - i,
    {
        if members[i].0 == *key {
            return Some(i);
        }
        i = i + 1;
    }
    None
}

/// The contents of the members, member by member.
pub proof fn lemma_members_view_index(a: Seq<(String, JsonValue)>)
    ensures
        members_view(a).len() == a.len(),
        forall|k: int| 0 <= k < a.len() ==> #[trigger] members_view(a)[k] == (a[k].0@, json_view(a[k].1)),
    decreases a.len(),
{
    if a.len() > 0 {
        lemma_members_view_index(a.drop_last());
        assert forall|k: int| 0 <= k < a.len() implies #[trigger] members_view(a)[k] == (a[k].0@, json_view(a[k].1)) by {
            if k < a.len() - 1 {
                assert(a.drop_last()[k] == a[k]);
            }
        }
    }
}

/// Merges `other` into `base` (see [`merged`]), as a language client merges
/// new capabilities into the ones it has.
pub fn deep_merge(base: JsonValue, other: &JsonValue) -> (r: JsonValue)
    ensures
        r@ == merged(base@, other@),
    decreases other,
{
    match other {
        JsonValue::Object(om) => match base {
            JsonValue::Object(bm) => JsonValue::Object(merge_members(bm, om)),
            _ => other.copy(),
        },
        _ => other.copy(),
    }
}

/// Merges the members of `other`, in order, into `base` (see [`merged_members`]).
fn merge_members(base: Vec<(String, JsonValue)>, other: &Vec<(String, JsonValue)>) -> (r: Vec<(String, JsonValue)>)
    ensures
        members_view(r@) == merged_members(members_view(base@), members_view(other@)),
    decreases other,
{
    let ghost bm = members_view(base@);
    let ghost om = members_view(other@);
    proof {
        lemma_members_view_index(other@);
    }
    let mut acc = base;
    let mut i: usize = 0;
    assert(om.take(0) =~= Seq::<(Seq<char>, JsonData)>::empty());
    while i < other.len()
        invariant
            i <= other.len(),
            om == members_view(other@),
            om.len() == other.len(),
            forall|k: int| 0 <= k < other.len() ==> #[trigger] om[k] == (other@[k].0@, json_view(other@[k].1)),
            members_view(acc@) == merged_members(bm, om.take(i as int)),
        decreases other.len() - i,
    {
        let (key, value) = &other[i];
        assert(decreases_to!(*other => other@[i as int]));
        assert(decreases_to!(other@[i as int] => other@[i as int].1));
        assert(om.take(i + 1).drop_last() =~= om.take(i as int));
        assert(om.take(i + 1)[i as int] == om[i as int]);
        let ghost before = members_view(acc@);
        proof {
            lemma_members_view_index(acc@);
            lemma_member_index(before, key@, 0);
            assert(om[i as int] == (key@, value@));
            assert(merged_members(bm, om.take(i + 1)) == (match member_index(before, key@, 0) {
                Some(j) => before.update(j, (key@, merged(before[j].1, value@))),
                None => before.push((key@, merged(JsonData::Null, value@))),
            }));
        }
        let found = find_member(&acc, key);
        match found {
            Some(idx) => {
                let ghost pre = acc@;
                proof {
                    let j = member_index(before, key@, 0)->0;
                    assert(acc.len() == acc@.len());
                    assert(j as usize == j);
                }
                assert(before[idx as int].0 == key@);
                let (k, v) = acc.remove(idx);
                let ghost kv = k@;
                assert(kv == before[idx as int].0);
                assert(v@ == before[idx as int].1);
                let merged_value = deep_merge(v, value);
                let ghost mv = merged_value@;
                let entry = (k, merged_value);
                let ghost entry_copy = entry;
                acc.insert(idx, entry);
                proof {
                    assert(acc@[idx as int] == entry_copy);
                    assert(entry_copy.0@ == kv && entry_copy.1@ == mv);
                    assert(kv == key@);
                    assert(acc@ =~= pre.update(idx as int, acc@[idx as int]));
                    lemma_members_view_index(acc@);
                    assert forall|j: int| 0 <= j < acc@.len() implies #[trigger] members_view(acc@)[j] == before.update(
                        idx as int,
                        (key@, merged(before[idx as int].1, value@)),
                    )[j] by {
                        if j != idx {
                            assert(acc@[j] == pre[j]);
                        }
                    }
                    assert(members_view(acc@) =~= before.update(idx as int, (key@, merged(before[idx as int].1, value@))));
                }
            },
            None => {
                let merged_value = deep_merge(JsonValue::Null, value);
                let ghost pre = acc@;
                acc.push((key.clone(), merged_value));
                proof {
                    assert(acc@.drop_last() =~= pre);
                }
            },
        }
        i = i + 1;
    }
    assert(om.take(other.len() as int) =~= om);
    acc
}

/// Whether some member is named `key`.
pub open spec fn has_member(members: Seq<(Seq<char>, JsonData)>, key: Seq<char>) -> bool {
    exists|j: int| 0 <= j < members.len() && (#[trigger] members[j]).0 == key
}

/// Merging keeps every member name: the merged members are named by each name of
/// `base` and each name of `other`, and by no other name.
pub proof fn law_merge_keeps_member_names(
    base: Seq<(Seq<char>, JsonData)>,
    other: Seq<(Seq<char>, JsonData)>,
    key: Seq<char>,
)
    ensures
        has_member(merged_members(base, other), key) <==> (has_member(base, key) || has_member(other, key)),
    decreases other.len(),
{
    if other.len() > 0 {
        let prev = other.drop_last();
        law_merge_keeps_member_names(base, prev, key);
        let acc = merged_members(base, prev);
        let last = other[other.len() - 1];
        lemma_member_index(acc, last.0, 0);
        let r = merged_members(base, other);
        if has_member(other, key) && !has_member(prev, key) {
            let j = choose|j: int| 0 <= j < other.len() && (#[trigger] other[j]).0 == key;
            if j < prev.len() {
                assert(prev[j] == other[j]);
            }
        }
        if has_member(prev, key) {
            let j = choose|j: int| 0 <= j < prev.len() && (#[trigger] prev[j]).0 == key;
            assert(other[j] == prev[j]);
        }
        match member_index(acc, last.0, 0) {
            Some(i) => {
                if has_member(acc, key) {
                    let j = choose|j: int| 0 <= j < acc.len() && (#[trigger] acc[j]).0 == key;
                    assert(r[j].0 == key);
                }
                if has_member(r, key) {
                    let j = choose|j: int| 0 <= j < r.len() && (#[trigger] r[j]).0 == key;
                    if j != i {
                        assert(acc[j] == r[j]);
                    }
                }
            },
            None => {
                if has_member(acc, key) {
                    let j = choose|j: int| 0 <= j < acc.len() && (#[trigger] acc[j]).0 == key;
                    assert(r[j] == acc[j]);
                }
                if key == last.0 {
                    assert(r[acc.len() as int].0 == key);
                }
                if has_member(r, key) {
                    let j = choose|j: int| 0 <= j < r.len() && (#[trigger] r[j]).0 == key;
                    if j < acc.len() {
                        assert(acc[j] == r[j]);
                    }
                }
            },
        }
        if key == last.0 {
            assert(other[other.len() - 1].0 == key);
        }
    }
}

/// Merging a value that is not an object replaces the base; merging an empty
/// object into an object leaves it as it was.
pub proof fn law_merge_replaces_or_keeps(base: JsonData, other: JsonData)
    ensures
        !(other is Object) ==> merged(base, other) == other,
        (base is Object && other is Object && other->Object_0.len() == 0) ==> merged(base, other) == base,
{
}

} // verus!
