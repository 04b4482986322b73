//! A JSON document value, with its mathematical model.
//!
//! Numbers are kept as their decimal text; object members keep their order.
use vstd::prelude::*;

use crate::seq_search::{
    first_index, lemma_first_index_absent, lemma_first_index_found, lemma_first_index_push,
    lemma_first_index_same, lemma_first_index_spec,
};
use crate::decimal::{decimal_text, u64_to_decimal};
use crate::text::str_eq;

verus! {

/// A JSON value.
#[derive(Debug, PartialEq)]
pub enum JsonValue {
    Null,
    Bool(bool),
    /// A number, as its decimal text.
    Number(String),
    String(String),
    Array(Vec<JsonValue>),
    /// Object members, in order.
    Object(Vec<(String, JsonValue)>),
}

/// The mathematical value of a `JsonValue`.
pub enum JsonView {
    Null,
    Bool(bool),
    Number(Seq<char>),
    Str(Seq<char>),
    Array(Seq<JsonView>),
    Object(Seq<(Seq<char>, JsonView)>),
}

/// The view of a JSON value.
pub open spec fn json_view(v: JsonValue) -> JsonView
    decreases v, 0nat,
{
    match v {
        JsonValue::Null => JsonView::Null,
        JsonValue::Bool(b) => JsonView::Bool(b),
        JsonValue::Number(n) => JsonView::Number(n@),
        JsonValue::String(s) => JsonView::Str(s@),
        JsonValue::Array(items) => JsonView::Array(json_seq_view(items@, items@.len())),
        JsonValue::Object(members) => JsonView::Object(json_members_view(members@, members@.len())),
    }
}

/// The views of the first `n` values of `s`.
pub open spec fn json_seq_view(s: Seq<JsonValue>, n: nat) -> Seq<JsonView>
    decreases s, n,
{
    if n == 0 || n > s.len() {
        Seq::empty()
    } else {
        json_seq_view(s, (n - 1) as nat).push(json_view(s[n - 1]))
    }
}

/// The views of the first `n` members of `s`.
pub open spec fn json_members_view(s: Seq<(String, JsonValue)>, n: nat) -> Seq<(Seq<char>, JsonView)>
    decreases s, n,
{
    if n == 0 || n > s.len() {
        Seq::empty()
    } else {
        json_members_view(s, (n - 1) as nat).push((s[n - 1].0@, json_view(s[n - 1].1)))
    }
}

/// The views of all values of `s`.
pub open spec fn values_view(s: Seq<JsonValue>) -> Seq<JsonView> {
    json_seq_view(s, s.len())
}

/// The views of all members of `s`.
pub open spec fn members_view(s: Seq<(String, JsonValue)>) -> Seq<(Seq<char>, JsonView)> {
    json_members_view(s, s.len())
}

impl View for JsonValue {
    type V = JsonView;

    open spec fn view(&self) -> JsonView {
        json_view(*self)
    }
}

/// The view of a sequence of values is taken element by element.
pub proof fn lemma_values_view(s: Seq<JsonValue>, n: nat)
    requires
        n <= s.len(),
    ensures
        json_seq_view(s, n).len() == n,
        forall|i: int| 0 <= i < n ==> #[trigger] json_seq_view(s, n)[i] == json_view(s[i]),
    decreases n,
{
    if n > 0 {
        lemma_values_view(s, (n - 1) as nat);
    }
}

/// The view of a sequence of members is taken member by member.
pub proof fn lemma_members_view(s: Seq<(String, JsonValue)>, n: nat)
    requires
        n <= s.len(),
    ensures
        json_members_view(s, n).len() == n,
        forall|i: int|
            0 <= i < n ==> #[trigger] json_members_view(s, n)[i] == (s[i].0@, json_view(s[i].1)),
    decreases n,
{
    if n > 0 {
        lemma_members_view(s, (n - 1) as nat);
    }
}

/// Two value sequences with equal element views have equal views.
pub proof fn lemma_values_view_ext(s: Seq<JsonValue>, t: Seq<JsonView>)
    requires
        s.len() == t.len(),
        forall|i: int| 0 <= i < s.len() ==> json_view(#[trigger] s[i]) == t[i],
    ensures
        values_view(s) == t,
{
    lemma_values_view(s, s.len());
    assert(values_view(s) =~= t);
}

/// Two member sequences with equal member views have equal views.
pub proof fn lemma_members_view_ext(s: Seq<(String, JsonValue)>, t: Seq<(Seq<char>, JsonView)>)
    requires
        s.len() == t.len(),
        forall|i: int| 0 <= i < s.len() ==> (#[trigger] s[i].0@, json_view(s[i].1)) == t[i],
    ensures
        members_view(s) == t,
{
    lemma_members_view(s, s.len());
    assert(members_view(s) =~= t);
}

/// Selects members whose key is `key`.
pub open spec fn key_is(key: Seq<char>) -> spec_fn((Seq<char>, JsonView)) -> bool {
    |m: (Seq<char>, JsonView)| m.0 == key
}

/// The position of the first member with key `key`, or -1.
pub open spec fn member_index(members: Seq<(Seq<char>, JsonView)>, key: Seq<char>) -> int {
    first_index(members, key_is(key))
}

/// The value of the first member with key `key`.
pub open spec fn member_get(members: Seq<(Seq<char>, JsonView)>, key: Seq<char>) -> Option<JsonView> {
    let i = member_index(members, key);
    if i >= 0 {
        Some(members[i].1)
    } else {
        None
    }
}

/// `members` with the value of key `key` set to `value`: the first member
/// with that key is replaced in place, or the member is appended.
pub open spec fn member_set(members: Seq<(Seq<char>, JsonView)>, key: Seq<char>, value: JsonView) -> Seq<
    (Seq<char>, JsonView),
> {
    let i = member_index(members, key);
    if i >= 0 {
        members.update(i, (key, value))
    } else {
        members.push((key, value))
    }
}

/// The position of the first member of `members` whose key is `key`.
pub fn find_member(members: &Vec<(String, JsonValue)>, key: &str) -> (r: Option<usize>)
    ensures
        match r {
            Some(i) => i < members@.len() && member_index(members_view(members@), key@) == i,
            None => member_index(members_view(members@), key@) == -1,
        },
{
    let ghost mv = members_view(members@);
    proof {
        lemma_members_view(members@, members@.len());
    }
    let mut i: usize = 0;
    while i < members.len()
        invariant
            i <= members.len(),
            mv == members_view(members@),
            mv.len() == members@.len(),
            forall|j: int| 0 <= j < members@.len() ==> #[trigger] mv[j] == (members@[j].0@, json_view(members@[j].1)),
            forall|j: int| 0 <= j < i ==> !#[trigger] key_is(key@)(mv[j]),
        decreases members.len() - i,
    {
        if str_eq(members[i].0.as_str(), key) {
            proof {
                assert(key_is(key@)(mv[i as int]));
                lemma_first_index_found(mv, key_is(key@), i as int);
            }
            return Some(i);
        }
        i = i + 1;
    }
    proof {
        lemma_first_index_absent(mv, key_is(key@));
    }
    None
}

/// A JSON array of the strings of `v`, in order.
pub fn string_array(v: &Vec<String>) -> (r: JsonValue)
    ensures
        r@ == JsonView::Array(v@.map_values(|s: String| JsonView::Str(s@))),
{
    let mut items: Vec<JsonValue> = Vec::new();
    let mut i: usize = 0;
    while i < v.len()
        invariant
            i <= v.len(),
            items@.len() == i,
            forall|j: int| 0 <= j < i ==> json_view(#[trigger] items@[j]) == JsonView::Str(v@[j]@),
        decreases v.len() - i,
    {
        items.push(JsonValue::String(v[i].clone()));
        i = i + 1;
    }
    proof {
        lemma_values_view_ext(items@, v@.map_values(|s: String| JsonView::Str(s@)));
    }
    JsonValue::Array(items)
}

/// A JSON number holding `n`.
pub fn number_u64(n: u64) -> (r: JsonValue)
    ensures
        r@ == JsonView::Number(decimal_text(n as nat)),
{
    JsonValue::Number(u64_to_decimal(n))
}

/// Setting a key and reading it back gives the value set.
pub proof fn lemma_member_set_get_same(ms: Seq<(Seq<char>, JsonView)>, key: Seq<char>, value: JsonView)
    ensures
        member_get(member_set(ms, key, value), key) == Some(value),
        member_index(member_set(ms, key, value), key) >= 0,
{
    let i = member_index(ms, key);
    lemma_first_index_spec(ms, key_is(key));
    let t = member_set(ms, key, value);
    if i >= 0 {
        lemma_first_index_same(ms, key_is(key), t, key_is(key));
    } else {
        lemma_first_index_push(ms, key_is(key), (key, value));
    }
}

/// Setting a key leaves the other keys' values alone.
pub proof fn lemma_member_set_get_other(
    ms: Seq<(Seq<char>, JsonView)>,
    key: Seq<char>,
    value: JsonView,
    other: Seq<char>,
)
    requires
        other != key,
    ensures
        member_get(member_set(ms, key, value), other) == member_get(ms, other),
{
    let i = member_index(ms, key);
    lemma_first_index_spec(ms, key_is(key));
    let t = member_set(ms, key, value);
    if i >= 0 {
        assert forall|j: int| 0 <= j < ms.len() implies (key_is(other)(ms[j]) <==> key_is(other)(
            t[j],
        )) by {
            if j == i {
                assert(ms[j].0 == key);
            }
        }
        lemma_first_index_same(ms, key_is(other), t, key_is(other));
        lemma_first_index_spec(ms, key_is(other));
        let k = member_index(ms, other);
        if k >= 0 {
            assert(k != i);
        }
    } else {
        lemma_first_index_push(ms, key_is(other), (key, value));
        lemma_first_index_spec(ms, key_is(other));
        let k = member_index(ms, other);
        if k >= 0 {
            assert(t[k] == ms[k]);
        }
    }
}

/// Setting a key to the value it already has changes nothing.
pub proof fn lemma_member_set_unchanged(ms: Seq<(Seq<char>, JsonView)>, key: Seq<char>, value: JsonView)
    requires
        member_get(ms, key) == Some(value),
    ensures
        member_set(ms, key, value) == ms,
{
    lemma_first_index_spec(ms, key_is(key));
    let i = member_index(ms, key);
    assert(ms[i].0 == key);
    assert(member_set(ms, key, value) =~= ms);
}

/// Setting the same key twice to the same value is setting it once.
pub proof fn lemma_member_set_twice(ms: Seq<(Seq<char>, JsonView)>, key: Seq<char>, value: JsonView)
    ensures
        member_set(member_set(ms, key, value), key, value) == member_set(ms, key, value),
{
    lemma_member_set_get_same(ms, key, value);
    lemma_member_set_unchanged(member_set(ms, key, value), key, value);
}

impl JsonValue {
    /// A copy of the value.
    pub fn duplicate(&self) -> (r: JsonValue)
        ensures
            r@ == self@,
        decreases self,
    {
        match self {
            JsonValue::Null => JsonValue::Null,
            JsonValue::Bool(b) => JsonValue::Bool(*b),
            JsonValue::Number(n) => JsonValue::Number(n.clone()),
            JsonValue::String(t) => JsonValue::String(t.clone()),
            JsonValue::Array(items) => {
                let mut out: Vec<JsonValue> = Vec::new();
                let mut i: usize = 0;
                while i < items.len()
                    invariant
                        i <= items.len(),
                        out@.len() == i,
                        *self == JsonValue::Array(*items),
                        forall|j: int| 0 <= j < i ==> json_view(#[trigger] out@[j]) == json_view(items@[j]),
                    decreases items.len() - i,
                {
                    proof {
                        vstd::std_specs::vec::axiom_vec_index_decreases(*items, i as int);
                        assert(decreases_to!(*self => (*self)->Array_0));
                        assert(decreases_to!(*self => items@[i as int]));
                    }
                    let x = items[i].duplicate();
                    out.push(x);
                    i = i + 1;
                }
                proof {
                    lemma_values_view(items@, items@.len());
                    lemma_values_view_ext(out@, values_view(items@));
                }
                JsonValue::Array(out)
            },
            JsonValue::Object(members) => {
                let mut out: Vec<(String, JsonValue)> = Vec::new();
                let mut i: usize = 0;
                while i < members.len()
                    invariant
                        i <= members.len(),
                        out@.len() == i,
                        *self == JsonValue::Object(*members),
                        forall|j: int|
                            0 <= j < i ==> (#[trigger] out@[j].0@, json_view(out@[j].1)) == (
                                members@[j].0@,
                                json_view(members@[j].1),
                            ),
                    decreases members.len() - i,
                {
                    proof {
                        vstd::std_specs::vec::axiom_vec_index_decreases(*members, i as int);
                        assert(decreases_to!(*self => (*self)->Object_0));
                        assert(decreases_to!(members@[i as int] => members@[i as int].1));
                        assert(decreases_to!(*self => members@[i as int].1));
                    }
                    let k = members[i].0.clone();
                    let v = members[i].1.duplicate();
                    out.push((k, v));
                    i = i + 1;
                }
                proof {
                    lemma_members_view(members@, members@.len());
                    lemma_members_view_ext(out@, members_view(members@));
                }
                JsonValue::Object(out)
            },
        }
    }
}

} // verus!
