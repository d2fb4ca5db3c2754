//! The JSON values that JSend responses carry.
//!
//! [`JsonValue`] holds, as plain values, what a `serde_json::Value` holds
//! (floating-point numbers aside). [`JsonValue::object`] builds an object as
//! a `serde_json::Map` collects pairs: each key occurs once, a key that comes
//! again replaces the value it had, and the members are in key order (the
//! order of `String`), as in the `BTreeMap` behind a `serde_json::Map`.
use vstd::prelude::*;
use crate::keys::{
    compare_keys, key_lt, lemma_key_lt_irreflexive, lemma_key_lt_transitive, lemma_key_trichotomy,
    KeyOrder,
};

verus! {

#[verifier::external_type_specification]
#[verifier::external_body]
pub struct ExSerdeJsonValue(serde_json::Value);

/// A JSON value.
#[derive(Debug, PartialEq)]
pub enum JsonValue {
    Null,
    Bool(bool),
    I64(i64),
    U64(u64),
    Str(String),
    Array(Vec<JsonValue>),
    Object(Vec<(String, JsonValue)>),
}

/// What a [`JsonValue`] holds, as mathematical values.
pub enum JsonView {
    Null,
    Bool(bool),
    I64(i64),
    U64(u64),
    Str(Seq<char>),
    Array(Seq<JsonView>),
    Object(Seq<(Seq<char>, JsonView)>),
}

/// The view of a JSON value.
pub open spec fn view_of(value: JsonValue) -> JsonView
    decreases value, 1nat,
{
    match value {
        JsonValue::Null => JsonView::Null,
        JsonValue::Bool(b) => JsonView::Bool(b),
        JsonValue::I64(n) => JsonView::I64(n),
        JsonValue::U64(n) => JsonView::U64(n),
        JsonValue::Str(s) => JsonView::Str(s@),
        JsonValue::Array(items) => JsonView::Array(views_of(items@)),
        JsonValue::Object(members) => JsonView::Object(member_views_of(members@)),
    }
}

/// The views of the items of an array.
pub open spec fn views_of(items: Seq<JsonValue>) -> Seq<JsonView>
    decreases items, 0nat,
{
    if items.len() == 0 {
        Seq::empty()
    } else {
        views_of(items.drop_last()).push(view_of(items.last()))
    }
}

/// The views of the members of an object: each key by its characters.
pub open spec fn member_views_of(members: Seq<(String, JsonValue)>) -> Seq<(Seq<char>, JsonView)>
    decreases members, 0nat,
{
    if members.len() == 0 {
        Seq::empty()
    } else {
        member_views_of(members.drop_last()).push((members.last().0@, view_of(members.last().1)))
    }
}

impl View for JsonValue {
    type V = JsonView;

    open spec fn view(&self) -> JsonView {
        view_of(*self)
    }
}

/// The view of an optional value.
pub open spec fn option_view(value: Option<JsonValue>) -> Option<JsonView> {
    match value {
        Some(v) => Some(v@),
        None => None,
    }
}

/// No key occurs twice among the members of an object.
pub open spec fn keys_unique(members: Seq<(String, JsonValue)>) -> bool {
    forall|i: int, j: int|
        0 <= i < members.len() && 0 <= j < members.len() && i != j ==> #[trigger] members[i].0@
            != #[trigger] members[j].0@
}

/// The keys of the members are in key order, as in a `serde_json::Map`.
pub open spec fn keys_sorted(members: Seq<(String, JsonValue)>) -> bool {
    forall|i: int, j: int|
        0 <= i < j < members.len() ==> key_lt(#[trigger] members[i].0@, #[trigger] members[j].0@)
}

/// Some member of the object has the key `key`.
pub open spec fn has_key(members: Seq<(String, JsonValue)>, key: Seq<char>) -> bool {
    exists|i: int| 0 <= i < members.len() && #[trigger] members[i].0@ == key
}

/// The number of leading members whose keys come before `key`: where a
/// member with key `key` goes.
pub open spec fn insert_index(members: Seq<(String, JsonValue)>, key: Seq<char>) -> int
    decreases members.len(),
{
    if members.len() == 0 {
        0
    } else if key_lt(members[0].0@, key) {
        1 + insert_index(members.drop_first(), key)
    } else {
        0
    }
}

/// The members after inserting `key` with `value`, as `serde_json::Map`
/// does: a member with that key keeps its key and takes the new value;
/// otherwise the pair goes where its key belongs in key order.
pub open spec fn insert_member(
    members: Seq<(String, JsonValue)>,
    key: String,
    value: JsonValue,
) -> Seq<(String, JsonValue)> {
    if has_key(members, key@) {
        let i = choose|i: int| 0 <= i < members.len() && #[trigger] members[i].0@ == key@;
        members.update(i, (members[i].0, value))
    } else {
        members.insert(insert_index(members, key@), (key, value))
    }
}

/// The members of the object built by inserting the pairs in order.
pub open spec fn collect_members(pairs: Seq<(String, JsonValue)>) -> Seq<(String, JsonValue)>
    decreases pairs.len(),
{
    if pairs.len() == 0 {
        Seq::empty()
    } else {
        insert_member(collect_members(pairs.drop_last()), pairs.last().0, pairs.last().1)
    }
}

/// The value of the last pair with key `key`, if any.
pub open spec fn last_value(pairs: Seq<(String, JsonValue)>, key: Seq<char>) -> Option<JsonValue>
    decreases pairs.len(),
{
    if pairs.len() == 0 {
        None
    } else if pairs.last().0@ == key {
        Some(pairs.last().1)
    } else {
        last_value(pairs.drop_last(), key)
    }
}

/// Members in key order hold each key once.
pub proof fn lemma_sorted_keys_unique(members: Seq<(String, JsonValue)>)
    requires
        keys_sorted(members),
    ensures
        keys_unique(members),
{
    assert forall|i: int, j: int|
        0 <= i < members.len() && 0 <= j < members.len() && i != j implies #[trigger] members[i].0@
        != #[trigger] members[j].0@ by {
        if i < j {
            lemma_key_trichotomy(members[i].0@, members[j].0@);
        } else {
            lemma_key_trichotomy(members[j].0@, members[i].0@);
        }
    }
}

/// The keys before the insertion index come before `key`; the one at it
/// does not.
pub proof fn lemma_insert_index(members: Seq<(String, JsonValue)>, key: Seq<char>)
    ensures
        0 <= insert_index(members, key) <= members.len(),
        forall|j: int|
            0 <= j < insert_index(members, key) ==> key_lt(#[trigger] members[j].0@, key),
        insert_index(members, key) < members.len() ==> !key_lt(
            members[insert_index(members, key)].0@,
            key,
        ),
    decreases members.len(),
{
    if members.len() > 0 && key_lt(members[0].0@, key) {
        let rest = members.drop_first();
        lemma_insert_index(rest, key);
        assert forall|j: int| 0 <= j < insert_index(members, key) implies key_lt(
            #[trigger] members[j].0@,
            key,
        ) by {
            if j > 0 {
                assert(members[j] == rest[j - 1]);
            }
        }
    }
}

/// A place `i` with every key before it below `key`, and the key at it not
/// below `key`, is the insertion index.
proof fn lemma_insert_index_at(members: Seq<(String, JsonValue)>, key: Seq<char>, i: int)
    requires
        0 <= i <= members.len(),
        forall|j: int| 0 <= j < i ==> key_lt(#[trigger] members[j].0@, key),
        i < members.len() ==> !key_lt(members[i].0@, key),
    ensures
        insert_index(members, key) == i,
{
    lemma_insert_index(members, key);
    let p = insert_index(members, key);
    if p < i {
        assert(key_lt(members[p].0@, key));
    } else if p > i {
        assert(key_lt(members[i].0@, key));
    }
}

/// Inserting keeps the keys in order; the keys afterwards are the keys before
/// and `key`; `key` holds `value`; every other member was there before; and
/// where `key` was new, the members are those before and the new pair.
pub proof fn lemma_insert_member(members: Seq<(String, JsonValue)>, key: String, value: JsonValue)
    requires
        keys_sorted(members),
    ensures
        keys_sorted(insert_member(members, key, value)),
        forall|k: Seq<char>|
            #[trigger] has_key(insert_member(members, key, value), k) <==> (has_key(members, k)
                || k == key@),
        forall|i: int|
            0 <= i < insert_member(members, key, value).len() && #[trigger] insert_member(
                members,
                key,
                value,
            )[i].0@ == key@ ==> insert_member(members, key, value)[i].1 == value,
        forall|i: int|
            0 <= i < insert_member(members, key, value).len() && #[trigger] insert_member(
                members,
                key,
                value,
            )[i].0@ != key@ ==> members.contains(insert_member(members, key, value)[i]),
        !has_key(members, key@) ==> forall|x: (String, JsonValue)|
            #[trigger] insert_member(members, key, value).contains(x) <==> (members.contains(x)
                || x == (key, value)),
{
    let r = insert_member(members, key, value);
    lemma_sorted_keys_unique(members);
    if has_key(members, key@) {
        let j = choose|j: int| 0 <= j < members.len() && #[trigger] members[j].0@ == key@;
        assert(r == members.update(j, (members[j].0, value)));
        assert forall|a: int, b: int| 0 <= a < b < r.len() implies key_lt(
            #[trigger] r[a].0@,
            #[trigger] r[b].0@,
        ) by {
            assert(r[a].0 == members[a].0);
            assert(r[b].0 == members[b].0);
        }
        assert forall|k: Seq<char>| #[trigger] has_key(r, k) <==> (has_key(members, k) || k == key@) by {
            if has_key(r, k) {
                let i = choose|i: int| 0 <= i < r.len() && #[trigger] r[i].0@ == k;
                assert(members[i].0@ == k);
            }
            if has_key(members, k) {
                let i = choose|i: int| 0 <= i < members.len() && #[trigger] members[i].0@ == k;
                assert(r[i].0@ == k);
            }
            if k == key@ {
                assert(r[j].0@ == k);
            }
        }
        assert forall|i: int| 0 <= i < r.len() && #[trigger] r[i].0@ == key@ implies r[i].1
            == value by {
            assert(members[i].0@ == members[j].0@);
        }
        assert forall|i: int| 0 <= i < r.len() && #[trigger] r[i].0@ != key@ implies members.contains(
            r[i],
        ) by {
            assert(r[i] == members[i]);
        }
    } else {
        let p = insert_index(members, key@);
        lemma_insert_index(members, key@);
        members.insert_ensures(p, (key, value));
        assert(r == members.insert(p, (key, value)));
        if p < members.len() {
            lemma_key_trichotomy(members[p].0@, key@);
            assert(members[p].0@ != key@);
            assert(key_lt(key@, members[p].0@));
        }
        assert forall|i: int|
            0 <= i < r.len() implies #[trigger] r[i] == (if i < p {
                members[i]
            } else if i == p {
                (key, value)
            } else {
                members[i - 1]
            }) by {
            if i > p {
                assert(r[(i - 1) + 1] == members[i - 1]);
            }
        }
        assert forall|a: int, b: int| 0 <= a < b < r.len() implies key_lt(
            #[trigger] r[a].0@,
            #[trigger] r[b].0@,
        ) by {
            if a < p && b == p {
            } else if a == p && b > p {
                if b - 1 > p {
                    lemma_key_lt_transitive(key@, members[p].0@, members[b - 1].0@);
                }
            } else if a < p && b > p {
                assert(key_lt(members[a].0@, members[b - 1].0@));
            }
        }
        assert forall|k: Seq<char>| #[trigger] has_key(r, k) <==> (has_key(members, k) || k == key@) by {
            if has_key(r, k) {
                let i = choose|i: int| 0 <= i < r.len() && #[trigger] r[i].0@ == k;
                if i < p {
                    assert(members[i].0@ == k);
                } else if i > p {
                    assert(members[i - 1].0@ == k);
                }
            }
            if has_key(members, k) {
                let i = choose|i: int| 0 <= i < members.len() && #[trigger] members[i].0@ == k;
                if i < p {
                    assert(r[i].0@ == k);
                } else {
                    assert(r[i + 1].0@ == k);
                }
            }
            if k == key@ {
                assert(r[p].0@ == k);
            }
        }
        assert forall|i: int| 0 <= i < r.len() && #[trigger] r[i].0@ == key@ implies r[i].1
            == value by {
            if i < p {
                assert(members[i].0@ == key@);
            } else if i > p {
                assert(members[i - 1].0@ == key@);
            }
        }
        assert forall|i: int| 0 <= i < r.len() && #[trigger] r[i].0@ != key@ implies members.contains(
            r[i],
        ) by {
            if i < p {
                assert(r[i] == members[i]);
            } else if i > p {
                assert(r[i] == members[i - 1]);
            }
        }
        assert forall|x: (String, JsonValue)| #[trigger] r.contains(x) <==> (members.contains(x) || x
            == (key, value)) by {
            if r.contains(x) {
                let i = choose|i: int| 0 <= i < r.len() && r[i] == x;
                if i < p {
                    assert(members[i] == x);
                } else if i > p {
                    assert(members[i - 1] == x);
                }
            }
            if members.contains(x) {
                let i = choose|i: int| 0 <= i < members.len() && members[i] == x;
                if i < p {
                    assert(r[i] == x);
                } else {
                    assert(r[i + 1] == x);
                }
            }
            if x == (key, value) {
                assert(r[p] == x);
            }
        }
    }
}

/// A key of the pairs is a key of the pairs before the last, or the last's.
proof fn lemma_has_key_split(pairs: Seq<(String, JsonValue)>)
    requires
        pairs.len() > 0,
    ensures
        forall|k: Seq<char>|
            #[trigger] has_key(pairs, k) <==> (has_key(pairs.drop_last(), k) || pairs.last().0@
                == k),
{
    let prefix = pairs.drop_last();
    assert forall|k: Seq<char>|
        #[trigger] has_key(pairs, k) <==> (has_key(prefix, k) || pairs.last().0@ == k) by {
        if has_key(pairs, k) {
            let j = choose|j: int| 0 <= j < pairs.len() && #[trigger] pairs[j].0@ == k;
            if j < pairs.len() - 1 {
                assert(prefix[j] == pairs[j]);
            }
        }
        if has_key(prefix, k) {
            let j = choose|j: int| 0 <= j < prefix.len() && #[trigger] prefix[j].0@ == k;
            assert(pairs[j] == prefix[j]);
        }
        if pairs.last().0@ == k {
            assert(pairs[pairs.len() - 1].0@ == k);
        }
    }
}

/// The object built from pairs holds each key of the pairs exactly once and no
/// other key, each with the value of the last pair that has it, in key order.
pub proof fn lemma_object_from_pairs(pairs: Seq<(String, JsonValue)>)
    ensures
        keys_sorted(collect_members(pairs)),
        keys_unique(collect_members(pairs)),
        forall|key: Seq<char>|
            #[trigger] has_key(collect_members(pairs), key) <==> has_key(pairs, key),
        forall|i: int|
            0 <= i < collect_members(pairs).len() ==> last_value(
                pairs,
                #[trigger] collect_members(pairs)[i].0@,
            ) == Some(collect_members(pairs)[i].1),
    decreases pairs.len(),
{
    if pairs.len() > 0 {
        let prefix = pairs.drop_last();
        let (key, value) = pairs.last();
        let before = collect_members(prefix);
        let after = collect_members(pairs);
        lemma_object_from_pairs(prefix);
        lemma_insert_member(before, key, value);
        lemma_has_key_split(pairs);
        assert(after == insert_member(before, key, value));
        assert forall|i: int| 0 <= i < after.len() implies last_value(
            pairs,
            #[trigger] after[i].0@,
        ) == Some(after[i].1) by {
            if after[i].0@ != key@ {
                assert(before.contains(after[i]));
                let j = choose|j: int| 0 <= j < before.len() && before[j] == after[i];
                assert(last_value(prefix, before[j].0@) == Some(before[j].1));
            }
        }
    }
    lemma_sorted_keys_unique(collect_members(pairs));
}

/// With keys that differ, the object built from pairs holds exactly the
/// pairs.
pub proof fn lemma_object_holds_pairs(pairs: Seq<(String, JsonValue)>)
    requires
        keys_unique(pairs),
    ensures
        forall|x: (String, JsonValue)|
            #[trigger] collect_members(pairs).contains(x) <==> pairs.contains(x),
    decreases pairs.len(),
{
    if pairs.len() > 0 {
        let prefix = pairs.drop_last();
        let (key, value) = pairs.last();
        let before = collect_members(prefix);
        assert(keys_unique(prefix)) by {
            assert forall|i: int, j: int|
                0 <= i < prefix.len() && 0 <= j < prefix.len() && i != j implies #[trigger] prefix[i].0@
                != #[trigger] prefix[j].0@ by {
                assert(prefix[i] == pairs[i] && prefix[j] == pairs[j]);
            }
        }
        lemma_object_holds_pairs(prefix);
        lemma_object_from_pairs(prefix);
        if has_key(prefix, key@) {
            let j = choose|j: int| 0 <= j < prefix.len() && #[trigger] prefix[j].0@ == key@;
            assert(pairs[j].0@ == pairs[pairs.len() - 1].0@);
        }
        assert(!has_key(before, key@));
        lemma_insert_member(before, key, value);
        assert forall|x: (String, JsonValue)| #[trigger] pairs.contains(x) <==> (prefix.contains(x)
            || x == (key, value)) by {
            if pairs.contains(x) {
                let i = choose|i: int| 0 <= i < pairs.len() && pairs[i] == x;
                if i < pairs.len() - 1 {
                    assert(prefix[i] == x);
                }
            }
            if prefix.contains(x) {
                let i = choose|i: int| 0 <= i < prefix.len() && prefix[i] == x;
                assert(pairs[i] == x);
            }
            if x == (key, value) {
                assert(pairs[pairs.len() - 1] == x);
            }
        }
    }
}

/// Members in key order are determined by which members they hold.
proof fn lemma_sorted_members_equal(a: Seq<(String, JsonValue)>, b: Seq<(String, JsonValue)>)
    requires
        keys_sorted(a),
        keys_sorted(b),
        forall|x: (String, JsonValue)| #[trigger] a.contains(x) <==> b.contains(x),
    ensures
        a == b,
    decreases a.len(),
{
    if a.len() == 0 {
        if b.len() > 0 {
            assert(b.contains(b[0]));
            assert(a.contains(b[0]));
        }
        assert(a =~= b);
    } else {
        assert(a.contains(a[0]));
        assert(b.contains(a[0]));
        let j = choose|j: int| 0 <= j < b.len() && b[j] == a[0];
        assert(b.contains(b[0]));
        assert(a.contains(b[0]));
        let i = choose|i: int| 0 <= i < a.len() && a[i] == b[0];
        if j > 0 {
            assert(key_lt(b[0].0@, b[j].0@));
            if i > 0 {
                assert(key_lt(a[0].0@, a[i].0@));
                lemma_key_trichotomy(a[0].0@, a[i].0@);
            } else {
                lemma_key_lt_irreflexive(a[0].0@);
            }
        }
        assert(a[0] == b[0]);
        let a1 = a.drop_first();
        let b1 = b.drop_first();
        assert forall|x: (String, JsonValue)| #[trigger] a1.contains(x) <==> b1.contains(x) by {
            if a1.contains(x) {
                let k = choose|k: int| 0 <= k < a1.len() && a1[k] == x;
                assert(a[k + 1] == x);
                assert(a.contains(x));
                assert(b.contains(x));
                let m = choose|m: int| 0 <= m < b.len() && b[m] == x;
                if m == 0 {
                    assert(key_lt(a[0].0@, a[k + 1].0@));
                    lemma_key_lt_irreflexive(a[0].0@);
                }
                assert(b1[m - 1] == x);
            }
            if b1.contains(x) {
                let k = choose|k: int| 0 <= k < b1.len() && b1[k] == x;
                assert(b[k + 1] == x);
                assert(b.contains(x));
                assert(a.contains(x));
                let m = choose|m: int| 0 <= m < a.len() && a[m] == x;
                if m == 0 {
                    assert(key_lt(b[0].0@, b[k + 1].0@));
                    lemma_key_lt_irreflexive(b[0].0@);
                }
                assert(a1[m - 1] == x);
            }
        }
        assert forall|p: int, q: int| 0 <= p < q < a1.len() implies key_lt(
            #[trigger] a1[p].0@,
            #[trigger] a1[q].0@,
        ) by {
            assert(a1[p] == a[p + 1] && a1[q] == a[q + 1]);
        }
        assert forall|p: int, q: int| 0 <= p < q < b1.len() implies key_lt(
            #[trigger] b1[p].0@,
            #[trigger] b1[q].0@,
        ) by {
            assert(b1[p] == b[p + 1] && b1[q] == b[q + 1]);
        }
        lemma_sorted_members_equal(a1, b1);
        assert(a =~= seq![a[0]] + a1);
        assert(b =~= seq![b[0]] + b1);
    }
}

/// With keys that differ, the order of the pairs does not change the object
/// built from them.
pub proof fn lemma_object_ignores_pair_order(
    pairs: Seq<(String, JsonValue)>,
    reordered: Seq<(String, JsonValue)>,
)
    requires
        keys_unique(pairs),
        keys_unique(reordered),
        forall|x: (String, JsonValue)| #[trigger] pairs.contains(x) <==> reordered.contains(x),
    ensures
        collect_members(pairs) == collect_members(reordered),
{
    lemma_object_from_pairs(pairs);
    lemma_object_from_pairs(reordered);
    lemma_object_holds_pairs(pairs);
    lemma_object_holds_pairs(reordered);
    assert forall|x: (String, JsonValue)| #[trigger] collect_members(pairs).contains(x)
        <==> collect_members(reordered).contains(x) by {
        assert(collect_members(pairs).contains(x) <==> pairs.contains(x));
        assert(collect_members(reordered).contains(x) <==> reordered.contains(x));
    }
    lemma_sorted_members_equal(collect_members(pairs), collect_members(reordered));
}

/// What `serde_json` writes for the `serde_json::Value` that holds what a
/// value with this view holds.
pub uninterp spec fn json_text(value: JsonView) -> Seq<u8>;

/// The `serde_json::Value` that holds what a value with this view holds.
pub uninterp spec fn serde_json_value(value: JsonView) -> serde_json::Value;

/// Calls `serde_json::to_vec` on the `serde_json::Value` that holds what
/// `value` holds; its `serde_json::Error` becomes `None`. Claimed: it
/// succeeds, and the bytes are `json_text(value@)`, a function of what
/// `value` holds alone. Its documentation names two causes of failure, a
/// failing `Serialize` impl and a map key that is not a string; the source
/// shows neither for a `serde_json::Value` (`impl Serialize for Value` in
/// `value/ser.rs` forwards each variant to the serializer and fails only where
/// the serializer does; map keys are `String`s; the compact serializer fails
/// only where its writer does, and writing into a `Vec<u8>` does not fail).
#[verifier::external_body]
pub(crate) fn encode_json(value: &JsonValue) -> (r: Option<Vec<u8>>)
    ensures
        r is Some,
        r matches Some(bytes) ==> bytes@ == json_text(value@),
{
    serde_json::to_vec(&serde_value(value)).ok()
}

/// Converts `value` variant by variant into a `serde_json::Value`; an
/// object's members are collected into a `serde_json::Map`. Claimed: the
/// result is `serde_json_value(value@)`, a function of what `value` holds
/// alone.
#[verifier::external_body]
fn serde_value(value: &JsonValue) -> (r: serde_json::Value)
    ensures
        r == serde_json_value(value@),
{
    match value {
        JsonValue::Null => serde_json::Value::Null,
        JsonValue::Bool(b) => serde_json::Value::Bool(*b),
        JsonValue::I64(n) => serde_json::Value::from(*n),
        JsonValue::U64(n) => serde_json::Value::from(*n),
        JsonValue::Str(s) => serde_json::Value::String(s.clone()),
        JsonValue::Array(items) => serde_json::Value::Array(items.iter().map(serde_value).collect()),
        JsonValue::Object(members) => serde_json::Value::Object(
            members.iter().map(|(k, v)| (k.clone(), serde_value(v))).collect(),
        ),
    }
}

/// Inserts `key` with `value` into the members of an object.
fn insert_into(members: &mut Vec<(String, JsonValue)>, key: String, value: JsonValue)
    requires
        keys_sorted(old(members)@),
    ensures
        final(members)@ == insert_member(old(members)@, key, value),
        keys_sorted(final(members)@),
{
    proof {
        lemma_insert_member(old(members)@, key, value);
        lemma_sorted_keys_unique(old(members)@);
    }
    let mut i: usize = 0;
    loop
        invariant
            i <= members@.len(),
            members@ == old(members)@,
            keys_sorted(members@),
            keys_unique(members@),
            keys_sorted(insert_member(members@, key, value)),
            forall|j: int| 0 <= j < i ==> key_lt(#[trigger] members@[j].0@, key@),
        decreases members@.len() - i,
    {
        if i == members.len() {
            proof {
                assert forall|j: int| 0 <= j < members@.len() implies #[trigger] members@[j].0@
                    != key@ by {
                    lemma_key_trichotomy(members@[j].0@, key@);
                }
                lemma_insert_index_at(members@, key@, i as int);
            }
            members.insert(i, (key, value));
            return ;
        }
        match compare_keys(&members[i].0, &key) {
            KeyOrder::Less => {
                i = i + 1;
            },
            KeyOrder::Equal => {
                let ghost j = choose|j: int|
                    0 <= j < members@.len() && #[trigger] members@[j].0@ == key@;
                assert(members@[i as int].0@ == key@);
                assert(j == i);
                let (old_key, _old_value) = members.remove(i);
                members.insert(i, (old_key, value));
                assert(members@ =~= insert_member(old(members)@, key, value));
                return ;
            },
            KeyOrder::Greater => {
                proof {
                    lemma_key_trichotomy(members@[i as int].0@, key@);
                    assert forall|j: int| 0 <= j < members@.len() implies #[trigger] members@[j].0@
                        != key@ by {
                        lemma_key_trichotomy(members@[j].0@, key@);
                        if j > i {
                            lemma_key_lt_transitive(key@, members@[i as int].0@, members@[j].0@);
                            lemma_key_trichotomy(key@, members@[j].0@);
                        }
                    }
                    lemma_insert_index_at(members@, key@, i as int);
                }
                members.insert(i, (key, value));
                return ;
            },
        }
    }
}

impl JsonValue {
    /// Builds an object from key/value pairs, as collecting them into a
    /// `serde_json::Map` does: each key once, in key order, a later pair
    /// replacing the value of an earlier pair with the same key.
    pub fn object(pairs: Vec<(String, JsonValue)>) -> (r: JsonValue)
        ensures
            r matches JsonValue::Object(members) && members@ == collect_members(pairs@),
    {
        let ghost all = pairs@;
        let mut rest = pairs;
        let mut members: Vec<(String, JsonValue)> = Vec::new();
        let ghost mut k: int = 0;
        while rest.len() > 0
            invariant
                0 <= k <= all.len(),
                rest@ == all.skip(k),
                members@ == collect_members(all.take(k)),
                keys_sorted(members@),
            decreases rest@.len(),
        {
            assert(rest@.len() == all.len() - k);
            let (key, value) = rest.remove(0);
            proof {
                assert(all.take(k + 1).drop_last() =~= all.take(k));
                assert(all.take(k + 1).last() == all[k]);
            }
            insert_into(&mut members, key, value);
            proof {
                k = k + 1;
            }
            assert(rest@ =~= all.skip(k));
        }
        assert(all.take(k) =~= all);
        JsonValue::Object(members)
    }

    /// The same value as a `serde_json::Value`.
    pub fn to_serde_json(&self) -> (r: serde_json::Value)
        ensures
            r == serde_json_value(self@),
    {
        serde_value(self)
    }
}

} // verus!
