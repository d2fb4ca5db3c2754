//! The order of object keys: `String`'s order, which compares the UTF-8
//! bytes of two strings lexicographically. A `serde_json::Map` keeps its keys
//! in this order.
use vstd::prelude::*;
use vstd::utf8::{encode_utf8, encode_utf8_decode_utf8};

verus! {

/// `a` comes before `b` lexicographically; a proper prefix comes first.
pub open spec fn bytes_lt(a: Seq<u8>, b: Seq<u8>) -> bool
    decreases a.len(),
{
    if a.len() == 0 {
        b.len() > 0
    } else if b.len() == 0 {
        false
    } else if a[0] != b[0] {
        a[0] < b[0]
    } else {
        bytes_lt(a.drop_first(), b.drop_first())
    }
}

/// The key `a` comes before the key `b`.
pub open spec fn key_lt(a: Seq<char>, b: Seq<char>) -> bool {
    bytes_lt(encode_utf8(a), encode_utf8(b))
}

pub proof fn lemma_bytes_lt_irreflexive(a: Seq<u8>)
    ensures
        !bytes_lt(a, a),
    decreases a.len(),
{
    if a.len() > 0 {
        lemma_bytes_lt_irreflexive(a.drop_first());
    }
}

pub proof fn lemma_bytes_lt_transitive(a: Seq<u8>, b: Seq<u8>, c: Seq<u8>)
    requires
        bytes_lt(a, b),
        bytes_lt(b, c),
    ensures
        bytes_lt(a, c),
    decreases a.len(),
{
    if a.len() > 0 && b.len() > 0 && c.len() > 0 && a[0] == b[0] && b[0] == c[0] {
        lemma_bytes_lt_transitive(a.drop_first(), b.drop_first(), c.drop_first());
    }
}

pub proof fn lemma_bytes_trichotomy(a: Seq<u8>, b: Seq<u8>)
    ensures
        bytes_lt(a, b) || a == b || bytes_lt(b, a),
    decreases a.len(),
{
    if a.len() > 0 && b.len() > 0 && a[0] == b[0] {
        lemma_bytes_trichotomy(a.drop_first(), b.drop_first());
        if a.drop_first() == b.drop_first() {
            assert(a =~= seq![a[0]] + a.drop_first());
            assert(b =~= seq![b[0]] + b.drop_first());
        }
    } else if a.len() == 0 && b.len() == 0 {
        assert(a =~= b);
    }
}

/// After a common prefix of length `i`, the order is that of the rests.
pub proof fn lemma_bytes_lt_after_prefix(a: Seq<u8>, b: Seq<u8>, i: int)
    requires
        0 <= i <= a.len(),
        i <= b.len(),
        forall|j: int| 0 <= j < i ==> a[j] == b[j],
    ensures
        bytes_lt(a, b) == bytes_lt(a.skip(i), b.skip(i)),
    decreases i,
{
    if i > 0 {
        lemma_bytes_lt_after_prefix(a.drop_first(), b.drop_first(), i - 1);
        assert(a.drop_first().skip(i - 1) =~= a.skip(i));
        assert(b.drop_first().skip(i - 1) =~= b.skip(i));
    } else {
        assert(a.skip(0) =~= a);
        assert(b.skip(0) =~= b);
    }
}

pub proof fn lemma_key_lt_irreflexive(a: Seq<char>)
    ensures
        !key_lt(a, a),
{
    lemma_bytes_lt_irreflexive(encode_utf8(a));
}

pub proof fn lemma_key_lt_transitive(a: Seq<char>, b: Seq<char>, c: Seq<char>)
    requires
        key_lt(a, b),
        key_lt(b, c),
    ensures
        key_lt(a, c),
{
    lemma_bytes_lt_transitive(encode_utf8(a), encode_utf8(b), encode_utf8(c));
}

/// Keys are in order: one comes before the other, or they are the same.
pub proof fn lemma_key_trichotomy(a: Seq<char>, b: Seq<char>)
    ensures
        key_lt(a, b) || a == b || key_lt(b, a),
        !(key_lt(a, b) && key_lt(b, a)),
        key_lt(a, b) ==> a != b,
{
    lemma_bytes_trichotomy(encode_utf8(a), encode_utf8(b));
    if encode_utf8(a) == encode_utf8(b) {
        encode_utf8_decode_utf8(a);
        encode_utf8_decode_utf8(b);
    }
    if key_lt(a, b) && key_lt(b, a) {
        lemma_key_lt_transitive(a, b, a);
        lemma_key_lt_irreflexive(a);
    }
    lemma_key_lt_irreflexive(a);
}

/// How two keys compare.
pub enum KeyOrder {
    Less,
    Equal,
    Greater,
}

/// Compares two keys by their UTF-8 bytes, as `String`'s order does.
pub fn compare_keys(a: &String, b: &String) -> (r: KeyOrder)
    ensures
        r is Less <==> key_lt(a@, b@),
        r is Equal <==> a@ == b@,
        r is Greater <==> key_lt(b@, a@),
{
    let x = a.as_str().as_bytes();
    let y = b.as_str().as_bytes();
    proof {
        lemma_key_trichotomy(a@, b@);
    }
    let ghost ea = encode_utf8(a@);
    let ghost eb = encode_utf8(b@);
    assert(x@ == ea && y@ == eb);
    let mut i: usize = 0;
    loop
        invariant
            i <= x@.len(),
            i <= y@.len(),
            x@ == ea,
            y@ == eb,
            ea == encode_utf8(a@),
            eb == encode_utf8(b@),
            forall|j: int| 0 <= j < i ==> x@[j] == y@[j],
            key_lt(a@, b@) || a@ == b@ || key_lt(b@, a@),
            !(key_lt(a@, b@) && key_lt(b@, a@)),
            key_lt(a@, b@) ==> a@ != b@,
            key_lt(b@, a@) ==> a@ != b@,
        decreases x@.len() - i,
    {
        proof {
            lemma_bytes_lt_after_prefix(ea, eb, i as int);
            lemma_bytes_lt_after_prefix(eb, ea, i as int);
        }
        if i == x.len() {
            if i == y.len() {
                assert(ea =~= eb);
                proof {
                    encode_utf8_decode_utf8(a@);
                    encode_utf8_decode_utf8(b@);
                    lemma_key_lt_irreflexive(a@);
                }
                return KeyOrder::Equal;
            } else {
                assert(ea.skip(i as int).len() == 0);
                return KeyOrder::Less;
            }
        }
        if i == y.len() {
            assert(eb.skip(i as int).len() == 0);
            return KeyOrder::Greater;
        }
        assert(ea.skip(i as int)[0] == x@[i as int]);
        assert(eb.skip(i as int)[0] == y@[i as int]);
        if x[i] < y[i] {
            return KeyOrder::Less;
        }
        if x[i] > y[i] {
            return KeyOrder::Greater;
        }
        i = i + 1;
    }
}

} // verus!
