//! Lookup by string key in a sequence of records, shared by every
//! registry in the crate.

use vstd::prelude::*;

verus! {

/// Position of the first record whose key is `key`, or -1.
pub open spec fn key_index_of<T>(s: Seq<T>, key: Seq<char>, f: spec_fn(T) -> Seq<char>) -> int
    decreases s.len(),
{
    if s.len() == 0 {
        -1
    } else if f(s[0]) == key {
        0
    } else {
        let r = key_index_of(s.drop_first(), key, f);
        if r == -1 {
            -1
        } else {
            r + 1
        }
    }
}

/// A lookup lands in the sequence or reports -1.
pub proof fn lemma_key_index_bounds<T>(s: Seq<T>, key: Seq<char>, f: spec_fn(T) -> Seq<char>)
    ensures
        -1 <= key_index_of(s, key, f) < s.len(),
    decreases s.len(),
{
    if s.len() == 0 {
    } else if f(s[0]) == key {
    } else {
        lemma_key_index_bounds(s.drop_first(), key, f);
    }
}

/// What a left-to-right scan finds is what `key_index_of` means.
pub proof fn lemma_key_index_at<T>(s: Seq<T>, key: Seq<char>, f: spec_fn(T) -> Seq<char>, j: int)
    requires
        0 <= j <= s.len(),
        forall|i: int| 0 <= i < j ==> f(#[trigger] s[i]) != key,
        j < s.len() ==> f(s[j]) == key,
    ensures
        key_index_of(s, key, f) == if j == s.len() {
            -1
        } else {
            j
        },
    decreases s.len(),
{
    if s.len() == 0 {
    } else if f(s[0]) == key {
        assert(j == 0);
    } else {
        let rest = s.drop_first();
        assert(forall|i: int| 0 <= i < j - 1 ==> f(#[trigger] rest[i]) != key);
        lemma_key_index_at(rest, key, f, j - 1);
    }
}

/// A negative lookup means the key is nowhere in the sequence.
pub proof fn lemma_key_index_missing<T>(s: Seq<T>, key: Seq<char>, f: spec_fn(T) -> Seq<char>)
    requires
        key_index_of(s, key, f) == -1,
    ensures
        forall|i: int| 0 <= i < s.len() ==> f(#[trigger] s[i]) != key,
    decreases s.len(),
{
    if s.len() == 0 {
    } else if f(s[0]) == key {
    } else {
        lemma_key_index_bounds(s.drop_first(), key, f);
        lemma_key_index_missing(s.drop_first(), key, f);
        assert(forall|i: int| 1 <= i < s.len() ==> #[trigger] s[i] == s.drop_first()[i - 1]);
    }
}

/// A lookup points at the first occurrence of the key.
pub proof fn lemma_key_index_first<T>(s: Seq<T>, key: Seq<char>, f: spec_fn(T) -> Seq<char>)
    requires
        key_index_of(s, key, f) >= 0,
    ensures
        forall|i: int| 0 <= i < key_index_of(s, key, f) ==> f(#[trigger] s[i]) != key,
    decreases s.len(),
{
    if s.len() == 0 {
    } else if f(s[0]) == key {
    } else {
        lemma_key_index_bounds(s.drop_first(), key, f);
        lemma_key_index_first(s.drop_first(), key, f);
        assert(forall|i: int| 1 <= i < s.len() ==> #[trigger] s[i] == s.drop_first()[i - 1]);
    }
}

/// Sequences with the same keys position for position agree on every
/// lookup.
pub proof fn lemma_key_index_same_keys<T>(
    a: Seq<T>,
    b: Seq<T>,
    key: Seq<char>,
    f: spec_fn(T) -> Seq<char>,
)
    requires
        a.len() == b.len(),
        forall|i: int| 0 <= i < a.len() ==> f(#[trigger] a[i]) == f(b[i]),
    ensures
        key_index_of(a, key, f) == key_index_of(b, key, f),
    decreases a.len(),
{
    if a.len() == 0 {
    } else if f(a[0]) == key {
    } else {
        assert(forall|i: int|
            0 <= i < a.drop_first().len() ==> f(#[trigger] a.drop_first()[i]) == f(
                b.drop_first()[i],
            ));
        lemma_key_index_same_keys(a.drop_first(), b.drop_first(), key, f);
    }
}

/// Appending an entry does not move a key already present.
pub proof fn lemma_key_index_push_present<T>(
    s: Seq<T>,
    x: T,
    key: Seq<char>,
    f: spec_fn(T) -> Seq<char>,
)
    requires
        key_index_of(s, key, f) >= 0,
    ensures
        key_index_of(s.push(x), key, f) == key_index_of(s, key, f),
    decreases s.len(),
{
    if s.len() == 0 {
    } else if f(s[0]) == key {
        assert(s.push(x)[0] == s[0]);
        assert(key_index_of(s.push(x), key, f) == 0);
    } else {
        lemma_key_index_bounds(s.drop_first(), key, f);
        lemma_key_index_push_present(s.drop_first(), x, key, f);
        assert(s.push(x).drop_first() =~= s.drop_first().push(x));
        assert(s.push(x)[0] == s[0]);
    }
}

/// Whatever `key_index_of` points at carries the key looked up.
pub proof fn lemma_key_index_found<T>(s: Seq<T>, key: Seq<char>, f: spec_fn(T) -> Seq<char>)
    requires
        key_index_of(s, key, f) >= 0,
    ensures
        key_index_of(s, key, f) < s.len(),
        f(s[key_index_of(s, key, f)]) == key,
    decreases s.len(),
{
    if s.len() == 0 {
    } else if f(s[0]) == key {
    } else {
        lemma_key_index_found(s.drop_first(), key, f);
    }
}

} // verus!
