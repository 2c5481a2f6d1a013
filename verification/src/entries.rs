//! Key/value payload entries, kept as an association list sorted strictly by
//! key so that equal payloads are equal lists and emission order is the keys'
//! lexicographic order.

use vstd::prelude::*;

use crate::text::{char_seq_lt, str_eq, str_lt};
use crate::value::Value;

verus! {

/// Keys strictly increase, so every key occurs at most once.
pub open spec fn entries_sorted(s: Seq<(String, Value)>) -> bool {
    forall|i: int, j: int|
        0 <= i < j < s.len() ==> char_seq_lt(#[trigger] s[i].0@, #[trigger] s[j].0@)
}

/// The value stored under `key`, if any.
pub open spec fn spec_lookup(s: Seq<(String, Value)>, key: Seq<char>) -> Option<Value>
    decreases s.len(),
{
    if s.len() == 0 {
        None
    } else if s[0].0@ == key {
        Some(s[0].1)
    } else {
        spec_lookup(s.skip(1), key)
    }
}

/// `s` with `value` stored under `key`: entries with smaller keys kept in
/// front, an entry with the same key replaced, the rest kept behind.
pub open spec fn spec_insert_entry(s: Seq<(String, Value)>, key: String, value: Value) -> Seq<
    (String, Value),
>
    decreases s.len(),
{
    if s.len() == 0 {
        seq![(key, value)]
    } else if char_seq_lt(s[0].0@, key@) {
        seq![s[0]] + spec_insert_entry(s.skip(1), key, value)
    } else if s[0].0@ == key@ {
        seq![(key, value)] + s.skip(1)
    } else {
        seq![(key, value)] + s
    }
}

pub proof fn lemma_char_seq_lt_irrefl(a: Seq<char>, b: Seq<char>)
    requires
        a == b,
    ensures
        !char_seq_lt(a, b),
    decreases a.len(),
{
    if a.len() > 0 {
        lemma_char_seq_lt_irrefl(a.skip(1), b.skip(1));
    }
}

/// Of two distinct sequences, exactly one sorts before the other.
pub proof fn lemma_char_seq_lt_connected(a: Seq<char>, b: Seq<char>)
    requires
        !char_seq_lt(a, b),
        !char_seq_lt(b, a),
    ensures
        a == b,
    decreases a.len(),
{
    if b.len() == 0 {
        if a.len() == 0 {
            assert(a =~= b);
        }
    } else if a.len() > 0 {
        if a[0] == b[0] {
            lemma_char_seq_lt_connected(a.skip(1), b.skip(1));
            assert(a =~= seq![a[0]] + a.skip(1));
            assert(b =~= seq![b[0]] + b.skip(1));
        }
    }
}

pub proof fn lemma_char_seq_lt_trans(a: Seq<char>, b: Seq<char>, c: Seq<char>)
    requires
        char_seq_lt(a, b),
        char_seq_lt(b, c),
    ensures
        char_seq_lt(a, c),
    decreases a.len() + b.len() + c.len(),
{
    if a.len() > 0 && b.len() > 0 && c.len() > 0 {
        if a[0] == b[0] && b[0] == c[0] {
            lemma_char_seq_lt_trans(a.skip(1), b.skip(1), c.skip(1));
        }
    }
}

/// Inserting keeps the list sorted and acts as map update: the inserted key
/// maps to `value`, every other key keeps its binding.
pub proof fn lemma_insert_entry_sorted(s: Seq<(String, Value)>, key: String, value: Value)
    requires
        entries_sorted(s),
    ensures
        entries_sorted(spec_insert_entry(s, key, value)),
        spec_lookup(spec_insert_entry(s, key, value), key@) == Some(value),
        forall|k: Seq<char>|
            k != key@ ==> #[trigger] spec_lookup(spec_insert_entry(s, key, value), k)
                == spec_lookup(s, k),
    decreases s.len(),
{
    let r = spec_insert_entry(s, key, value);
    if s.len() == 0 {
        assert(r == seq![(key, value)]);
        assert(r.skip(1) =~= Seq::<(String, Value)>::empty());
        assert forall|k: Seq<char>| k != key@ implies #[trigger] spec_lookup(r, k) == spec_lookup(
            s,
            k,
        ) by {
            assert(spec_lookup(r, k) == spec_lookup(r.skip(1), k));
        }
    } else if char_seq_lt(s[0].0@, key@) {
        let tail = s.skip(1);
        assert(entries_sorted(tail)) by {
            assert(forall|i: int, j: int|
                0 <= i < j < tail.len() ==> char_seq_lt(#[trigger] tail[i].0@, #[trigger] tail[j].0@))
                by {
                assert(forall|i: int, j: int| 0 <= i < j < tail.len() ==> tail[i] == s[i + 1] && tail[j]
                    == s[j + 1]);
            }
        }
        lemma_insert_entry_sorted(tail, key, value);
        let rt = spec_insert_entry(tail, key, value);
        assert(r == seq![s[0]] + rt);
        assert(r.skip(1) =~= rt);
        assert(r[0] == s[0]);
        // the head sorts before everything in rt: before old tail entries by
        // sortedness of s, before the new entry by the branch condition
        assert forall|j: int| 1 <= j < r.len() implies char_seq_lt(r[0].0@, r[j].0@) by {
            lemma_insert_entry_mem(tail, key, value, j - 1);
            let e = rt[j - 1];
            assert(r[j] == e);
            if e.0@ == key@ {
                assert(char_seq_lt(s[0].0@, key@));
            } else {
                let i = choose|i: int| 0 <= i < tail.len() && tail[i] == e;
                assert(tail[i] == s[i + 1]);
                assert(char_seq_lt(s[0].0@, s[i + 1].0@));
            }
        }
        assert(entries_sorted(r)) by {
            assert(forall|i: int, j: int|
                1 <= i < j < r.len() ==> r[i] == rt[i - 1] && r[j] == rt[j - 1]);
        }
        assert(spec_lookup(r, key@) == Some(value)) by {
            lemma_char_seq_lt_irrefl(s[0].0@, s[0].0@);
            assert(s[0].0@ != key@);
        }
        assert forall|k: Seq<char>| k != key@ implies #[trigger] spec_lookup(r, k) == spec_lookup(
            s,
            k,
        ) by {
            if s[0].0@ != k {
                assert(spec_lookup(r, k) == spec_lookup(rt, k));
                assert(spec_lookup(s, k) == spec_lookup(tail, k));
            }
        }
    } else if s[0].0@ == key@ {
        assert(r == seq![(key, value)] + s.skip(1));
        assert(r.skip(1) =~= s.skip(1));
        assert(r[0] == (key, value));
        assert forall|j: int| 1 <= j < r.len() implies char_seq_lt(r[0].0@, r[j].0@) by {
            assert(r[j] == s[j]);
            assert(char_seq_lt(s[0].0@, s[j].0@));
        }
        assert(entries_sorted(r)) by {
            assert(forall|i: int, j: int| 1 <= i < j < r.len() ==> r[i] == s[i] && r[j] == s[j]);
        }
        assert forall|k: Seq<char>| k != key@ implies #[trigger] spec_lookup(r, k) == spec_lookup(
            s,
            k,
        ) by {
            assert(spec_lookup(r, k) == spec_lookup(r.skip(1), k));
            assert(spec_lookup(s, k) == spec_lookup(s.skip(1), k));
        }
    } else {
        if !char_seq_lt(key@, s[0].0@) {
            lemma_char_seq_lt_connected(s[0].0@, key@);
            assert(false);
        }
        assert(char_seq_lt(key@, s[0].0@));
        assert(r == seq![(key, value)] + s);
        assert(r.skip(1) =~= s);
        assert forall|j: int| 1 <= j < r.len() implies char_seq_lt(r[0].0@, r[j].0@) by {
            assert(r[j] == s[j - 1]);
            if j > 1 {
                lemma_char_seq_lt_trans(key@, s[0].0@, s[j - 1].0@);
            }
        }
        assert(entries_sorted(r)) by {
            assert(forall|i: int, j: int|
                1 <= i < j < r.len() ==> r[i] == s[i - 1] && r[j] == s[j - 1]);
        }
        assert forall|k: Seq<char>| k != key@ implies #[trigger] spec_lookup(r, k) == spec_lookup(
            s,
            k,
        ) by {
            assert(spec_lookup(r, k) == spec_lookup(r.skip(1), k));
        }
    }
}

/// Every entry of the inserted list is the new entry or an entry of `s`.
proof fn lemma_insert_entry_mem(s: Seq<(String, Value)>, key: String, value: Value, j: int)
    requires
        0 <= j < spec_insert_entry(s, key, value).len(),
    ensures
        spec_insert_entry(s, key, value)[j].0@ == key@ || exists|i: int|
            0 <= i < s.len() && s[i] == spec_insert_entry(s, key, value)[j],
    decreases s.len(),
{
    let r = spec_insert_entry(s, key, value);
    if s.len() == 0 {
    } else if char_seq_lt(s[0].0@, key@) {
        if j == 0 {
            assert(s[0] == r[0]);
        } else {
            lemma_insert_entry_mem(s.skip(1), key, value, j - 1);
            let rt = spec_insert_entry(s.skip(1), key, value);
            assert(r[j] == rt[j - 1]);
            if rt[j - 1].0@ != key@ {
                let i = choose|i: int| 0 <= i < s.skip(1).len() && s.skip(1)[i] == rt[j - 1];
                assert(s[i + 1] == rt[j - 1]);
            }
        }
    } else if s[0].0@ == key@ {
        if j > 0 {
            assert(r[j] == s[j]);
        }
    } else {
        if j > 0 {
            assert(r[j] == s[j - 1]);
        }
    }
}

/// Stores `value` under `key`, keeping the list sorted.
pub fn insert_entry(data: &mut Vec<(String, Value)>, key: String, value: Value)
    ensures
        final(data)@ == spec_insert_entry(old(data)@, key, value),
{
    let ghost orig = data@;
    let mut i: usize = 0;
    while i < data.len() && str_lt(data[i].0.as_str(), key.as_str())
        invariant
            i <= data@.len(),
            data@ == orig,
            forall|j: int| 0 <= j < i ==> char_seq_lt(#[trigger] orig[j].0@, key@),
        decreases data@.len() - i,
    {
        i += 1;
    }
    proof {
        lemma_insert_entry_split(orig, key, value, i as int);
    }
    if i < data.len() && str_eq(data[i].0.as_str(), key.as_str()) {
        data.remove(i);
        data.insert(i, (key, value));
        proof {
            assert(data@ =~= spec_insert_entry(orig, key, value));
        }
    } else {
        data.insert(i, (key, value));
        proof {
            assert(data@ =~= spec_insert_entry(orig, key, value));
        }
    }
}

/// At the first position whose key does not sort before `key`, the insertion
/// splits the list there.
proof fn lemma_insert_entry_split(s: Seq<(String, Value)>, key: String, value: Value, i: int)
    requires
        0 <= i <= s.len(),
        forall|j: int| 0 <= j < i ==> char_seq_lt(#[trigger] s[j].0@, key@),
        i < s.len() ==> !char_seq_lt(s[i].0@, key@),
    ensures
        i < s.len() && s[i].0@ == key@ ==> spec_insert_entry(s, key, value) == s.take(i) + seq![
            (key, value),
        ] + s.skip(i + 1),
        !(i < s.len() && s[i].0@ == key@) ==> spec_insert_entry(s, key, value) == s.take(i) + seq![
            (key, value),
        ] + s.skip(i),
    decreases i,
{
    if i == 0 {
        if s.len() > 0 && s[0].0@ == key@ {
            assert(spec_insert_entry(s, key, value) == seq![(key, value)] + s.skip(1)) by {
                lemma_char_seq_lt_irrefl(s[0].0@, key@);
            }
            assert(s.take(0) + seq![(key, value)] + s.skip(1) =~= seq![(key, value)] + s.skip(1));
        } else {
            if s.len() > 0 {
                assert(spec_insert_entry(s, key, value) == seq![(key, value)] + s);
            } else {
                assert(spec_insert_entry(s, key, value) == seq![(key, value)]);
            }
            assert(s.take(0) + seq![(key, value)] + s.skip(0) =~= seq![(key, value)] + s);
            assert(seq![(key, value)] + s =~= spec_insert_entry(s, key, value));
        }
    } else {
        let tail = s.skip(1);
        assert(forall|j: int| 0 <= j < i - 1 ==> tail[j] == s[j + 1]);
        lemma_insert_entry_split(tail, key, value, i - 1);
        assert(spec_insert_entry(s, key, value) == seq![s[0]] + spec_insert_entry(tail, key, value));
        if i < s.len() && s[i].0@ == key@ {
            assert(tail[i - 1] == s[i]);
            assert(seq![s[0]] + (tail.take(i - 1) + seq![(key, value)] + tail.skip(i)) =~= s.take(i)
                + seq![(key, value)] + s.skip(i + 1));
        } else {
            assert(i - 1 < tail.len() ==> tail[i - 1] == s[i]);
            assert(seq![s[0]] + (tail.take(i - 1) + seq![(key, value)] + tail.skip(i - 1)) =~= s.take(
                i,
            ) + seq![(key, value)] + s.skip(i));
        }
    }
}

/// Finds the value stored under `key`.
pub fn lookup_entry<'a>(data: &'a Vec<(String, Value)>, key: &str) -> (r: Option<&'a Value>)
    ensures
        match spec_lookup(data@, key@) {
            Some(v) => r matches Some(x) && *x == v,
            None => r is None,
        },
{
    proof {
        assert(data@.skip(0) =~= data@);
    }
    let mut i: usize = 0;
    while i < data.len()
        invariant
            i <= data@.len(),
            forall|j: int| 0 <= j < i ==> (#[trigger] data@[j].0@) != key@,
            spec_lookup(data@.skip(i as int), key@) == spec_lookup(data@, key@),
        decreases data@.len() - i,
    {
        let ghost pre = data@.skip(i as int);
        if str_eq(data[i].0.as_str(), key) {
            assert(pre[0] == data@[i as int]);
            return Some(&data[i].1);
        }
        proof {
            assert(pre[0] == data@[i as int]);
            assert(pre.skip(1) =~= data@.skip(i + 1));
        }
        i += 1;
    }
    proof {
        assert(data@.skip(data@.len() as int) =~= Seq::<(String, Value)>::empty());
    }
    None
}

} // verus!
