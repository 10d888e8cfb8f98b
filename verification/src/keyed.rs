use vstd::prelude::*;
use crate::text::{lemma_str_lt_order, str_equal, str_less, str_lt};

verus! {

/// The keys of `entries`, in order.
pub open spec fn entry_keys<V>(entries: Seq<(String, V)>) -> Seq<Seq<char>> {
    entries.map_values(|e: (String, V)| e.0@)
}

/// Each key comes before every later one; so no key occurs twice.
pub open spec fn keys_strictly_sorted(keys: Seq<Seq<char>>) -> bool {
    forall|i: int, j: int| 0 <= i < j < keys.len() ==> str_lt(keys[i], keys[j])
}

/// The position of key `k` in `entries`.
pub open spec fn key_position<V>(entries: Seq<(String, V)>, k: Seq<char>) -> int {
    choose|i: int| 0 <= i < entries.len() && entries[i].0@ == k
}

/// What `entries` maps each of its keys to.
pub open spec fn entries_map<V>(entries: Seq<(String, V)>) -> Map<Seq<char>, V> {
    Map::new(
        |k: Seq<char>| entry_keys(entries).contains(k),
        |k: Seq<char>| entries[key_position(entries, k)].1,
    )
}

/// In a strictly sorted list a key sits at exactly one position.
pub proof fn lemma_key_position<V>(entries: Seq<(String, V)>, i: int)
    requires
        keys_strictly_sorted(entry_keys(entries)),
        0 <= i < entries.len(),
    ensures
        key_position(entries, entries[i].0@) == i,
        entry_keys(entries).contains(entries[i].0@),
        entries_map(entries)[entries[i].0@] == entries[i].1,
{
    let k = entries[i].0@;
    assert(entry_keys(entries)[i] == k);
    let j = key_position(entries, k);
    assert(0 <= j < entries.len() && entries[j].0@ == k);
    if j != i {
        assert(entry_keys(entries)[j] == k);
        lemma_str_lt_order(k, k, k);
    }
}

/// Two strictly sorted lists with the same keys are the same list.
pub proof fn lemma_sorted_keys_unique(a: Seq<Seq<char>>, b: Seq<Seq<char>>)
    requires
        keys_strictly_sorted(a),
        keys_strictly_sorted(b),
        forall|k: Seq<char>| a.contains(k) <==> b.contains(k),
    ensures
        a == b,
    decreases a.len(),
{
    if a.len() == 0 {
        if b.len() > 0 {
            assert(b.contains(b[0]));
        }
        assert(a =~= b);
    } else {
        assert(a.contains(a[0]));
        assert(b.len() > 0);
        assert(b.contains(b[0]));
        if a[0] != b[0] {
            let i = choose|i: int| 0 <= i < a.len() && a[i] == b[0];
            let j = choose|j: int| 0 <= j < b.len() && b[j] == a[0];
            lemma_str_lt_order(a[0], b[0], a[0]);
            assert(i > 0 && j > 0);
            assert(str_lt(a[0], a[i]));
            assert(str_lt(b[0], b[j]));
        }
        assert forall|k: Seq<char>| a.drop_first().contains(k) implies b.drop_first().contains(k) by {
            let i = choose|i: int| 0 <= i < a.drop_first().len() && a.drop_first()[i] == k;
            assert(a.contains(k));
            let j = choose|j: int| 0 <= j < b.len() && b[j] == k;
            if j == 0 {
                assert(str_lt(a[0], a[i + 1]));
                lemma_str_lt_order(k, k, k);
            }
            assert(b.drop_first()[j - 1] == k);
        }
        assert forall|k: Seq<char>| b.drop_first().contains(k) implies a.drop_first().contains(k) by {
            let j = choose|j: int| 0 <= j < b.drop_first().len() && b.drop_first()[j] == k;
            assert(b.contains(k));
            let i = choose|i: int| 0 <= i < a.len() && a[i] == k;
            if i == 0 {
                assert(str_lt(b[0], b[j + 1]));
                lemma_str_lt_order(k, k, k);
            }
            assert(a.drop_first()[i - 1] == k);
        }
        lemma_sorted_keys_unique(a.drop_first(), b.drop_first());
        assert(a =~= seq![a[0]] + a.drop_first());
        assert(b =~= seq![b[0]] + b.drop_first());
    }
}

/// Where `entries` holds `key`, if anywhere.
pub fn find_key<V>(entries: &Vec<(String, V)>, key: &str) -> (r: Option<usize>)
    ensures
        match r {
            Some(i) => i < entries@.len() && entries@[i as int].0@ == key@ && forall|j: int|
                0 <= j < i ==> entries@[j].0@ != key@,
            None => !entry_keys(entries@).contains(key@),
        },
{
    for i in 0..entries.len()
        invariant
            forall|j: int| 0 <= j < i ==> entries@[j].0@ != key@,
    {
        if str_equal(entries[i].0.as_str(), key) {
            return Some(i);
        }
    }
    assert forall|j: int| 0 <= j < entries@.len() implies entry_keys(entries@)[j] != key@ by {}
    None
}

/// Maps `key` to `value`, in place of what it mapped to before, keeping the
/// keys sorted.
pub fn sorted_insert<V>(entries: &mut Vec<(String, V)>, key: String, value: V)
    requires
        keys_strictly_sorted(entry_keys(old(entries)@)),
    ensures
        keys_strictly_sorted(entry_keys(final(entries)@)),
        entries_map(final(entries)@) == entries_map(old(entries)@).insert(key@, value),
{
    let ghost old_e = entries@;
    let ghost k = key@;
    let mut i: usize = 0;
    while i < entries.len()
        invariant
            entries@ == old_e,
            k == key@,
            i <= entries@.len(),
            forall|j: int| 0 <= j < i ==> str_lt(#[trigger] entries@[j].0@, k),
        ensures
            entries@ == old_e,
            i <= entries@.len(),
            forall|j: int| 0 <= j < i ==> str_lt(#[trigger] entries@[j].0@, k),
            i < entries@.len() ==> !str_lt(entries@[i as int].0@, k),
        decreases entries@.len() - i,
    {
        let lt = str_less(entries[i].0.as_str(), key.as_str());
        if !lt {
            break;
        }
        i = i + 1;
    }
    if i < entries.len() && entries[i].0 == key {
        let ghost new_entry = (key, value);
        entries.set(i, (key, value));
        proof {
            let ne = entries@;
            assert(ne == old_e.update(i as int, new_entry));
            assert(entry_keys(ne) =~= entry_keys(old_e));
            lemma_replace_map(old_e, i as int, new_entry);
        }
    } else {
        let ghost new_entry = (key, value);
        entries.insert(i, (key, value));
        proof {
            let ne = entries@;
            assert(ne == old_e.insert(i as int, new_entry));
            if i < old_e.len() {
                lemma_str_lt_order(old_e[i as int].0@, k, k);
                assert(entry_keys(old_e)[i as int] == old_e[i as int].0@);
            }
            lemma_insert_map(old_e, i as int, new_entry);
        }
    }
}

proof fn lemma_replace_map<V>(e: Seq<(String, V)>, i: int, x: (String, V))
    requires
        keys_strictly_sorted(entry_keys(e)),
        0 <= i < e.len(),
        e[i].0@ == x.0@,
    ensures
        keys_strictly_sorted(entry_keys(e.update(i, x))),
        entries_map(e.update(i, x)) == entries_map(e).insert(x.0@, x.1),
{
    let ne = e.update(i, x);
    assert(entry_keys(ne) =~= entry_keys(e));
    assert forall|k: Seq<char>| #[trigger] entries_map(ne).dom().contains(k) <==> entries_map(
        e,
    ).insert(x.0@, x.1).dom().contains(k) by {
        assert(entry_keys(e)[i] == x.0@);
    }
    assert forall|k: Seq<char>| entries_map(ne).dom().contains(k) implies #[trigger] entries_map(
        ne,
    )[k] == entries_map(e).insert(x.0@, x.1)[k] by {
        assert(entry_keys(ne).contains(k));
        let j = choose|j: int| 0 <= j < entry_keys(ne).len() && entry_keys(ne)[j] == k;
        lemma_key_position(ne, j);
        if j != i {
            lemma_key_position(e, j);
            assert(entry_keys(ne)[i] == x.0@);
            lemma_str_lt_order(k, x.0@, k);
            if j < i {
                assert(str_lt(entry_keys(ne)[j], entry_keys(ne)[i]));
            } else {
                assert(str_lt(entry_keys(ne)[i], entry_keys(ne)[j]));
            }
            assert(k != x.0@);
        }
    }
    assert(entries_map(ne) =~= entries_map(e).insert(x.0@, x.1));
}

proof fn lemma_insert_map<V>(e: Seq<(String, V)>, i: int, x: (String, V))
    requires
        keys_strictly_sorted(entry_keys(e)),
        0 <= i <= e.len(),
        forall|j: int| 0 <= j < i ==> str_lt(#[trigger] e[j].0@, x.0@),
        i < e.len() ==> str_lt(x.0@, e[i].0@),
    ensures
        keys_strictly_sorted(entry_keys(e.insert(i, x))),
        entries_map(e.insert(i, x)) == entries_map(e).insert(x.0@, x.1),
{
    let ne = e.insert(i, x);
    let k = x.0@;
    let ok = entry_keys(e);
    let nk = entry_keys(ne);
    assert(nk =~= ok.insert(i, k));
    assert forall|a: int, b: int| 0 <= a < b < nk.len() implies str_lt(nk[a], nk[b]) by {
        if a < i && b < i {
        } else if a < i && b == i {
            assert(str_lt(e[a].0@, k));
        } else if a < i && b > i {
            assert(str_lt(ok[a], ok[b - 1]));
        } else if a == i {
            assert(str_lt(k, ok[i]));
            if b - 1 > i {
                assert(str_lt(ok[i], ok[b - 1]));
                lemma_str_lt_order(k, ok[i], ok[b - 1]);
            }
        } else {
            assert(str_lt(ok[a - 1], ok[b - 1]));
        }
    }
    assert(!ok.contains(k)) by {
        if ok.contains(k) {
            let j = choose|j: int| 0 <= j < ok.len() && ok[j] == k;
            lemma_str_lt_order(k, k, ok[i]);
            if j < i {
                assert(str_lt(e[j].0@, k));
            } else if j > i {
                assert(str_lt(ok[i], ok[j]));
                lemma_str_lt_order(k, ok[i], ok[j]);
            }
        }
    }
    assert forall|kk: Seq<char>| #[trigger] entries_map(ne).dom().contains(kk) <==> entries_map(
        e,
    ).insert(k, x.1).dom().contains(kk) by {
        if nk.contains(kk) {
            let j = choose|j: int| 0 <= j < nk.len() && nk[j] == kk;
            if j < i {
                assert(ok[j] == kk);
            } else if j > i {
                assert(ok[j - 1] == kk);
            }
        }
        if ok.contains(kk) {
            let j = choose|j: int| 0 <= j < ok.len() && ok[j] == kk;
            if j < i {
                assert(nk[j] == kk);
            } else {
                assert(nk[j + 1] == kk);
            }
        }
        if kk == k {
            assert(nk[i] == kk);
        }
    }
    assert forall|kk: Seq<char>| entries_map(ne).dom().contains(kk) implies #[trigger] entries_map(
        ne,
    )[kk] == entries_map(e).insert(k, x.1)[kk] by {
        assert(nk.contains(kk));
        let j = choose|j: int| 0 <= j < nk.len() && nk[j] == kk;
        lemma_key_position(ne, j);
        if j < i {
            lemma_key_position(e, j);
        } else if j > i {
            lemma_key_position(e, j - 1);
        }
    }
    assert(entries_map(ne) =~= entries_map(e).insert(k, x.1));
}

} // verus!
