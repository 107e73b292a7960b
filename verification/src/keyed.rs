//! Text-keyed tables kept in ascending key order: the ordered per-category
//! and per-suite tallies of the validation campaigns.

use vstd::prelude::*;

verus! {

/// Lexicographic order on character sequences, by code point.
pub open spec fn text_lt(a: Seq<char>, b: Seq<char>) -> bool
    decreases a.len(),
{
    if a.len() == 0 {
        b.len() > 0
    } else if b.len() == 0 {
        false
    } else if a[0] != b[0] {
        a[0] < b[0]
    } else {
        text_lt(a.drop_first(), b.drop_first())
    }
}

/// No text is below itself.
pub proof fn lemma_text_lt_irreflexive(a: Seq<char>)
    ensures
        !text_lt(a, a),
    decreases a.len(),
{
    if a.len() > 0 {
        lemma_text_lt_irreflexive(a.drop_first());
    }
}

/// The order is transitive.
pub proof fn lemma_text_lt_transitive(a: Seq<char>, b: Seq<char>, c: Seq<char>)
    requires
        text_lt(a, b),
        text_lt(b, c),
    ensures
        text_lt(a, c),
    decreases a.len(),
{
    if a.len() > 0 && b.len() > 0 && c.len() > 0 && a[0] == b[0] && b[0] == c[0] {
        lemma_text_lt_transitive(a.drop_first(), b.drop_first(), c.drop_first());
    }
}

/// Two distinct texts are ordered one way or the other.
pub proof fn lemma_text_lt_total(a: Seq<char>, b: Seq<char>)
    requires
        a != b,
    ensures
        text_lt(a, b) || text_lt(b, a),
    decreases a.len(),
{
    if a.len() > 0 && b.len() > 0 && a[0] == b[0] {
        if a.drop_first() == b.drop_first() {
            assert(a =~= seq![a[0]] + a.drop_first());
            assert(b =~= seq![b[0]] + b.drop_first());
        }
        lemma_text_lt_total(a.drop_first(), b.drop_first());
    } else if a.len() == 0 && b.len() == 0 {
        assert(a =~= b);
    }
}

/// No text is below another that is below it.
pub proof fn lemma_text_lt_asymmetric(a: Seq<char>, b: Seq<char>)
    requires
        text_lt(a, b),
    ensures
        !text_lt(b, a),
{
    if text_lt(b, a) {
        lemma_text_lt_transitive(a, b, a);
        lemma_text_lt_irreflexive(a);
    }
}

/// Result of comparing two texts.
#[derive(Debug, Clone, Copy, PartialEq, Eq, Structural)]
pub enum TextOrder {
    Less,
    Equal,
    Greater,
}

/// Compares two strings lexicographically by code point.
pub fn compare_text(a: &str, b: &str) -> (r: TextOrder)
    ensures
        r == TextOrder::Less <==> text_lt(a@, b@),
        r == TextOrder::Equal <==> a@ == b@,
        r == TextOrder::Greater <==> text_lt(b@, a@),
{
    let la = a.unicode_len();
    let lb = b.unicode_len();
    let mut i: usize = 0;
    assert(a@.skip(0) =~= a@);
    assert(b@.skip(0) =~= b@);
    while i < la && i < lb
        invariant
            la == a@.len(),
            lb == b@.len(),
            i <= la,
            i <= lb,
            a@.subrange(0, i as int) == b@.subrange(0, i as int),
            text_lt(a@, b@) == text_lt(a@.skip(i as int), b@.skip(i as int)),
            text_lt(b@, a@) == text_lt(b@.skip(i as int), a@.skip(i as int)),
        decreases la - i,
    {
        let ca = a.get_char(i);
        let cb = b.get_char(i);
        if ca != cb {
            proof {
                assert(a@.skip(i as int)[0] == ca);
                assert(b@.skip(i as int)[0] == cb);
                if a@ == b@ {
                    assert(a@[i as int] == b@[i as int]);
                }
            }
            if ca < cb {
                proof { lemma_text_lt_asymmetric(a@, b@); }
                return TextOrder::Less;
            } else {
                proof { lemma_text_lt_asymmetric(b@, a@); }
                return TextOrder::Greater;
            }
        }
        proof {
            assert(a@.skip(i as int).drop_first() =~= a@.skip(i + 1));
            assert(b@.skip(i as int).drop_first() =~= b@.skip(i + 1));
            assert(a@.subrange(0, i + 1) =~= a@.subrange(0, i as int).push(ca));
            assert(b@.subrange(0, i + 1) =~= b@.subrange(0, i as int).push(cb));
        }
        i = i + 1;
    }
    proof {
        lemma_text_lt_irreflexive(a@);
        if la == lb {
            assert(a@ =~= a@.subrange(0, i as int));
            assert(b@ =~= b@.subrange(0, i as int));
        } else if la < lb {
            assert(a@.skip(i as int).len() == 0);
            assert(a@ =~= a@.subrange(0, i as int));
            assert(a@ != b@);
            lemma_text_lt_asymmetric(a@, b@);
        } else {
            assert(b@.skip(i as int).len() == 0);
            assert(b@ =~= b@.subrange(0, i as int));
            assert(a@ != b@);
            lemma_text_lt_asymmetric(b@, a@);
        }
    }
    if la < lb {
        TextOrder::Less
    } else if la == lb {
        TextOrder::Equal
    } else {
        TextOrder::Greater
    }
}

/// Whether two strings are equal.
pub fn same_text(a: &str, b: &str) -> (r: bool)
    ensures
        r == (a@ == b@),
{
    compare_text(a, b) == TextOrder::Equal
}

/// Keys of a table in strictly ascending order (hence distinct).
pub open spec fn keys_sorted<V>(e: Seq<(Seq<char>, V)>) -> bool {
    forall|i: int, j: int| 0 <= i < j < e.len() ==> text_lt(#[trigger] e[i].0, #[trigger] e[j].0)
}

/// The table with its string keys taken by their characters.
pub open spec fn entry_views<V>(e: Seq<(String, V)>) -> Seq<(Seq<char>, V)> {
    e.map_values(|p: (String, V)| (p.0@, p.1))
}

/// `k` is a key of the table.
pub open spec fn has_key<V>(e: Seq<(Seq<char>, V)>, k: Seq<char>) -> bool {
    exists|i: int| 0 <= i < e.len() && #[trigger] e[i].0 == k
}

/// Position of key `k` (meaningful when it is present).
pub open spec fn key_pos<V>(e: Seq<(Seq<char>, V)>, k: Seq<char>) -> int {
    choose|i: int| 0 <= i < e.len() && #[trigger] e[i].0 == k
}

/// The table as a finite map from key to value.
pub open spec fn table_map<V>(e: Seq<(Seq<char>, V)>) -> Map<Seq<char>, V> {
    Map::new(|k: Seq<char>| has_key(e, k), |k: Seq<char>| e[key_pos(e, k)].1)
}

/// In a sorted table each key occurs once.
pub proof fn lemma_sorted_unique<V>(e: Seq<(Seq<char>, V)>, i: int, j: int)
    requires
        keys_sorted(e),
        0 <= i < e.len(),
        0 <= j < e.len(),
        e[i].0 == e[j].0,
    ensures
        i == j,
{
    if i < j {
        lemma_text_lt_irreflexive(e[i].0);
    } else if j < i {
        lemma_text_lt_irreflexive(e[i].0);
    }
}

/// The map entry of the key stored at position `i`.
pub proof fn lemma_table_map_at<V>(e: Seq<(Seq<char>, V)>, i: int)
    requires
        keys_sorted(e),
        0 <= i < e.len(),
    ensures
        table_map(e).contains_key(e[i].0),
        table_map(e)[e[i].0] == e[i].1,
{
    assert(has_key(e, e[i].0));
    let p = key_pos(e, e[i].0);
    lemma_sorted_unique(e, i, p);
}

/// Overwriting the value at a position overwrites that key in the map.
pub proof fn lemma_table_map_update<V>(e: Seq<(Seq<char>, V)>, i: int, v: V)
    requires
        keys_sorted(e),
        0 <= i < e.len(),
    ensures
        keys_sorted(e.update(i, (e[i].0, v))),
        table_map(e.update(i, (e[i].0, v))) == table_map(e).insert(e[i].0, v),
{
    let n = e.update(i, (e[i].0, v));
    assert(keys_sorted(n)) by {
        assert forall|a: int, b: int| 0 <= a < b < n.len() implies text_lt(#[trigger] n[a].0, #[trigger] n[b].0) by {
            assert(n[a].0 == e[a].0);
            assert(n[b].0 == e[b].0);
        }
    }
    assert forall|k: Seq<char>| #[trigger] has_key(n, k) == has_key(e, k) by {
        if has_key(e, k) {
            let p = key_pos(e, k);
            assert(n[p].0 == k);
        }
        if has_key(n, k) {
            let p = key_pos(n, k);
            assert(e[p].0 == k);
        }
    }
    assert forall|k: Seq<char>| has_key(n, k) implies #[trigger] table_map(n)[k] == table_map(e).insert(e[i].0, v)[k] by {
        let p = key_pos(n, k);
        lemma_table_map_at(n, p);
        lemma_table_map_at(e, p);
        if p != i {
            assert(k != e[i].0) by {
                if k == e[i].0 {
                    lemma_sorted_unique(e, p, i);
                }
            }
        }
    }
    assert(table_map(n) =~= table_map(e).insert(e[i].0, v));
}

/// Finds `key`: `Ok(p)` when it is stored at `p`, otherwise `Err(q)` with
/// `q` the position that keeps the table sorted once it is inserted there.
pub fn find_key<V>(entries: &Vec<(String, V)>, key: &str) -> (r: Result<usize, usize>)
    requires
        keys_sorted(entry_views(entries@)),
    ensures
        match r {
            Ok(p) => p < entries@.len() && entries@[p as int].0@ == key@,
            Err(q) => q <= entries@.len() && !has_key(entry_views(entries@), key@)
                && (forall|i: int| 0 <= i < q ==> text_lt(#[trigger] entries@[i].0@, key@))
                && (forall|i: int| q <= i < entries@.len() ==> text_lt(key@, #[trigger] entries@[i].0@)),
        },
{
    let ghost e = entry_views(entries@);
    let mut idx: usize = 0;
    while idx < entries.len()
        invariant
            idx <= entries@.len(),
            e == entry_views(entries@),
            keys_sorted(e),
            forall|i: int| 0 <= i < idx ==> text_lt(#[trigger] entries@[i].0@, key@),
        decreases entries@.len() - idx,
    {
        let c = compare_text(entries[idx].0.as_str(), key);
        assert(e[idx as int].0 == entries@[idx as int].0@);
        match c {
            TextOrder::Equal => {
                return Ok(idx);
            },
            TextOrder::Greater => {
                proof {
                    assert forall|i: int| idx <= i < entries@.len() implies text_lt(key@, #[trigger] entries@[i].0@) by {
                        if i > idx {
                            assert(e[i].0 == entries@[i].0@);
                            assert(text_lt(e[idx as int].0, e[i].0));
                            lemma_text_lt_transitive(key@, entries@[idx as int].0@, entries@[i].0@);
                        }
                    }
                    assert forall|i: int| 0 <= i < e.len() implies #[trigger] e[i].0 != key@ by {
                        assert(e[i].0 == entries@[i].0@);
                        if i < idx {
                            lemma_text_lt_irreflexive(key@);
                        } else {
                            lemma_text_lt_irreflexive(key@);
                        }
                    }
                }
                return Err(idx);
            },
            TextOrder::Less => {},
        }
        idx = idx + 1;
    }
    proof {
        assert forall|i: int| 0 <= i < e.len() implies #[trigger] e[i].0 != key@ by {
            assert(e[i].0 == entries@[i].0@);
            lemma_text_lt_irreflexive(key@);
        }
    }
    Err(idx)
}

/// Inserting a new key at its sorted position keeps the table sorted and
/// adds that key to the map.
pub proof fn lemma_table_map_insert<V>(e: Seq<(Seq<char>, V)>, q: int, k: Seq<char>, v: V)
    requires
        keys_sorted(e),
        0 <= q <= e.len(),
        forall|i: int| 0 <= i < q ==> text_lt(#[trigger] e[i].0, k),
        forall|i: int| q <= i < e.len() ==> text_lt(k, #[trigger] e[i].0),
    ensures
        keys_sorted(e.insert(q, (k, v))),
        table_map(e.insert(q, (k, v))) == table_map(e).insert(k, v),
{
    let n = e.insert(q, (k, v));
    assert(keys_sorted(n)) by {
        assert forall|a: int, b: int| 0 <= a < b < n.len() implies text_lt(#[trigger] n[a].0, #[trigger] n[b].0) by {
            if a < q && b < q {
                assert(n[a] == e[a] && n[b] == e[b]);
            } else if a < q && b == q {
                assert(n[a] == e[a]);
            } else if a < q && b > q {
                assert(n[a] == e[a] && n[b] == e[b - 1]);
                lemma_text_lt_transitive(e[a].0, k, e[b - 1].0);
            } else if a == q {
                assert(n[b] == e[b - 1]);
            } else {
                assert(n[a] == e[a - 1] && n[b] == e[b - 1]);
            }
        }
    }
    assert forall|kk: Seq<char>| #[trigger] has_key(n, kk) == (has_key(e, kk) || kk == k) by {
        if has_key(e, kk) {
            let p = key_pos(e, kk);
            if p < q {
                assert(n[p].0 == kk);
            } else {
                assert(n[p + 1].0 == kk);
            }
        }
        if kk == k {
            assert(n[q].0 == kk);
        }
        if has_key(n, kk) && kk != k {
            let p = key_pos(n, kk);
            if p < q {
                assert(e[p].0 == kk);
            } else if p > q {
                assert(e[p - 1].0 == kk);
            }
        }
    }
    assert forall|kk: Seq<char>| has_key(n, kk) implies #[trigger] table_map(n)[kk] == table_map(e).insert(k, v)[kk] by {
        let p = key_pos(n, kk);
        lemma_table_map_at(n, p);
        if p < q {
            assert(n[p] == e[p]);
            lemma_table_map_at(e, p);
            lemma_text_lt_irreflexive(k);
        } else if p > q {
            assert(n[p] == e[p - 1]);
            lemma_table_map_at(e, p - 1);
            lemma_text_lt_irreflexive(k);
        }
    }
    assert(table_map(n) =~= table_map(e).insert(k, v));
}

/// Returns the position of `key`, first inserting `(key, zero)` at its sorted
/// position when the key is absent.
pub fn upsert_key<V: Copy>(entries: &mut Vec<(String, V)>, key: &str, zero: V) -> (r: usize)
    requires
        keys_sorted(entry_views(old(entries)@)),
    ensures
        keys_sorted(entry_views(final(entries)@)),
        r < final(entries)@.len(),
        r <= old(entries)@.len(),
        final(entries)@[r as int].0@ == key@,
        has_key(entry_views(old(entries)@), key@) ==> entry_views(final(entries)@) == entry_views(
            old(entries)@,
        ),
        !has_key(entry_views(old(entries)@), key@) ==> entry_views(final(entries)@) == entry_views(
            old(entries)@,
        ).insert(r as int, (key@, zero)),
        table_map(entry_views(final(entries)@)) == (if has_key(entry_views(old(entries)@), key@) {
            table_map(entry_views(old(entries)@))
        } else {
            table_map(entry_views(old(entries)@)).insert(key@, zero)
        }),
{
    let ghost e = entry_views(entries@);
    match find_key(entries, key) {
        Ok(p) => {
            assert(has_key(e, key@)) by {
                assert(e[p as int].0 == key@);
            }
            assert(table_map(e) =~= table_map(e)) ;
            p
        },
        Err(q) => {
            let k = key.to_owned();
            entries.insert(q, (k, zero));
            proof {
                assert(entry_views(entries@) =~= e.insert(q as int, (key@, zero)));
                assert forall|i: int| 0 <= i < q implies text_lt(#[trigger] e[i].0, key@) by {
                    assert(e[i].0 == old(entries)@[i].0@);
                }
                assert forall|i: int| q <= i < e.len() implies text_lt(key@, #[trigger] e[i].0) by {
                    assert(e[i].0 == old(entries)@[i].0@);
                }
                lemma_table_map_insert(e, q as int, key@, zero);
            }
            q
        },
    }
}

} // verus!
