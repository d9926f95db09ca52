//! What holds of the store and of the registry operations across calls.
use vstd::prelude::*;

use crate::local::{scanned, under};
use crate::memstore::{delete_all, lookup, scan_page, write_all, MemStore};
use crate::scan::{relative_key, relative_keys};

verus! {

/// Reading a key right after writing text there gives back that text unchanged.
pub proof fn lemma_set_then_get(m: Map<Seq<char>, Seq<char>>, key: Seq<char>, text: Seq<char>)
    ensures
        lookup(m.insert(key, text), key) == Some(text),
{
}

/// Deleting an entry that was just written reports it once; deleting it again right
/// after reports nothing.
pub proof fn lemma_delete_once(m: Map<Seq<char>, Seq<char>>, key: Seq<char>, text: Seq<char>)
    ensures
        delete_all(m.insert(key, text), seq![key]).1 == 1,
        delete_all(delete_all(m.insert(key, text), seq![key]).0, seq![key]).1 == 0,
{
    let m1 = m.insert(key, text);
    assert(seq![key].drop_last() =~= Seq::<Seq<char>>::empty());
    assert(delete_all(m1, Seq::<Seq<char>>::empty()) == (m1, 0nat));
    let m2 = m1.remove(key);
    assert(delete_all(m2, Seq::<Seq<char>>::empty()) == (m2, 0nat));
}

/// Two writes to one key, in either order, leave exactly the later one's text.
pub proof fn lemma_last_write_wins(m: Map<Seq<char>, Seq<char>>, key: Seq<char>, first: Seq<char>, second: Seq<char>)
    ensures
        lookup(m.insert(key, first).insert(key, second), key) == Some(second),
        lookup(m.insert(key, second).insert(key, first), key) == Some(first),
{
}

proof fn lemma_relative_key_exact(prefix: Seq<char>, key: Seq<char>, rel: Seq<char>)
    ensures
        relative_key(prefix, key) == Some(rel) <==> key == prefix + rel,
{
    if key == prefix + rel {
        assert(key.subrange(0, prefix.len() as int) =~= prefix);
        assert(key.subrange(prefix.len() as int, key.len() as int) =~= rel);
    }
    if relative_key(prefix, key) == Some(rel) {
        assert(key =~= prefix + rel);
    }
}

proof fn lemma_scan_page_members(
    m: Map<Seq<char>, Seq<char>>,
    log: Seq<Seq<char>>,
    literal: Seq<char>,
    from: int,
    to: int,
    k: Seq<char>,
)
    requires
        0 <= from,
        to <= log.len(),
    ensures
        scan_page(m, log, literal, from, to).contains(k) <==> (m.contains_key(k) && relative_key(literal, k) is Some
            && exists|j: int| from <= j < to && log[j] == k),
    decreases to - from,
{
    if to > from {
        lemma_scan_page_members(m, log, literal, from, to - 1, k);
        let rest = scan_page(m, log, literal, from, to - 1);
        if m.contains_key(log[to - 1]) && relative_key(literal, log[to - 1]) is Some {
            assert(rest.push(log[to - 1]).contains(k) <==> rest.contains(k) || k == log[to - 1]) by {
                if rest.push(log[to - 1]).contains(k) {
                    let i = choose|i: int| 0 <= i < rest.len() + 1 && #[trigger] rest.push(log[to - 1])[i] == k;
                    if i < rest.len() {
                        assert(rest[i] == k);
                    }
                }
                if rest.contains(k) {
                    let i = choose|i: int| 0 <= i < rest.len() && rest[i] == k;
                    assert(rest.push(log[to - 1])[i] == k);
                }
                if k == log[to - 1] {
                    assert(rest.push(log[to - 1])[rest.len() as int] == k);
                }
            }
        }
        if exists|j: int| from <= j < to && log[j] == k {
            let j = choose|j: int| from <= j < to && log[j] == k;
            if j < to - 1 {
                assert(exists|j2: int| from <= j2 < to - 1 && log[j2] == k);
            }
        }
    }
}

proof fn lemma_relative_keys_members(prefix: Seq<char>, batch: Seq<Seq<char>>, rel: Seq<char>)
    ensures
        relative_keys(prefix, batch).contains(rel) <==> batch.contains(prefix + rel),
    decreases batch.len(),
{
    if batch.len() > 0 {
        let init = batch.drop_last();
        lemma_relative_keys_members(prefix, init, rel);
        lemma_relative_key_exact(prefix, batch.last(), rel);
        let rest = relative_keys(prefix, init);
        assert(batch =~= init.push(batch.last()));
        assert(batch.contains(prefix + rel) <==> init.contains(prefix + rel) || batch.last() == prefix + rel) by {
            if batch.contains(prefix + rel) {
                let i = choose|i: int| 0 <= i < batch.len() && batch[i] == prefix + rel;
                if i < init.len() {
                    assert(init[i] == prefix + rel);
                }
            }
            if init.contains(prefix + rel) {
                let i = choose|i: int| 0 <= i < init.len() && init[i] == prefix + rel;
                assert(batch[i] == prefix + rel);
            }
        }
        match relative_key(prefix, batch.last()) {
            Some(r) => {
                lemma_relative_key_exact(prefix, batch.last(), r);
                assert(rest.push(r).contains(rel) <==> rest.contains(rel) || r == rel) by {
                    if rest.push(r).contains(rel) {
                        let i = choose|i: int| 0 <= i < rest.len() + 1 && #[trigger] rest.push(r)[i] == rel;
                        if i < rest.len() {
                            assert(rest[i] == rel);
                        }
                    }
                    if rest.contains(rel) {
                        let i = choose|i: int| 0 <= i < rest.len() && rest[i] == rel;
                        assert(rest.push(r)[i] == rel);
                    }
                    if r == rel {
                        assert(rest.push(r)[rest.len() as int] == rel);
                    }
                }
                if batch.last() == prefix + rel {
                    assert(r =~= rel);
                }
            },
            None => {},
        }
    }
}

/// A complete scan under `prefix` finds exactly the relative keys whose entries the
/// store holds, however its rounds were paged.
pub proof fn lemma_scan_complete(store: &MemStore, prefix: Seq<char>, rel: Seq<char>)
    requires
        store.wf(),
    ensures
        scanned(store, prefix).contains(rel) <==> store@.contains_key(prefix + rel),
{
    let log = store.log_view();
    let page = scan_page(store@, log, prefix, 0, log.len() as int);
    store.lemma_log_covers();
    lemma_relative_keys_members(prefix, page, rel);
    lemma_scan_page_members(store@, log, prefix, 0, log.len() as int, prefix + rel);
    lemma_relative_key_exact(prefix, prefix + rel, rel);
}

proof fn lemma_delete_all_effect(m: Map<Seq<char>, Seq<char>>, keys: Seq<Seq<char>>, k: Seq<char>)
    ensures
        keys.contains(k) ==> !delete_all(m, keys).0.contains_key(k),
        !keys.contains(k) ==> lookup(delete_all(m, keys).0, k) == lookup(m, k),
    decreases keys.len(),
{
    if keys.len() > 0 {
        let init = keys.drop_last();
        lemma_delete_all_effect(m, init, k);
        assert(keys =~= init.push(keys.last()));
        if keys.contains(k) && k != keys.last() {
            let i = choose|i: int| 0 <= i < keys.len() && keys[i] == k;
            assert(init[i] == k);
        }
        if init.contains(k) {
            let i = choose|i: int| 0 <= i < init.len() && init[i] == k;
            assert(keys[i] == k);
        }
        if !keys.contains(k) {
            assert(k != keys[keys.len() - 1]);
        }
    }
}

/// After a purge under `prefix` no entry under it is left, and every entry outside it
/// is untouched.
pub proof fn lemma_purge_clears(store: &MemStore, prefix: Seq<char>, key: Seq<char>)
    requires
        store.wf(),
    ensures
        ({
            let after = delete_all(store@, under(prefix, scanned(store, prefix))).0;
            &&& relative_key(prefix, key) is Some ==> !after.contains_key(key)
            &&& relative_key(prefix, key) is None ==> lookup(after, key) == lookup(store@, key)
        }),
{
    let rel = scanned(store, prefix);
    let keys = under(prefix, rel);
    lemma_delete_all_effect(store@, keys, key);
    if let Some(r) = relative_key(prefix, key) {
        lemma_relative_key_exact(prefix, key, r);
        lemma_scan_complete(store, prefix, r);
        if store@.contains_key(key) {
            let i = choose|i: int| 0 <= i < rel.len() && rel[i] == r;
            assert(keys[i] == key);
        }
    } else {
        if keys.contains(key) {
            let i = choose|i: int| 0 <= i < keys.len() && keys[i] == key;
            lemma_relative_key_exact(prefix, key, rel[i]);
        }
    }
}

/// A restore only adds or overwrites the keys it writes: every other entry is left as
/// it was, and every written key is present afterwards.
pub proof fn lemma_restore_additive(m: Map<Seq<char>, Seq<char>>, pairs: Seq<(Seq<char>, Seq<char>)>, key: Seq<char>)
    ensures
        (forall|i: int| 0 <= i < pairs.len() ==> #[trigger] pairs[i].0 != key) ==> lookup(write_all(m, pairs), key)
            == lookup(m, key),
        (exists|i: int| 0 <= i < pairs.len() && #[trigger] pairs[i].0 == key) ==> write_all(m, pairs).contains_key(key),
    decreases pairs.len(),
{
    if pairs.len() > 0 {
        let init = pairs.drop_last();
        lemma_restore_additive(m, init, key);
        if forall|i: int| 0 <= i < pairs.len() ==> #[trigger] pairs[i].0 != key {
            assert forall|i: int| 0 <= i < init.len() implies #[trigger] init[i].0 != key by {
                assert(pairs[i] == init[i]);
            }
            assert(pairs[pairs.len() - 1].0 != key);
        }
        if exists|i: int| 0 <= i < pairs.len() && #[trigger] pairs[i].0 == key {
            let i = choose|i: int| 0 <= i < pairs.len() && #[trigger] pairs[i].0 == key;
            if i < init.len() {
                assert(init[i] == pairs[i]);
            }
        }
    }
}

proof fn lemma_scan_page_distinct(
    m: Map<Seq<char>, Seq<char>>,
    log: Seq<Seq<char>>,
    literal: Seq<char>,
    from: int,
    to: int,
)
    requires
        0 <= from,
        to <= log.len(),
        log.no_duplicates(),
    ensures
        scan_page(m, log, literal, from, to).no_duplicates(),
    decreases to - from,
{
    if to > from {
        lemma_scan_page_distinct(m, log, literal, from, to - 1);
        let rest = scan_page(m, log, literal, from, to - 1);
        let k = log[to - 1];
        lemma_scan_page_members(m, log, literal, from, to - 1, k);
        if rest.contains(k) {
            let j = choose|j: int| from <= j < to - 1 && log[j] == k;
            assert(log[j] != log[to - 1]);
        }
        if m.contains_key(k) && relative_key(literal, k) is Some {
            let s = rest.push(k);
            assert forall|i: int, j: int| 0 <= i < s.len() && 0 <= j < s.len() && i != j implies s[i] != s[j] by {
                if i == s.len() - 1 {
                    assert(rest[j] == s[j]);
                    assert(rest.contains(s[j]));
                } else if j == s.len() - 1 {
                    assert(rest[i] == s[i]);
                    assert(rest.contains(s[i]));
                }
            }
        }
    }
}

proof fn lemma_relative_keys_distinct(prefix: Seq<char>, batch: Seq<Seq<char>>)
    requires
        batch.no_duplicates(),
    ensures
        relative_keys(prefix, batch).no_duplicates(),
    decreases batch.len(),
{
    if batch.len() > 0 {
        let init = batch.drop_last();
        assert forall|i: int, j: int| 0 <= i < init.len() && 0 <= j < init.len() && i != j implies init[i] != init[j] by {
            assert(init[i] == batch[i] && init[j] == batch[j]);
        }
        lemma_relative_keys_distinct(prefix, init);
        let rest = relative_keys(prefix, init);
        if let Some(r) = relative_key(prefix, batch.last()) {
            lemma_relative_key_exact(prefix, batch.last(), r);
            lemma_relative_keys_members(prefix, init, r);
            if rest.contains(r) {
                let i = choose|i: int| 0 <= i < init.len() && init[i] == prefix + r;
                assert(batch[i] == batch[batch.len() - 1]);
            }
            let s = rest.push(r);
            assert forall|i: int, j: int| 0 <= i < s.len() && 0 <= j < s.len() && i != j implies s[i] != s[j] by {
                if i == s.len() - 1 {
                    assert(rest[j] == s[j]);
                    assert(rest.contains(s[j]));
                } else if j == s.len() - 1 {
                    assert(rest[i] == s[i]);
                    assert(rest.contains(s[i]));
                }
            }
        }
    }
}

/// A complete scan lists each relative key at most once.
pub proof fn lemma_scan_distinct(store: &MemStore, prefix: Seq<char>)
    requires
        store.wf(),
    ensures
        scanned(store, prefix).no_duplicates(),
{
    let log = store.log_view();
    store.lemma_log_covers();
    lemma_scan_page_distinct(store@, log, prefix, 0, log.len() as int);
    lemma_relative_keys_distinct(prefix, scan_page(store@, log, prefix, 0, log.len() as int));
}

} // verus!
