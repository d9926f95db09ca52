//! The registry operations carried out in full against an in-process store.
use vstd::prelude::*;

use crate::bulk::{
    decode_entries, decode_stored, deleted, entry_keys, opt_views, pairs_view, present_entries,
    present_values,
};
use crate::json::parses_as_json;
use crate::keys::views_of;
use crate::memstore::{delete_all, lookup, pattern_literal, scan_page, write_all, MemStore};
use crate::registry::{RedisRegistry, RegistryError};
use crate::scan::relative_keys;

verus! {

/// The prefix under which the keys below `parts` lie: their store key followed by `/`.
pub open spec fn scan_prefix(reg: &RedisRegistry, parts: Seq<Seq<char>>) -> Seq<char> {
    reg.key_of(parts) + seq!['/']
}

/// The relative keys that a complete scan of `store` under `prefix` gathers.
pub open spec fn scanned(store: &MemStore, prefix: Seq<char>) -> Seq<Seq<char>> {
    relative_keys(prefix, scan_page(store@, store.log_view(), prefix, 0, store.log_view().len() as int))
}

proof fn lemma_scan_page_split(
    m: Map<Seq<char>, Seq<char>>,
    log: Seq<Seq<char>>,
    literal: Seq<char>,
    a: int,
    b: int,
    c: int,
)
    requires
        a <= b <= c,
    ensures
        scan_page(m, log, literal, a, b) + scan_page(m, log, literal, b, c) == scan_page(m, log, literal, a, c),
    decreases c - b,
{
    if c == b {
        assert(scan_page(m, log, literal, a, b) + scan_page(m, log, literal, b, c) =~= scan_page(m, log, literal, a, c));
    } else {
        lemma_scan_page_split(m, log, literal, a, b, c - 1);
        assert(scan_page(m, log, literal, a, b) + scan_page(m, log, literal, b, c) =~= scan_page(m, log, literal, a, c));
    }
}

proof fn lemma_relative_keys_append(prefix: Seq<char>, x: Seq<Seq<char>>, y: Seq<Seq<char>>)
    ensures
        relative_keys(prefix, x + y) == relative_keys(prefix, x) + relative_keys(prefix, y),
    decreases y.len(),
{
    if y.len() == 0 {
        assert(x + y =~= x);
        assert(relative_keys(prefix, x) + relative_keys(prefix, y) =~= relative_keys(prefix, x));
    } else {
        lemma_relative_keys_append(prefix, x, y.drop_last());
        assert((x + y).drop_last() =~= x + y.drop_last());
        assert((x + y).last() == y.last());
        assert(relative_keys(prefix, x + y) =~= relative_keys(prefix, x) + relative_keys(prefix, y));
    }
}

/// Lists the keys under `parts`, relative to it, running scan rounds until the store
/// hands back cursor 0.
pub fn scan_in(reg: &RedisRegistry, store: &MemStore, parts: &Vec<String>) -> (r: Vec<String>)
    requires
        store.wf(),
    ensures
        views_of(r@) == scanned(store, scan_prefix(reg, views_of(parts@))),
        views_of(r@).no_duplicates(),
{
    proof {
        crate::laws::lemma_scan_distinct(store, scan_prefix(reg, views_of(parts@)));
    }
    let ghost prefix = scan_prefix(reg, views_of(parts@));
    let ghost len = store.log_view().len() as int;
    let mut state = reg.scan_start(parts);
    proof {
        assert(pattern_literal(prefix + seq!['*']) =~= prefix);
        assert(state.keys_view() =~= relative_keys(prefix, scan_page(store@, store.log_view(), prefix, 0, 0)));
    }
    while !state.is_finished()
        invariant
            store.wf(),
            len == store.log_view().len(),
            state.prefix_view() == prefix,
            state.pattern_view() == prefix + seq!['*'],
            pattern_literal(prefix + seq!['*']) == prefix,
            state.finished_view() ==> state.keys_view() == relative_keys(
                prefix,
                scan_page(store@, store.log_view(), prefix, 0, len),
            ),
            !state.finished_view() ==> state.cursor_view() <= len && state.keys_view()
                == relative_keys(
                prefix,
                scan_page(store@, store.log_view(), prefix, 0, state.cursor_view() as int),
            ),
        decreases
                (if state.finished_view() {
                    0
                } else {
                    len + 1 - state.cursor_view()
                }),
    {
        let cursor = state.cursor();
        let reply = store.scan(cursor, state.pattern());
        let next = reply.0;
        let batch = reply.1;
        proof {
            let end: int = if next == 0 {
                len
            } else {
                next as int
            };
            lemma_scan_page_split(store@, store.log_view(), prefix, 0, cursor as int, end);
            lemma_relative_keys_append(
                prefix,
                scan_page(store@, store.log_view(), prefix, 0, cursor as int),
                scan_page(store@, store.log_view(), prefix, cursor as int, end),
            );
        }
        state.advance(next, &batch);
    }
    state.into_keys()
}

/// Sets the entry at `parts` to `value`, as JSON text.
pub fn set_in(reg: &RedisRegistry, store: &mut MemStore, parts: &Vec<String>, value: &serde_json::Value) -> (r: Result<(), RegistryError>)
    requires
        old(store).wf(),
    ensures
        final(store).wf(),
        r is Ok,
        exists|text: Seq<char>| final(store)@ == old(store)@.insert(reg.key_of(views_of(parts@)), text),
{
    let (key, text) = reg.set_request(parts, value)?;
    store.set(key, text);
    Ok(())
}

/// The entry at `parts`: none where nothing is stored there, else the stored JSON, or
/// a serialization error where the stored text is not JSON.
pub fn get_in(reg: &RedisRegistry, store: &MemStore, parts: &Vec<String>) -> (r: Result<Option<serde_json::Value>, RegistryError>)
    ensures
        lookup(store@, reg.key_of(views_of(parts@))) is None <==> r matches Ok(None),
        lookup(store@, reg.key_of(views_of(parts@))) matches Some(t) ==> (r is Ok <==> parses_as_json(t)),
        r matches Err(e) ==> e.is_serialization(),
{
    let key = reg.build_key(parts);
    decode_stored(store.get(&key))
}

/// Deletes the entry at `parts`; true exactly where there was one.
pub fn delete_in(reg: &RedisRegistry, store: &mut MemStore, parts: &Vec<String>) -> (r: bool)
    requires
        old(store).wf(),
    ensures
        final(store).wf(),
        r == old(store)@.contains_key(reg.key_of(views_of(parts@))),
        final(store)@ == old(store)@.remove(reg.key_of(views_of(parts@))),
{
    let key = reg.build_key(parts);
    let keys = vec![key];
    let count = store.del(&keys);
    proof {
        let k = reg.key_of(views_of(parts@));
        assert(views_of(keys@) =~= seq![k]);
        assert(seq![k].drop_last() =~= Seq::<Seq<char>>::empty());
        assert(seq![k].last() == k);
        assert(delete_all(old(store)@, Seq::<Seq<char>>::empty()) == (old(store)@, 0nat));
        assert(delete_all(old(store)@, seq![k]) == (if old(store)@.contains_key(k) {
            (old(store)@.remove(k), 1nat)
        } else {
            (old(store)@, 0nat)
        }));
        if !old(store)@.contains_key(k) {
            assert(old(store)@.remove(k) =~= old(store)@);
        }
    }
    deleted(count as i64)
}

/// The store keys of the relative keys `rel` under `prefix`.
pub open spec fn under(prefix: Seq<char>, rel: Seq<Seq<char>>) -> Seq<Seq<char>> {
    rel.map_values(|k: Seq<char>| prefix + k)
}

/// Deletes every entry under `parts` that a scan finds; returns how many the store
/// removed.
pub fn purge_in(reg: &RedisRegistry, store: &mut MemStore, parts: &Vec<String>) -> (r: u64)
    requires
        old(store).wf(),
    ensures
        final(store).wf(),
        (final(store)@, r as nat) == delete_all(
            old(store)@,
            under(scan_prefix(reg, views_of(parts@)), scanned(&*old(store), scan_prefix(reg, views_of(parts@)))),
        ),
{
    let keys = scan_in(reg, store, parts);
    let full = reg.child_keys(parts, &keys);
    proof {
        let prefix = scan_prefix(reg, views_of(parts@));
        assert forall|i: int| 0 <= i < keys@.len() implies #[trigger] views_of(full@)[i] == under(prefix, views_of(keys@))[i] by {
            crate::bulk::lemma_child_key(reg.owner_type_view(), reg.owner_id_view(), views_of(parts@), keys@[i]@);
        }
        assert(views_of(full@) =~= under(prefix, views_of(keys@)));
    }
    if keys.len() == 0 {
        proof {
            assert(views_of(full@) =~= Seq::<Seq<char>>::empty());
        }
        return 0;
    }
    store.del(&full)
}

/// The text of each entry under `parts` that a scan finds and that is still there when
/// the values are fetched, with its relative key.
pub fn dump_texts_in(reg: &RedisRegistry, store: &MemStore, parts: &Vec<String>) -> (r: Vec<(String, String)>)
    requires
        store.wf(),
    ensures
        ({
            let rel = scanned(store, scan_prefix(reg, views_of(parts@)));
            pairs_view(r@) == present_entries(
                rel,
                under(scan_prefix(reg, views_of(parts@)), rel).map_values(|k: Seq<char>| lookup(store@, k)),
                rel.len(),
            )
        }),
{
    let keys = scan_in(reg, store, parts);
    let full = reg.child_keys(parts, &keys);
    let values = store.mget(&full);
    proof {
        let prefix = scan_prefix(reg, views_of(parts@));
        let rel = views_of(keys@);
        assert forall|i: int| 0 <= i < keys@.len() implies #[trigger] opt_views(values@)[i] == under(prefix, rel).map_values(|k: Seq<char>| lookup(store@, k))[i] by {
            crate::bulk::lemma_child_key(reg.owner_type_view(), reg.owner_id_view(), views_of(parts@), keys@[i]@);
        }
        assert(opt_views(values@) =~= under(prefix, rel).map_values(|k: Seq<char>| lookup(store@, k)));
    }
    present_values(&keys, &values)
}

/// The document of the entries under `parts`: each relative key with its stored JSON.
pub fn dump_in(reg: &RedisRegistry, store: &MemStore, parts: &Vec<String>) -> (r: Result<Vec<(String, serde_json::Value)>, RegistryError>)
    requires
        store.wf(),
    ensures
        ({
            let texts = present_entries(
                scanned(store, scan_prefix(reg, views_of(parts@))),
                under(scan_prefix(reg, views_of(parts@)), scanned(store, scan_prefix(reg, views_of(parts@)))).map_values(|k: Seq<char>| lookup(store@, k)),
                scanned(store, scan_prefix(reg, views_of(parts@))).len(),
            );
            &&& r is Ok <==> forall|i: int| 0 <= i < texts.len() ==> parses_as_json(#[trigger] texts[i].1)
            &&& r matches Ok(out) ==> entry_keys(out@) == texts.map_values(|e: (Seq<char>, Seq<char>)| e.0)
        }),
        r matches Err(e) ==> e.is_serialization(),
{
    let texts = dump_texts_in(reg, store, parts);
    let ghost tv = pairs_view(texts@);
    proof {
        assert forall|i: int| 0 <= i < texts@.len() implies #[trigger] entry_keys(texts@)[i] == tv.map_values(|e: (Seq<char>, Seq<char>)| e.0)[i] by {}
        assert(entry_keys(texts@) =~= tv.map_values(|e: (Seq<char>, Seq<char>)| e.0));
        assert forall|i: int| 0 <= i < texts@.len() implies (#[trigger] texts@[i]).1@ == tv[i].1 by {}
    }
    decode_entries(texts)
}

/// Writes each entry of `document` under `parts`, leaving other entries alone; returns
/// how many pairs were written. A document that is not an object writes nothing.
pub fn restore_in(reg: &RedisRegistry, store: &mut MemStore, parts: &Vec<String>, document: Option<Vec<(String, serde_json::Value)>>) -> (r: Result<u64, RegistryError>)
    requires
        old(store).wf(),
    ensures
        final(store).wf(),
        document is None ==> (r matches Ok(n) && n == 0 && final(store)@ == old(store)@),
        document matches Some(es) ==> (r matches Ok(n) && n == es@.len() && exists|
            texts: Seq<Seq<char>>,
        |
            texts.len() == es@.len() && final(store)@ == write_all(
                old(store)@,
                under(scan_prefix(reg, views_of(parts@)), entry_keys(es@)).zip_with(texts),
            )),
{
    let ghost doc = document;
    let pairs = reg.restore_request(parts, document)?;
    store.mset(&pairs);
    proof {
        let prefix = scan_prefix(reg, views_of(parts@));
        if let Some(es) = doc {
            let texts = pairs_view(pairs@).map_values(|p: (Seq<char>, Seq<char>)| p.1);
            assert forall|i: int| 0 <= i < es@.len() implies #[trigger] pairs_view(pairs@)[i] == under(prefix, entry_keys(es@)).zip_with(texts)[i] by {}
            assert(pairs_view(pairs@) =~= under(prefix, entry_keys(es@)).zip_with(texts));
        } else {
            assert(pairs_view(pairs@) =~= Seq::<(Seq<char>, Seq<char>)>::empty());
        }
    }
    Ok(pairs.len() as u64)
}

} // verus!
