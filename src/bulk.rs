//! Point and bulk operations: the keys, pairs and documents that set, get, delete,
//! purge, dump and restore hand to the store or take back from it.
use vstd::prelude::*;

use crate::json::{parses_as_json, string_to_value, value_to_string};
use crate::keys::{store_key, views_of};
use crate::registry::{opt_view, RedisRegistry, RegistryError};

verus! {

/// The characters of each key and text of a list of pairs.
pub open spec fn pairs_view(pairs: Seq<(String, String)>) -> Seq<(Seq<char>, Seq<char>)> {
    pairs.map_values(|p: (String, String)| (p.0@, p.1@))
}

/// The characters of each reply of a multi-get.
pub open spec fn opt_views(values: Seq<Option<String>>) -> Seq<Option<Seq<char>>> {
    values.map_values(|o: Option<String>| opt_view(o))
}

/// The keys of a list of entries.
pub open spec fn entry_keys<V>(entries: Seq<(String, V)>) -> Seq<Seq<char>> {
    entries.map_values(|e: (String, V)| e.0@)
}

/// Each relative key paired with the value the store returned for it, in order, where
/// the store returned one; keys whose value was gone are left out. Only the first `n`
/// positions count.
pub open spec fn present_entries(
    keys: Seq<Seq<char>>,
    values: Seq<Option<Seq<char>>>,
    n: nat,
) -> Seq<(Seq<char>, Seq<char>)>
    decreases n,
{
    if n == 0 {
        Seq::empty()
    } else {
        let rest = present_entries(keys, values, (n - 1) as nat);
        match values[n - 1] {
            Some(v) => rest.push((keys[n - 1], v)),
            None => rest,
        }
    }
}

/// The pairs written by a restore under `base`: each relative key becomes the store key
/// `base/<relative key>`, with its text.
pub open spec fn restore_plan(base: Seq<char>, entries: Seq<(Seq<char>, Seq<char>)>) -> Seq<
    (Seq<char>, Seq<char>),
> {
    entries.map_values(|e: (Seq<char>, Seq<char>)| (base + seq!['/'] + e.0, e.1))
}

/// The store key of a child of `parts` is the store key of `parts`, `/`, and the child.
pub proof fn lemma_child_key(owner_type: Seq<char>, owner_id: Seq<char>, parts: Seq<Seq<char>>, child: Seq<char>)
    ensures
        store_key(owner_type, owner_id, parts.push(child)) == store_key(owner_type, owner_id, parts)
            + seq!['/'] + child,
{
    assert(parts.push(child).drop_last() =~= parts);
    assert(store_key(owner_type, owner_id, parts.push(child)) =~= store_key(owner_type, owner_id, parts)
        + seq!['/'] + child);
}

/// Whether a delete's count says that something was removed.
pub fn deleted(count: i64) -> (r: bool)
    ensures
        r == (count > 0),
{
    count > 0
}

/// Reads the text that a get returned: nothing stays nothing, and stored text that is
/// not JSON is a serialization error, never taken for a missing entry.
pub fn decode_stored(reply: Option<String>) -> (r: Result<Option<serde_json::Value>, RegistryError>)
    ensures
        reply is None ==> r matches Ok(None),
        reply matches Some(t) ==> (r is Ok <==> parses_as_json(t@)),
        reply is Some ==> !(r matches Ok(None)),
        r matches Err(e) ==> e.is_serialization(),
{
    match reply {
        None => Ok(None),
        Some(text) => match string_to_value(&text) {
            Ok(v) => Ok(Some(v)),
            Err(e) => Err(RegistryError::Serialization(e)),
        },
    }
}

/// Pairs each relative key with the value that a multi-get returned for it, leaving out
/// the keys whose value was gone by then.
pub fn present_values(keys: &Vec<String>, values: &Vec<Option<String>>) -> (r: Vec<(String, String)>)
    ensures
        pairs_view(r@) == present_entries(
            views_of(keys@),
            opt_views(values@),
            if keys@.len() <= values@.len() {
                keys@.len()
            } else {
                values@.len()
            },
        ),
{
    let n = if keys.len() <= values.len() {
        keys.len()
    } else {
        values.len()
    };
    let mut out: Vec<(String, String)> = Vec::new();
    let mut i: usize = 0;
    while i < n
        invariant
            n <= keys@.len(),
            n <= values@.len(),
            0 <= i <= n,
            pairs_view(out@) == present_entries(views_of(keys@), opt_views(values@), i as nat),
        decreases n - i,
    {
        let ghost before = pairs_view(out@);
        match &values[i] {
            Some(v) => {
                out.push((keys[i].clone(), v.clone()));
                proof {
                    assert(opt_views(values@)[i as int] == Some(v@));
                    assert(pairs_view(out@) =~= before.push((keys@[i as int]@, v@)));
                }
            },
            None => {
                proof {
                    assert(pairs_view(out@) =~= before);
                }
            },
        }
        i = i + 1;
    }
    out
}

/// Reads each text of a dump as JSON, keeping the keys; one text that is not JSON
/// fails the whole dump.
pub fn decode_entries(entries: Vec<(String, String)>) -> (r: Result<Vec<(String, serde_json::Value)>, RegistryError>)
    ensures
        r is Ok <==> forall|i: int| 0 <= i < entries@.len() ==> parses_as_json(#[trigger] entries@[i].1@),
        r matches Ok(out) ==> entry_keys(out@) == entry_keys(entries@),
        r matches Err(e) ==> e.is_serialization(),
{
    let mut out: Vec<(String, serde_json::Value)> = Vec::new();
    let mut i: usize = 0;
    while i < entries.len()
        invariant
            0 <= i <= entries@.len(),
            forall|j: int| 0 <= j < i ==> parses_as_json(#[trigger] entries@[j].1@),
            entry_keys(out@) == entry_keys(entries@).subrange(0, i as int),
        decreases entries@.len() - i,
    {
        let ghost before = entry_keys(out@);
        match string_to_value(&entries[i].1) {
            Ok(v) => {
                let ghost out_before = out@;
                let key = entries[i].0.clone();
                out.push((key, v));
                proof {
                    assert(out@ == out_before.push((key, v)));
                    assert(entry_keys(out@) =~= entry_keys(out_before).push(entries@[i as int].0@));
                    assert(entry_keys(entries@).subrange(0, i + 1) =~= entry_keys(entries@).subrange(
                        0,
                        i as int,
                    ).push(entries@[i as int].0@));
                }
            },
            Err(e) => {
                return Err(RegistryError::Serialization(e));
            },
        }
        i = i + 1;
    }
    proof {
        assert(entry_keys(entries@).subrange(0, entries@.len() as int) =~= entry_keys(entries@));
    }
    Ok(out)
}

/// Writes each value of a document as JSON text, keeping the keys.
pub fn encode_entries(entries: &Vec<(String, serde_json::Value)>) -> (r: Result<Vec<(String, String)>, RegistryError>)
    ensures
        r is Ok,
        r matches Ok(out) ==> entry_keys(out@) == entry_keys(entries@),
{
    let mut out: Vec<(String, String)> = Vec::new();
    let mut i: usize = 0;
    while i < entries.len()
        invariant
            0 <= i <= entries@.len(),
            entry_keys(out@) == entry_keys(entries@).subrange(0, i as int),
        decreases entries@.len() - i,
    {
        match value_to_string(&entries[i].1) {
            Ok(text) => {
                let ghost out_before = out@;
                let key = entries[i].0.clone();
                out.push((key, text));
                proof {
                    assert(out@ == out_before.push((key, text)));
                    assert(entry_keys(out@) =~= entry_keys(out_before).push(entries@[i as int].0@));
                    assert(entry_keys(entries@).subrange(0, i + 1) =~= entry_keys(entries@).subrange(
                        0,
                        i as int,
                    ).push(entries@[i as int].0@));
                }
            },
            Err(e) => {
                return Err(RegistryError::Serialization(e));
            },
        }
        i = i + 1;
    }
    proof {
        assert(entry_keys(entries@).subrange(0, entries@.len() as int) =~= entry_keys(entries@));
    }
    Ok(out)
}

impl RedisRegistry {
    /// The store keys of the children `keys` of `parts`.
    pub fn child_keys(&self, parts: &Vec<String>, keys: &Vec<String>) -> (r: Vec<String>)
        ensures
            r@.len() == keys@.len(),
            forall|i: int|
                0 <= i < keys@.len() ==> #[trigger] r@[i]@ == self.key_of(
                    views_of(parts@).push(keys@[i]@),
                ),
    {
        proof {
            reveal_strlit("/");
            assert("/"@ =~= seq!['/']);
        }
        let base = self.build_key(parts);
        let mut out: Vec<String> = Vec::new();
        let mut i: usize = 0;
        while i < keys.len()
            invariant
                0 <= i <= keys@.len(),
                base@ == self.key_of(views_of(parts@)),
                out@.len() == i,
                forall|j: int|
                    0 <= j < i ==> #[trigger] out@[j]@ == self.key_of(
                        views_of(parts@).push(keys@[j]@),
                    ),
            decreases keys@.len() - i,
        {
            proof {
                reveal_strlit("/");
                assert("/"@ =~= seq!['/']);
                lemma_child_key(
                    self.owner_type_view(),
                    self.owner_id_view(),
                    views_of(parts@),
                    keys@[i as int]@,
                );
            }
            let full = base.clone().concat("/").concat(keys[i].as_str());
            out.push(full);
            i = i + 1;
        }
        out
    }

    /// The key and JSON text that a set writes.
    pub fn set_request(&self, parts: &Vec<String>, value: &serde_json::Value) -> (r: Result<(String, String), RegistryError>)
        ensures
            r is Ok,
            r matches Ok(p) ==> p.0@ == self.key_of(views_of(parts@)),
    {
        let key = self.build_key(parts);
        match value_to_string(value) {
            Ok(text) => Ok((key, text)),
            Err(e) => Err(RegistryError::Serialization(e)),
        }
    }

    /// The pairs that a restore under `parts` writes for a document given as texts:
    /// none where the document is not an object, else one for each entry, at the store
    /// key of the entry's relative key under `parts`.
    pub fn restore_pairs(&self, parts: &Vec<String>, document: Option<Vec<(String, String)>>) -> (r: Vec<(String, String)>)
        ensures
            document is None ==> r@.len() == 0,
            document matches Some(es) ==> pairs_view(r@) == restore_plan(
                self.key_of(views_of(parts@)),
                pairs_view(es@),
            ),
    {
        let entries = match document {
            None => return Vec::new(),
            Some(es) => es,
        };
        let base = self.build_key(parts);
        let mut out: Vec<(String, String)> = Vec::new();
        let mut i: usize = 0;
        while i < entries.len()
            invariant
                0 <= i <= entries@.len(),
                base@ == self.key_of(views_of(parts@)),
                pairs_view(out@) == restore_plan(base@, pairs_view(entries@)).subrange(0, i as int),
            decreases entries@.len() - i,
        {
            proof {
                reveal_strlit("/");
                assert("/"@ =~= seq!['/']);
            }
            let full = base.clone().concat("/").concat(entries[i].0.as_str());
            let text = entries[i].1.clone();
            let ghost out_before = out@;
            out.push((full, text));
            proof {
                let plan = restore_plan(base@, pairs_view(entries@));
                assert(plan[i as int] == (base@ + seq!['/'] + entries@[i as int].0@, entries@[i as int].1@));
                assert(pairs_view(out@) =~= pairs_view(out_before).push(plan[i as int]));
                assert(plan.subrange(0, i + 1) =~= plan.subrange(0, i as int).push(plan[i as int]));
                assert(pairs_view(out@) =~= restore_plan(base@, pairs_view(entries@)).subrange(
                    0,
                    i + 1,
                ));
            }
            i = i + 1;
        }
        proof {
            assert(restore_plan(base@, pairs_view(entries@)).subrange(0, entries@.len() as int)
                =~= restore_plan(base@, pairs_view(entries@)));
        }
        out
    }

    /// The pairs that a restore under `parts` writes for a document: none where it is
    /// not an object, else each entry's value as JSON text at the store key of its
    /// relative key under `parts`.
    pub fn restore_request(&self, parts: &Vec<String>, document: Option<Vec<(String, serde_json::Value)>>) -> (r: Result<Vec<(String, String)>, RegistryError>)
        ensures
            r is Ok,
            document is None ==> (r matches Ok(p) && p@.len() == 0),
            document matches Some(es) ==> (r matches Ok(p) ==> p@.len() == es@.len() && forall|
                i: int,
            |
                0 <= i < es@.len() ==> #[trigger] p@[i].0@ == self.key_of(views_of(parts@)) + seq!['/']
                    + es@[i].0@),
    {
        match document {
            None => Ok(Vec::new()),
            Some(es) => {
                let texts = encode_entries(&es)?;
                let pairs = self.restore_pairs(parts, Some(texts));
                proof {
                    let plan = restore_plan(self.key_of(views_of(parts@)), pairs_view(texts@));
                    assert(pairs_view(pairs@).len() == plan.len());
                    assert(texts@.len() == entry_keys(texts@).len());
                    assert(es@.len() == entry_keys(es@).len());
                    assert forall|i: int| 0 <= i < es@.len() implies #[trigger] pairs@[i].0@
                        == self.key_of(views_of(parts@)) + seq!['/'] + es@[i].0@ by {
                        assert(entry_keys(texts@)[i] == entry_keys(es@)[i]);
                        assert(pairs_view(pairs@)[i] == plan[i]);
                    }
                }
                Ok(pairs)
            },
        }
    }
}

} // verus!
