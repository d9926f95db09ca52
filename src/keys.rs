//! Store-key namespacing: an owner scope and a key path become one flat key.
use vstd::prelude::*;

verus! {

/// The characters of each string of a sequence (the segments of a key path, a list of keys).
pub open spec fn views_of(parts: Seq<String>) -> Seq<Seq<char>> {
    parts.map_values(|s: String| s@)
}

/// `/<owner_type>/<owner_id>`: the part of every store key that names the scope.
pub open spec fn owner_prefix(owner_type: Seq<char>, owner_id: Seq<char>) -> Seq<char> {
    seq!['/'] + owner_type + seq!['/'] + owner_id
}

/// Each segment of the path preceded by `/`; this equals `"/" + join(parts, "/")`
/// for a non-empty path and is empty for the root.
pub open spec fn slash_joined(parts: Seq<Seq<char>>) -> Seq<char>
    decreases parts.len(),
{
    if parts.len() == 0 {
        Seq::empty()
    } else {
        slash_joined(parts.drop_last()) + seq!['/'] + parts.last()
    }
}

/// The flat key under which the store holds the entry at `parts` of a scope.
pub open spec fn store_key(owner_type: Seq<char>, owner_id: Seq<char>, parts: Seq<Seq<char>>) -> Seq<char> {
    owner_prefix(owner_type, owner_id) + slash_joined(parts)
}

/// The string holds no path separator.
pub open spec fn no_separator(s: Seq<char>) -> bool {
    forall|i: int| 0 <= i < s.len() ==> s[i] != '/'
}

proof fn lemma_key_layout(t: Seq<char>, i: Seq<char>, tail: Seq<char>)
    ensures
        ({
            let key = owner_prefix(t, i) + tail;
            &&& key.len() == 2 + t.len() + i.len() + tail.len()
            &&& key[0] == '/'
            &&& key[1 + t.len() as int] == '/'
            &&& forall|j: int| 0 <= j < t.len() ==> key[1 + j] == t[j]
            &&& forall|j: int| 0 <= j < i.len() ==> key[2 + t.len() + j] == i[j]
            &&& forall|j: int| 0 <= j < tail.len() ==> key[2 + t.len() + i.len() + j] == tail[j]
        }),
{
    let key = owner_prefix(t, i) + tail;
    assert(key =~= seq!['/'] + (t + (seq!['/'] + (i + tail))));
}

proof fn lemma_slash_joined_starts_with_separator(parts: Seq<Seq<char>>)
    requires
        parts.len() > 0,
    ensures
        slash_joined(parts).len() > 0,
        slash_joined(parts)[0] == '/',
    decreases parts.len(),
{
    let rest = slash_joined(parts.drop_last());
    if parts.len() > 1 {
        lemma_slash_joined_starts_with_separator(parts.drop_last());
    } else {
        assert(rest =~= Seq::<char>::empty());
    }
    assert(slash_joined(parts) == rest + seq!['/'] + parts.last());
}

/// Two scopes whose owner fields hold no separator never share a store key:
/// for distinct scopes and any key path, the two store keys differ.
pub proof fn lemma_scopes_isolated(
    type_a: Seq<char>,
    id_a: Seq<char>,
    type_b: Seq<char>,
    id_b: Seq<char>,
    parts: Seq<Seq<char>>,
)
    requires
        no_separator(type_a),
        no_separator(id_a),
        no_separator(type_b),
        no_separator(id_b),
        (type_a, id_a) != (type_b, id_b),
    ensures
        store_key(type_a, id_a, parts) != store_key(type_b, id_b, parts),
{
    let ka = store_key(type_a, id_a, parts);
    let kb = store_key(type_b, id_b, parts);
    let tail = slash_joined(parts);
    lemma_key_layout(type_a, id_a, tail);
    lemma_key_layout(type_b, id_b, tail);
    if parts.len() > 0 {
        lemma_slash_joined_starts_with_separator(parts);
    }
    if ka == kb {
        if type_a != type_b {
            if type_a.len() == type_b.len() {
                assert(!(type_a =~= type_b));
                let j = choose|j: int| 0 <= j < type_a.len() && type_a[j] != type_b[j];
                assert(ka[1 + j] == type_a[j]);
                assert(kb[1 + j] == type_b[j]);
            } else if type_a.len() < type_b.len() {
                assert(ka[1 + type_a.len() as int] == '/');
                assert(kb[1 + type_a.len() as int] == type_b[type_a.len() as int]);
            } else {
                assert(kb[1 + type_b.len() as int] == '/');
                assert(ka[1 + type_b.len() as int] == type_a[type_b.len() as int]);
            }
        } else {
            let base: int = 2 + type_a.len() as int;
            assert(id_a != id_b);
            if id_a.len() == id_b.len() {
                assert(!(id_a =~= id_b));
                let j = choose|j: int| 0 <= j < id_a.len() && id_a[j] != id_b[j];
                assert(ka[base + j] == id_a[j]);
                assert(kb[base + j] == id_b[j]);
            } else if id_a.len() < id_b.len() {
                if parts.len() == 0 {
                    assert(ka.len() < kb.len());
                } else {
                    assert(ka[base + id_a.len() as int] == tail[0]);
                    assert(kb[base + id_a.len() as int] == id_b[id_a.len() as int]);
                }
            } else {
                if parts.len() == 0 {
                    assert(kb.len() < ka.len());
                } else {
                    assert(kb[base + id_b.len() as int] == tail[0]);
                    assert(ka[base + id_b.len() as int] == id_a[id_b.len() as int]);
                }
            }
        }
    }
}

/// Builds `/<owner_type>/<owner_id>`.
pub fn build_owner_prefix(owner_type: &String, owner_id: &String) -> (r: String)
    ensures
        r@ == owner_prefix(owner_type@, owner_id@),
{
    proof {
        reveal_strlit("/");
    }
    let mut key = String::new();
    key.append("/");
    key.append(owner_type.as_str());
    key.append("/");
    key.append(owner_id.as_str());
    key
}

/// Builds the store key of `parts` within the scope `(owner_type, owner_id)`.
pub fn build_store_key(owner_type: &String, owner_id: &String, parts: &Vec<String>) -> (r: String)
    ensures
        r@ == store_key(owner_type@, owner_id@, views_of(parts@)),
{
    proof {
        reveal_strlit("/");
    }
    let mut key = build_owner_prefix(owner_type, owner_id);
    let mut i: usize = 0;
    while i < parts.len()
        invariant
            0 <= i <= parts.len(),
            key@ == owner_prefix(owner_type@, owner_id@) + slash_joined(
                views_of(parts@).subrange(0, i as int),
            ),
        decreases parts.len() - i,
    {
        let ghost before = views_of(parts@).subrange(0, i as int);
        let ghost key_before = key@;
        proof {
            reveal_strlit("/");
            assert("/"@ =~= seq!['/']);
        }
        key.append("/");
        key.append(parts[i].as_str());
        proof {
            let after = views_of(parts@).subrange(0, i + 1);
            assert(after.drop_last() =~= before);
            assert(after.last() == parts@[i as int]@);
            assert(key@ == key_before + seq!['/'] + parts@[i as int]@);
            assert(slash_joined(after) == slash_joined(before) + seq!['/'] + after.last());
            assert(key@ =~= owner_prefix(owner_type@, owner_id@) + slash_joined(after));
        }
        i = i + 1;
    }
    proof {
        assert(views_of(parts@).subrange(0, parts@.len() as int) =~= views_of(parts@));
    }
    key
}

} // verus!
