//! An in-process store with the commands the registry uses: single-key get, set and
//! delete, multi-key delete, get and set, and a cursor-driven scan.
use vstd::prelude::*;
use vstd::hash_map::StringHashMap;

use crate::bulk::pairs_view;
use crate::keys::views_of;
use crate::registry::opt_view;
use crate::scan::{relative_key, strip_key_prefix};

verus! {

/// The value at `key`, if any.
pub open spec fn lookup(m: Map<Seq<char>, Seq<char>>, key: Seq<char>) -> Option<Seq<char>> {
    if m.contains_key(key) {
        Some(m[key])
    } else {
        None
    }
}

/// The contents after deleting `keys` one after the other, with the number of keys that
/// were present when their turn came.
pub open spec fn delete_all(m: Map<Seq<char>, Seq<char>>, keys: Seq<Seq<char>>) -> (Map<Seq<char>, Seq<char>>, nat)
    decreases keys.len(),
{
    if keys.len() == 0 {
        (m, 0)
    } else {
        let (m1, c1) = delete_all(m, keys.drop_last());
        if m1.contains_key(keys.last()) {
            (m1.remove(keys.last()), c1 + 1)
        } else {
            (m1, c1)
        }
    }
}

/// The contents after writing `pairs` one after the other.
pub open spec fn write_all(m: Map<Seq<char>, Seq<char>>, pairs: Seq<(Seq<char>, Seq<char>)>) -> Map<Seq<char>, Seq<char>>
    decreases pairs.len(),
{
    if pairs.len() == 0 {
        m
    } else {
        write_all(m, pairs.drop_last()).insert(pairs.last().0, pairs.last().1)
    }
}

/// The part of a scan pattern `literal*` before its trailing `*`.
pub open spec fn pattern_literal(pattern: Seq<char>) -> Seq<char> {
    pattern.drop_last()
}

/// The keys at positions `from..to` of `log` that are present in `m` and start with
/// `literal`, in log order.
pub open spec fn scan_page(
    m: Map<Seq<char>, Seq<char>>,
    log: Seq<Seq<char>>,
    literal: Seq<char>,
    from: int,
    to: int,
) -> Seq<Seq<char>>
    decreases to - from,
{
    if to <= from {
        Seq::empty()
    } else {
        let rest = scan_page(m, log, literal, from, to - 1);
        let k = log[to - 1];
        if m.contains_key(k) && relative_key(literal, k) is Some {
            rest.push(k)
        } else {
            rest
        }
    }
}

/// A store kept in this process. Keys are handed out by scan in the order they were
/// first written, a page of the write log per round; the log holds each key once.
pub struct MemStore {
    values: StringHashMap<String>,
    logged: StringHashMap<bool>,
    log: Vec<String>,
    page: usize,
}

impl View for MemStore {
    type V = Map<Seq<char>, Seq<char>>;

    closed spec fn view(&self) -> Map<Seq<char>, Seq<char>> {
        self.values@.map_values(|v: String| v@)
    }
}

impl MemStore {
    /// Every stored key stands in the write log, which holds each key once and only keys
    /// recorded as written, and a scan round covers at least one
    /// position of it.
    pub closed spec fn wf(&self) -> bool {
        &&& self.page > 0
        &&& forall|k: Seq<char>| self.values@.contains_key(k) ==> #[trigger] self.logged@.contains_key(k)
        &&& forall|k: Seq<char>|
            self.logged@.contains_key(k) ==> exists|i: int|
                0 <= i < self.log@.len() && #[trigger] self.log@[i]@ == k
        &&& forall|i: int| 0 <= i < self.log@.len() ==> self.logged@.contains_key(#[trigger] self.log@[i]@)
        &&& self.log_view().no_duplicates()
    }

    /// The keys in the order scan visits them; each present key is among them.
    pub closed spec fn log_view(&self) -> Seq<Seq<char>> {
        views_of(self.log@)
    }

    /// An empty store whose scan rounds cover `page` positions of the log each.
    pub fn new(page: usize) -> (r: MemStore)
        requires
            page > 0,
        ensures
            r.wf(),
            r@ == Map::<Seq<char>, Seq<char>>::empty(),
    {
        let r = MemStore { values: StringHashMap::new(), logged: StringHashMap::new(), log: Vec::new(), page };
        proof {
            assert(r@ =~= Map::<Seq<char>, Seq<char>>::empty());
        }
        r
    }

    /// The value at `key`.
    pub fn get(&self, key: &String) -> (r: Option<String>)
        ensures
            opt_view(r) == lookup(self@, key@),
    {
        match self.values.get(key.as_str()) {
            Some(v) => Some(v.clone()),
            None => None,
        }
    }

    /// Writes `value` at `key`, replacing what was there.
    pub fn set(&mut self, key: String, value: String)
        requires
            old(self).wf(),
        ensures
            final(self).wf(),
            final(self)@ == old(self)@.insert(key@, value@),
            old(self).log_view().contains(key@) ==> final(self).log_view() == old(self).log_view(),
            !old(self).log_view().contains(key@) ==> final(self).log_view() == old(self).log_view().push(key@),
    {
        let ghost k = key@;
        let ghost v = value@;
        if !self.logged.contains_key(key.as_str()) {
            let ghost log_before = self.log@;
            proof {
                if old(self).log_view().contains(k) {
                    let i = choose|i: int| 0 <= i < old(self).log_view().len() && old(self).log_view()[i] == k;
                    assert(old(self).log@[i]@ == k);
                }
            }
            self.log.push(key.clone());
            self.logged.insert(key.clone(), true);
            proof {
                assert(self.log@[self.log@.len() - 1]@ == k);
                assert(self.log_view() =~= old(self).log_view().push(k));
                assert forall|i: int, j: int|
                    0 <= i < self.log_view().len() && 0 <= j < self.log_view().len() && i != j
                        implies self.log_view()[i] != self.log_view()[j] by {
                    if i == self.log_view().len() - 1 {
                        assert(old(self).log_view()[j] == self.log_view()[j]);
                    } else if j == self.log_view().len() - 1 {
                        assert(old(self).log_view()[i] == self.log_view()[i]);
                    }
                }
                assert forall|i: int| 0 <= i < self.log@.len() implies self.logged@.contains_key(#[trigger] self.log@[i]@) by {
                    if i < log_before.len() {
                        assert(self.log@[i] == log_before[i]);
                    }
                }
                assert forall|q: Seq<char>| self.logged@.contains_key(q) implies exists|i: int|
                    0 <= i < self.log@.len() && #[trigger] self.log@[i]@ == q by {
                    if q != k {
                        let i = choose|i: int| 0 <= i < log_before.len() && #[trigger] log_before[i]@ == q;
                        assert(self.log@[i] == log_before[i]);
                    }
                }
            }
        }
        self.values.insert(key, value);
        proof {
            assert(self.logged@.contains_key(k));
            if old(self).logged@.contains_key(k) {
                let i = choose|i: int| 0 <= i < old(self).log@.len() && #[trigger] old(self).log@[i]@ == k;
                assert(old(self).log_view()[i] == k);
                assert(old(self).log_view().contains(k));
            }
            assert forall|q: Seq<char>| self.values@.contains_key(q) implies #[trigger] self.logged@.contains_key(q) by {
                if q != k {
                    assert(old(self).values@.contains_key(q));
                    assert(old(self).logged@.contains_key(q));
                }
            }
            assert forall|q: Seq<char>| self.logged@.contains_key(q) implies exists|i: int|
                0 <= i < self.log@.len() && #[trigger] self.log@[i]@ == q by {
                if q == k {
                    let i = choose|i: int| 0 <= i < self.log@.len() && #[trigger] self.log@[i]@ == k;
                } else {
                    assert(old(self).logged@.contains_key(q));
                    let i = choose|i: int| 0 <= i < old(self).log@.len() && #[trigger] old(self).log@[i]@ == q;
                    assert(self.log@[i] == old(self).log@[i]);
                }
            }
            assert(self@ =~= old(self)@.insert(k, v));
        }
    }

    /// Deletes each of `keys`; returns how many were present.
    pub fn del(&mut self, keys: &Vec<String>) -> (r: u64)
        requires
            old(self).wf(),
        ensures
            final(self).wf(),
            (final(self)@, r as nat) == delete_all(old(self)@, views_of(keys@)),
    {
        let mut count: u64 = 0;
        let mut i: usize = 0;
        while i < keys.len()
            invariant
                self.wf(),
                0 <= i <= keys@.len(),
                count <= i,
                (self@, count as nat) == delete_all(old(self)@, views_of(keys@).subrange(0, i as int)),
            decreases keys@.len() - i,
        {
            let ghost before = self@;
            let ghost done = views_of(keys@).subrange(0, i + 1);
            proof {
                assert(done.drop_last() =~= views_of(keys@).subrange(0, i as int));
                assert(done.last() == keys@[i as int]@);
            }
            proof {
                assert(forall|q: Seq<char>| self.values@.contains_key(q) ==> #[trigger] self.logged@.contains_key(q));
            }
            let ghost log_now = self.log@;
            let ghost logged_now = self.logged@;
            if self.values.contains_key(keys[i].as_str()) {
                let ghost vals_before = self.values@;
                self.values.remove(keys[i].as_str());
                count = count + 1;
                proof {
                    assert forall|q: Seq<char>| self.values@.contains_key(q) implies #[trigger] self.logged@.contains_key(q) by {
                        assert(vals_before.contains_key(q));
                    }
                    assert(self@ =~= before.remove(keys@[i as int]@));
                }
            }
            proof {
                assert(self.log@ == log_now && self.logged@ == logged_now);
            }
            i = i + 1;
        }
        proof {
            assert(views_of(keys@).subrange(0, keys@.len() as int) =~= views_of(keys@));
        }
        count
    }

    /// The value at each of `keys`, in order.
    pub fn mget(&self, keys: &Vec<String>) -> (r: Vec<Option<String>>)
        ensures
            r@.len() == keys@.len(),
            forall|i: int| 0 <= i < keys@.len() ==> opt_view(#[trigger] r@[i]) == lookup(self@, keys@[i]@),
    {
        let mut out: Vec<Option<String>> = Vec::new();
        let mut i: usize = 0;
        while i < keys.len()
            invariant
                0 <= i <= keys@.len(),
                out@.len() == i,
                forall|j: int| 0 <= j < i ==> opt_view(#[trigger] out@[j]) == lookup(self@, keys@[j]@),
            decreases keys@.len() - i,
        {
            let v = self.get(&keys[i]);
            out.push(v);
            i = i + 1;
        }
        out
    }

    /// Writes each pair, in order.
    pub fn mset(&mut self, pairs: &Vec<(String, String)>)
        requires
            old(self).wf(),
        ensures
            final(self).wf(),
            final(self)@ == write_all(old(self)@, pairs_view(pairs@)),
    {
        let mut i: usize = 0;
        while i < pairs.len()
            invariant
                self.wf(),
                0 <= i <= pairs@.len(),
                self@ == write_all(old(self)@, pairs_view(pairs@).subrange(0, i as int)),
            decreases pairs@.len() - i,
        {
            let ghost done = pairs_view(pairs@).subrange(0, i + 1);
            proof {
                assert(done.drop_last() =~= pairs_view(pairs@).subrange(0, i as int));
            }
            self.set(pairs[i].0.clone(), pairs[i].1.clone());
            i = i + 1;
        }
        proof {
            assert(pairs_view(pairs@).subrange(0, pairs@.len() as int) =~= pairs_view(pairs@));
        }
    }

    /// Every present key stands in the scan order, and no key stands there twice.
    pub proof fn lemma_log_covers(&self)
        requires
            self.wf(),
        ensures
            forall|k: Seq<char>|
                self@.contains_key(k) ==> exists|i: int|
                    0 <= i < self.log_view().len() && #[trigger] self.log_view()[i] == k,
            self.log_view().no_duplicates(),
    {
        assert forall|k: Seq<char>| self@.contains_key(k) implies exists|i: int|
            0 <= i < self.log_view().len() && #[trigger] self.log_view()[i] == k by {
            assert(self.values@.contains_key(k));
            assert(self.logged@.contains_key(k));
            let i = choose|i: int| 0 <= i < self.log@.len() && #[trigger] self.log@[i]@ == k;
            assert(self.log_view()[i] == k);
        }
    }

    /// One scan round from `cursor` for keys matching `pattern` (of the form `literal*`):
    /// the next cursor, 0 once the round reached the end of the log, and the matching
    /// present keys of the positions the round covered.
    pub fn scan(&self, cursor: u64, pattern: &String) -> (r: (u64, Vec<String>))
        requires
            self.wf(),
            pattern@.len() > 0,
        ensures
            r.0 == 0 || (cursor < r.0 && r.0 < self.log_view().len()),
            views_of(r.1@) == scan_page(
                self@,
                self.log_view(),
                pattern_literal(pattern@),
                cursor as int,
                if r.0 == 0 {
                    self.log_view().len() as int
                } else {
                    r.0 as int
                },
            ),
    {
        let len = self.log.len();
        let plen = pattern.as_str().unicode_len();
        let literal = String::from_str(pattern.as_str().substring_char(0, plen - 1));
        proof {
            assert(literal@ =~= pattern_literal(pattern@));
        }
        let mut batch: Vec<String> = Vec::new();
        if cursor >= len as u64 {
            proof {
                assert(views_of(batch@) =~= Seq::<Seq<char>>::empty());
            }
            return (0, batch);
        }
        let start = cursor as usize;
        let end = if len - start <= self.page {
            len
        } else {
            start + self.page
        };
        let mut i: usize = start;
        while i < end
            invariant
                start <= i <= end <= len,
                len == self.log@.len(),
                start == cursor,
                literal@ == pattern_literal(pattern@),
                views_of(batch@) == scan_page(self@, self.log_view(), literal@, start as int, i as int),
            decreases end - i,
        {
            let ghost before = views_of(batch@);
            let present = self.values.contains_key(self.log[i].as_str());
            let matched = strip_key_prefix(&literal, &self.log[i]);
            proof {
                assert(self.log_view()[i as int] == self.log@[i as int]@);
                assert(present == self@.contains_key(self.log@[i as int]@));
            }
            if present && matched.is_some() {
                batch.push(self.log[i].clone());
                proof {
                    assert(views_of(batch@) =~= before.push(self.log@[i as int]@));
                }
            } else {
                proof {
                    assert(views_of(batch@) =~= before);
                }
            }
            i = i + 1;
        }
        let next: u64 = if end == len {
            0
        } else {
            end as u64
        };
        (next, batch)
    }
}

} // verus!
