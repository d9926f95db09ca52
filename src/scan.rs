//! Enumeration of the keys under a prefix by the store's cursor-driven scan.
use vstd::prelude::*;

use crate::keys::views_of;
use crate::registry::{opt_view, RedisRegistry};

verus! {

/// `key` with `prefix` taken off its front, if it starts with `prefix`.
pub open spec fn relative_key(prefix: Seq<char>, key: Seq<char>) -> Option<Seq<char>> {
    if prefix.len() <= key.len() && key.subrange(0, prefix.len() as int) == prefix {
        Some(key.subrange(prefix.len() as int, key.len() as int))
    } else {
        None
    }
}

/// The relative keys of the keys of `batch` that start with `prefix`, in order; the
/// others are left out.
pub open spec fn relative_keys(prefix: Seq<char>, batch: Seq<Seq<char>>) -> Seq<Seq<char>>
    decreases batch.len(),
{
    if batch.len() == 0 {
        Seq::empty()
    } else {
        let rest = relative_keys(prefix, batch.drop_last());
        match relative_key(prefix, batch.last()) {
            Some(r) => rest.push(r),
            None => rest,
        }
    }
}

/// Takes `prefix` off the front of `key`, or returns `None` where `key` does not start
/// with it.
pub fn strip_key_prefix(prefix: &String, key: &String) -> (r: Option<String>)
    ensures
        opt_view(r) == relative_key(prefix@, key@),
{
    let plen = prefix.as_str().unicode_len();
    let klen = key.as_str().unicode_len();
    if plen > klen {
        return None;
    }
    let mut i: usize = 0;
    while i < plen
        invariant
            plen == prefix@.len(),
            klen == key@.len(),
            plen <= klen,
            0 <= i <= plen,
            forall|j: int| 0 <= j < i ==> prefix@[j] == key@[j],
        decreases plen - i,
    {
        if prefix.as_str().get_char(i) != key.as_str().get_char(i) {
            proof {
                assert(key@.subrange(0, plen as int)[i as int] != prefix@[i as int]);
            }
            return None;
        }
        i = i + 1;
    }
    proof {
        assert(key@.subrange(0, plen as int) =~= prefix@);
    }
    Some(String::from_str(key.as_str().substring_char(plen, klen)))
}

/// The progress of one enumeration: the prefix and match pattern, the cursor to send
/// next, and the relative keys gathered so far.
pub struct ScanState {
    prefix: String,
    pattern: String,
    cursor: u64,
    finished: bool,
    keys: Vec<String>,
}

impl ScanState {
    pub closed spec fn prefix_view(&self) -> Seq<char> {
        self.prefix@
    }

    pub closed spec fn pattern_view(&self) -> Seq<char> {
        self.pattern@
    }

    pub closed spec fn cursor_view(&self) -> u64 {
        self.cursor
    }

    pub closed spec fn finished_view(&self) -> bool {
        self.finished
    }

    pub closed spec fn keys_view(&self) -> Seq<Seq<char>> {
        views_of(self.keys@)
    }

    /// Starts an enumeration of the keys that begin with `prefix`: cursor 0, match
    /// pattern `prefix*`, nothing gathered.
    pub fn new(prefix: String) -> (r: ScanState)
        ensures
            r.prefix_view() == prefix@,
            r.pattern_view() == prefix@ + seq!['*'],
            r.cursor_view() == 0,
            !r.finished_view(),
            r.keys_view() == Seq::<Seq<char>>::empty(),
    {
        proof {
            reveal_strlit("*");
            assert("*"@ =~= seq!['*']);
        }
        let pattern = prefix.clone().concat("*");
        let keys: Vec<String> = Vec::new();
        proof {
            assert(views_of(keys@) =~= Seq::<Seq<char>>::empty());
        }
        ScanState { prefix, pattern, cursor: 0, finished: false, keys }
    }

    /// The pattern to hand to the store's scan.
    pub fn pattern(&self) -> (r: &String)
        ensures
            r@ == self.pattern_view(),
    {
        &self.pattern
    }

    /// The cursor to hand to the store's next scan round.
    pub fn cursor(&self) -> (r: u64)
        ensures
            r == self.cursor_view(),
    {
        self.cursor
    }

    /// Whether the store has reported the end of the enumeration.
    pub fn is_finished(&self) -> (r: bool)
        ensures
            r == self.finished_view(),
    {
        self.finished
    }

    /// Takes in one scan round's reply: the next cursor and a batch of store keys.
    /// The keys of the batch that start with the prefix are gathered as relative keys;
    /// the enumeration ends when the store hands back cursor 0.
    pub fn advance(&mut self, next_cursor: u64, batch: &Vec<String>)
        requires
            !old(self).finished_view(),
        ensures
            final(self).prefix_view() == old(self).prefix_view(),
            final(self).pattern_view() == old(self).pattern_view(),
            final(self).cursor_view() == next_cursor,
            final(self).finished_view() == (next_cursor == 0),
            final(self).keys_view() == old(self).keys_view() + relative_keys(
                old(self).prefix_view(),
                views_of(batch@),
            ),
    {
        let ghost start = views_of(self.keys@);
        let mut i: usize = 0;
        while i < batch.len()
            invariant
                0 <= i <= batch.len(),
                self.prefix@ == old(self).prefix@,
                self.pattern@ == old(self).pattern@,
                views_of(self.keys@) == start + relative_keys(
                    self.prefix@,
                    views_of(batch@).subrange(0, i as int),
                ),
            decreases batch.len() - i,
        {
            let ghost before = views_of(batch@).subrange(0, i as int);
            let ghost keys_before = views_of(self.keys@);
            let found = strip_key_prefix(&self.prefix, &batch[i]);
            match found {
                Some(r) => {
                    self.keys.push(r);
                },
                None => {},
            }
            proof {
                let after = views_of(batch@).subrange(0, i + 1);
                assert(after.drop_last() =~= before);
                assert(after.last() == batch@[i as int]@);
                match relative_key(self.prefix@, after.last()) {
                    Some(r) => {
                        assert(views_of(self.keys@) =~= keys_before.push(r));
                        assert(relative_keys(self.prefix@, after) == relative_keys(
                            self.prefix@,
                            before,
                        ).push(r));
                    },
                    None => {
                        assert(views_of(self.keys@) =~= keys_before);
                        assert(relative_keys(self.prefix@, after) == relative_keys(
                            self.prefix@,
                            before,
                        ));
                    },
                }
                assert(views_of(self.keys@) =~= start + relative_keys(self.prefix@, after));
            }
            i = i + 1;
        }
        proof {
            assert(views_of(batch@).subrange(0, batch@.len() as int) =~= views_of(batch@));
        }
        self.cursor = next_cursor;
        self.finished = next_cursor == 0;
    }

    /// The relative keys gathered, in the order the store handed them out.
    pub fn into_keys(self) -> (r: Vec<String>)
        ensures
            views_of(r@) == self.keys_view(),
    {
        self.keys
    }
}

impl RedisRegistry {
    /// Starts the enumeration of the keys under `parts`: the prefix is the store key of
    /// `parts` followed by `/`.
    pub fn scan_start(&self, parts: &Vec<String>) -> (r: ScanState)
        ensures
            r.prefix_view() == self.key_of(views_of(parts@)) + seq!['/'],
            r.pattern_view() == r.prefix_view() + seq!['*'],
            r.cursor_view() == 0,
            !r.finished_view(),
            r.keys_view() == Seq::<Seq<char>>::empty(),
    {
        proof {
            reveal_strlit("/");
            assert("/"@ =~= seq!['/']);
        }
        let prefix = self.build_key(parts).concat("/");
        ScanState::new(prefix)
    }
}

} // verus!
