//! Request-facing pieces of the HTTP surface: error bodies and key paths from a query.
use vstd::prelude::*;

use crate::keys::{no_separator, views_of};
use crate::text::{lemma_trimmed_shape, trim_text, trimmed};

verus! {

/// The body of every non-2xx response: `{"error": <message>}`.
pub struct ErrorResponse {
    pub error: String,
}

/// The API description of the registry routes.
pub struct ApiDoc;

/// `s` cut at each `/`: the pieces between separators, in order, empty ones included.
pub open spec fn split_at_separator(s: Seq<char>) -> Seq<Seq<char>>
    decreases s.len(),
{
    if s.len() == 0 {
        seq![Seq::empty()]
    } else {
        let init = split_at_separator(s.drop_last());
        if s.last() == '/' {
            init.push(Seq::empty())
        } else {
            init.update(init.len() - 1, init.last().push(s.last()))
        }
    }
}

/// Each piece trimmed, the empty ones dropped.
pub open spec fn kept_segments(pieces: Seq<Seq<char>>) -> Seq<Seq<char>>
    decreases pieces.len(),
{
    if pieces.len() == 0 {
        Seq::empty()
    } else {
        let rest = kept_segments(pieces.drop_last());
        let t = trimmed(pieces.last());
        if t.len() > 0 {
            rest.push(t)
        } else {
            rest
        }
    }
}

/// The key path named by a query value: none for a missing or blank value, else its
/// `/`-separated pieces, trimmed, without the empty ones.
pub open spec fn path_parts(path: Option<Seq<char>>) -> Seq<Seq<char>> {
    match path {
        Some(p) => if trimmed(p).len() > 0 {
            kept_segments(split_at_separator(p))
        } else {
            Seq::empty()
        },
        None => Seq::empty(),
    }
}

proof fn lemma_split_nonempty(s: Seq<char>)
    ensures
        split_at_separator(s).len() > 0,
    decreases s.len(),
{
    if s.len() > 0 {
        lemma_split_nonempty(s.drop_last());
    }
}

/// A valid key path: each segment non-empty, trimmed, and free of the separator.
pub open spec fn valid_segments(parts: Seq<Seq<char>>) -> bool {
    forall|i: int|
        0 <= i < parts.len() ==> (#[trigger] parts[i]).len() > 0 && no_separator(parts[i])
            && trimmed(parts[i]) == parts[i]
}

/// Turns the `path` query value into key path segments.
pub fn path_to_parts(path: Option<String>) -> (r: Vec<String>)
    ensures
        views_of(r@) == path_parts(match path {
            Some(p) => Some(p@),
            None => None,
        }),
        valid_segments(views_of(r@)),
{
    let p = match path {
        None => {
            let empty: Vec<String> = Vec::new();
            proof {
                assert(views_of(empty@) =~= Seq::<Seq<char>>::empty());
            }
            return empty;
        },
        Some(p) => p,
    };
    let whole = trim_text(p.as_str());
    if whole.as_str().unicode_len() == 0 {
        let empty: Vec<String> = Vec::new();
        proof {
            assert(views_of(empty@) =~= Seq::<Seq<char>>::empty());
        }
        return empty;
    }
    let n = p.as_str().unicode_len();
    let mut out: Vec<String> = Vec::new();
    let mut start: usize = 0;
    let mut i: usize = 0;
    proof {
        assert(p@.subrange(0, 0) =~= Seq::<char>::empty());
        assert(split_at_separator(Seq::<char>::empty()).drop_last() =~= Seq::<Seq<char>>::empty());
        assert(views_of(out@) =~= Seq::<Seq<char>>::empty());
        assert(p@.subrange(0, 0) =~= Seq::<char>::empty());
    }
    while i < n
        invariant
            n == p@.len(),
            0 <= start <= i <= n,
            split_at_separator(p@.subrange(0, i as int)).len() > 0,
            views_of(out@) == kept_segments(split_at_separator(p@.subrange(0, i as int)).drop_last()),
            split_at_separator(p@.subrange(0, i as int)).last() == p@.subrange(start as int, i as int),
            no_separator(p@.subrange(start as int, i as int)),
            valid_segments(views_of(out@)),
        decreases n - i,
    {
        let ghost pieces = split_at_separator(p@.subrange(0, i as int));
        let ghost next = p@.subrange(0, i + 1);
        proof {
            assert(next.drop_last() =~= p@.subrange(0, i as int));
            lemma_split_nonempty(next);
        }
        let c = p.as_str().get_char(i);
        if c == '/' {
            let piece = trim_text(p.as_str().substring_char(start, i));
            let ghost out_before = views_of(out@);
            proof {
                lemma_trimmed_shape(p@.subrange(start as int, i as int));
            }
            if piece.as_str().unicode_len() > 0 {
                out.push(piece);
                proof {
                    assert(views_of(out@) =~= out_before.push(piece@));
                }
            }
            proof {
                let np = split_at_separator(next);
                assert(np == pieces.push(Seq::empty()));
                assert(np.drop_last() =~= pieces);
                assert(pieces =~= pieces.drop_last().push(pieces.last()));
                assert(p@.subrange(i + 1, i + 1) =~= Seq::<char>::empty());
            }
            start = i + 1;
        } else {
            proof {
                let np = split_at_separator(next);
                assert(np == pieces.update(pieces.len() - 1, pieces.last().push(c)));
                assert(np.drop_last() =~= pieces.drop_last());
                assert(np.last() =~= p@.subrange(start as int, i + 1));
                assert forall|j: int| 0 <= j < i + 1 - start implies #[trigger] p@.subrange(start as int, i + 1)[j] != '/' by {
                    if j < i - start {
                        assert(p@.subrange(start as int, i + 1)[j] == p@.subrange(start as int, i as int)[j]);
                    }
                }
            }
        }
        i = i + 1;
    }
    let last = trim_text(p.as_str().substring_char(start, n));
    let ghost out_before = views_of(out@);
    proof {
        lemma_trimmed_shape(p@.subrange(start as int, n as int));
    }
    let ghost pieces = split_at_separator(p@.subrange(0, n as int));
    if last.as_str().unicode_len() > 0 {
        out.push(last);
        proof {
            assert(views_of(out@) =~= out_before.push(last@));
        }
    }
    proof {
        assert(p@.subrange(0, n as int) =~= p@);
        assert(pieces =~= pieces.drop_last().push(pieces.last()));
    }
    out
}

} // verus!
