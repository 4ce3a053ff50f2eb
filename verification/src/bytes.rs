//! Byte-sequence utilities: whitespace trimming, substring search, splitting
//! on a delimiter, and whitespace tokenization.  These are the primitives the
//! pipeline parser is built from.

use vstd::prelude::*;

verus! {

/// ASCII whitespace: space, tab, line feed, carriage return.
pub open spec fn is_space(b: u8) -> bool {
    b == 32 || b == 9 || b == 10 || b == 13
}

fn is_space_byte(b: u8) -> (r: bool)
    ensures
        r == is_space(b),
{
    b == 32 || b == 9 || b == 10 || b == 13
}

/// The views of a vector of byte vectors.
pub open spec fn views_of(v: Seq<Vec<u8>>) -> Seq<Seq<u8>> {
    v.map_values(|p: Vec<u8>| p@)
}

/// `s` with trailing ASCII whitespace removed.
pub open spec fn trim_end_spec(s: Seq<u8>) -> Seq<u8>
    decreases s.len(),
{
    if s.len() > 0 && is_space(s[s.len() - 1]) {
        trim_end_spec(s.take(s.len() - 1))
    } else {
        s
    }
}

/// Copy of `s[i..j]`.
pub fn sub_vec(s: &[u8], i: usize, j: usize) -> (r: Vec<u8>)
    requires
        i <= j <= s.len(),
    ensures
        r@ == s@.subrange(i as int, j as int),
{
    let mut r: Vec<u8> = Vec::new();
    let mut k: usize = i;
    while k < j
        invariant
            i <= k <= j <= s.len(),
            r@ == s@.subrange(i as int, k as int),
        decreases j - k,
    {
        r.push(s[k]);
        k = k + 1;
        proof {
            assert(s@.subrange(i as int, k as int) =~= s@.subrange(i as int, k - 1).push(
                s@[k - 1],
            ));
        }
    }
    r
}

/// Remove trailing ASCII whitespace.
pub fn trim_end(s: &[u8]) -> (r: Vec<u8>)
    ensures
        r@ == trim_end_spec(s@),
{
    let mut end: usize = s.len();
    proof {
        assert(s@.take(end as int) =~= s@);
    }
    while end > 0 && is_space_byte(s[end - 1])
        invariant
            end <= s.len(),
            trim_end_spec(s@) == trim_end_spec(s@.take(end as int)),
        decreases end,
    {
        proof {
            assert(s@.take(end as int).take(end - 1) =~= s@.take(end - 1));
        }
        end = end - 1;
    }
    let r = sub_vec(s, 0, end);
    proof {
        assert(s@.take(end as int) =~= s@.subrange(0, end as int));
    }
    r
}

/// Index of the leftmost occurrence of `d` in `s` at or after `from`,
/// or -1 when there is none.
pub open spec fn find_at(s: Seq<u8>, d: Seq<u8>, from: int) -> int
    decreases s.len() - from,
{
    if d.len() < 1 || from < 0 || from + d.len() > s.len() {
        -1
    } else if s.subrange(from, from + d.len()) == d {
        from
    } else {
        find_at(s, d, from + 1)
    }
}

/// `find_at` returns either -1 or the first match position at or after `from`.
pub proof fn lemma_find_at(s: Seq<u8>, d: Seq<u8>, from: int)
    requires
        0 <= from,
        d.len() >= 1,
    ensures
        find_at(s, d, from) == -1 ==> forall|j: int|
            from <= j && j + d.len() <= s.len() ==> #[trigger] s.subrange(j, j + d.len()) != d,
        find_at(s, d, from) >= 0 ==> from <= find_at(s, d, from)
            && find_at(s, d, from) + d.len() <= s.len()
            && s.subrange(find_at(s, d, from), find_at(s, d, from) + d.len()) == d
            && forall|j: int|
                from <= j < find_at(s, d, from) ==> #[trigger] s.subrange(j, j + d.len()) != d,
    decreases s.len() - from,
{
    if from + d.len() > s.len() {
    } else if s.subrange(from, from + d.len()) == d {
    } else {
        lemma_find_at(s, d, from + 1);
    }
}

fn match_at_exec(s: &[u8], d: &[u8], i: usize) -> (r: bool)
    requires
        i + d.len() <= s.len(),
    ensures
        r == (s@.subrange(i as int, i + d.len()) == d@),
{
    let mut k: usize = 0;
    while k < d.len()
        invariant
            i + d.len() <= s.len(),
            k <= d.len(),
            forall|j: int| 0 <= j < k ==> s@[i + j] == d@[j],
        decreases d.len() - k,
    {
        if s[i + k] != d[k] {
            proof {
                assert(s@.subrange(i as int, i + d.len())[k as int] == s@[i + k]);
            }
            return false;
        }
        k = k + 1;
    }
    proof {
        assert(s@.subrange(i as int, i + d.len()) =~= d@);
    }
    true
}

/// Leftmost occurrence of `d` in `s` at or after `from`.
pub fn find_from(s: &[u8], d: &[u8], from: usize) -> (r: Option<usize>)
    requires
        d.len() >= 1,
    ensures
        match r {
            Some(f) => from <= f && f + d.len() <= s.len() && find_at(s@, d@, from as int)
                == f as int,
            None => find_at(s@, d@, from as int) == -1,
        },
{
    if s.len() < d.len() {
        return None;
    }
    let last = s.len() - d.len();
    let mut i: usize = from;
    while i <= last
        invariant
            from <= i,
            1 <= d.len() <= s.len(),
            last == s.len() - d.len(),
            find_at(s@, d@, from as int) == find_at(s@, d@, i as int),
        decreases last + 1 - i,
    {
        if match_at_exec(s, d, i) {
            return Some(i);
        }
        i = i + 1;
    }
    None
}

/// `s` split from position `from` on the leftmost occurrences of delimiter
/// `d`: the pieces, in order, without the delimiter.
pub open spec fn split_from(s: Seq<u8>, d: Seq<u8>, from: int) -> Seq<Seq<u8>>
    decreases s.len() - from,
{
    let f = find_at(s, d, from);
    if d.len() < 1 || from < 0 || from > s.len() || f < from || f + d.len() > s.len() {
        seq![s.subrange(from, s.len() as int)]
    } else {
        seq![s.subrange(from, f)] + split_from(s, d, f + d.len())
    }
}

/// `s` split on the delimiter `d`.
pub open spec fn split_delim(s: Seq<u8>, d: Seq<u8>) -> Seq<Seq<u8>> {
    split_from(s, d, 0)
}

/// Split `s` on the delimiter `d`.
pub fn split_delim_exec(s: &[u8], d: &[u8]) -> (r: Vec<Vec<u8>>)
    requires
        d.len() >= 1,
    ensures
        views_of(r@) == split_delim(s@, d@),
        r@.len() >= 1,
{
    let mut r: Vec<Vec<u8>> = Vec::new();
    let mut pos: usize = 0;
    loop
        invariant_except_break
            pos <= s.len(),
            1 <= d.len(),
            split_from(s@, d@, 0) == views_of(r@) + split_from(s@, d@, pos as int),
        ensures
            views_of(r@) == split_from(s@, d@, 0),
            r@.len() >= 1,
        decreases s.len() - pos,
    {
        proof {
            lemma_find_at(s@, d@, pos as int);
        }
        match find_from(s, d, pos) {
            Some(f) => {
                let piece = sub_vec(s, pos, f);
                let ghost prev = r@;
                r.push(piece);
                proof {
                    assert(views_of(r@) =~= views_of(prev).push(piece@));
                    assert(split_from(s@, d@, pos as int) == seq![s@.subrange(pos as int, f as int)]
                        + split_from(s@, d@, f + d@.len()));
                    assert(views_of(prev) + split_from(s@, d@, pos as int) =~= views_of(r@)
                        + split_from(s@, d@, f + d@.len()));
                }
                pos = f + d.len();
            },
            None => {
                let piece = sub_vec(s, pos, s.len());
                let ghost prev = r@;
                r.push(piece);
                proof {
                    assert(views_of(r@) =~= views_of(prev).push(piece@));
                    assert(split_from(s@, d@, pos as int) == seq![
                        s@.subrange(pos as int, s@.len() as int),
                    ]);
                    assert(views_of(prev) + split_from(s@, d@, pos as int) =~= views_of(r@));
                }
                break ;
            },
        }
    }
    r
}

/// First position at or after `from` that is not ASCII whitespace, or the
/// length of `s`.
pub open spec fn skip_spaces(s: Seq<u8>, from: int) -> int
    decreases s.len() - from,
{
    if from < 0 || from >= s.len() || !is_space(s[from]) {
        from
    } else {
        skip_spaces(s, from + 1)
    }
}

/// First position at or after `from` that is ASCII whitespace, or the length
/// of `s`.
pub open spec fn token_end(s: Seq<u8>, from: int) -> int
    decreases s.len() - from,
{
    if from < 0 || from >= s.len() || is_space(s[from]) {
        from
    } else {
        token_end(s, from + 1)
    }
}

pub proof fn lemma_skip_spaces(s: Seq<u8>, from: int)
    requires
        0 <= from <= s.len(),
    ensures
        from <= skip_spaces(s, from) <= s.len(),
        skip_spaces(s, from) < s.len() ==> !is_space(s[skip_spaces(s, from)]),
    decreases s.len() - from,
{
    if from < s.len() && is_space(s[from]) {
        lemma_skip_spaces(s, from + 1);
    }
}

pub proof fn lemma_token_end(s: Seq<u8>, from: int)
    requires
        0 <= from <= s.len(),
    ensures
        from <= token_end(s, from) <= s.len(),
        from < s.len() && !is_space(s[from]) ==> token_end(s, from) > from,
    decreases s.len() - from,
{
    if from < s.len() && !is_space(s[from]) {
        lemma_token_end(s, from + 1);
    }
}

/// The whitespace-separated tokens of `s` from position `from` on.
pub open spec fn tokens_from(s: Seq<u8>, from: int) -> Seq<Seq<u8>>
    decreases s.len() - from when 0 <= from <= s.len() via tokens_from_decreases
{
    let st = skip_spaces(s, from);
    if st >= s.len() {
        seq![]
    } else {
        seq![s.subrange(st, token_end(s, st))] + tokens_from(s, token_end(s, st))
    }
}

#[via_fn]
proof fn tokens_from_decreases(s: Seq<u8>, from: int) {
    lemma_skip_spaces(s, from);
    if skip_spaces(s, from) < s.len() {
        lemma_token_end(s, skip_spaces(s, from));
    }
}

/// The whitespace-separated tokens of `s`.
pub open spec fn tokens_of(s: Seq<u8>) -> Seq<Seq<u8>> {
    tokens_from(s, 0)
}

/// Split `s` into its whitespace-separated tokens.
pub fn tokenize(s: &[u8]) -> (r: Vec<Vec<u8>>)
    ensures
        views_of(r@) == tokens_of(s@),
{
    let mut r: Vec<Vec<u8>> = Vec::new();
    let mut pos: usize = 0;
    while pos < s.len()
        invariant
            pos <= s.len(),
            tokens_from(s@, 0) == views_of(r@) + tokens_from(s@, pos as int),
        decreases s.len() - pos,
    {
        if is_space_byte(s[pos]) {
            proof {
                assert(skip_spaces(s@, pos as int) == skip_spaces(s@, pos + 1));
                assert(tokens_from(s@, pos as int) == tokens_from(s@, pos + 1));
            }
            pos = pos + 1;
        } else {
            proof {
                assert(skip_spaces(s@, pos as int) == pos as int);
            }
            let mut end: usize = pos;
            while end < s.len() && !is_space_byte(s[end])
                invariant
                    pos <= end <= s.len(),
                    token_end(s@, pos as int) == token_end(s@, end as int),
                decreases s.len() - end,
            {
                proof {
                    assert(token_end(s@, end as int) == token_end(s@, end + 1));
                }
                end = end + 1;
            }
            proof {
                assert(token_end(s@, end as int) == end as int);
            }
            let piece = sub_vec(s, pos, end);
            let ghost prev = r@;
            r.push(piece);
            proof {
                assert(views_of(r@) =~= views_of(prev).push(piece@));
                assert(tokens_from(s@, pos as int) == seq![s@.subrange(pos as int, end as int)]
                    + tokens_from(s@, end as int));
                assert(views_of(prev) + tokens_from(s@, pos as int) =~= views_of(r@)
                    + tokens_from(s@, end as int));
            }
            pos = end;
        }
    }
    proof {
        assert(skip_spaces(s@, pos as int) == pos as int);
        assert(tokens_from(s@, pos as int) =~= Seq::<Seq<u8>>::empty());
        assert(views_of(r@) =~= views_of(r@) + tokens_from(s@, pos as int));
    }
    r
}

} // verus!
