//! Byte-level text utilities shared by the pipeline: ASCII case folding,
//! whitespace trimming, substring search, line splitting and joining.
//!
//! All content flows through the pipeline as byte sequences, so every
//! helper here is specified over `Seq<u8>`. The character classes —
//! whitespace, alphanumerics, case folding — are deliberately the
//! ASCII ones: everything the pipeline recognizes (markers, keywords,
//! structure tags, delimiters) is ASCII, and bytes outside ASCII pass
//! through untouched as content.

use vstd::prelude::*;

verus! {

/// Line feed, the one newline byte after normalization.
pub const NL: u8 = 10;

/// ASCII lower-casing of a single byte; other bytes are unchanged.
pub open spec fn lower_byte(b: u8) -> u8 {
    if 65 <= b && b <= 90 {
        (b + 32) as u8
    } else {
        b
    }
}

/// ASCII lower-casing of a byte sequence.
pub open spec fn lower(s: Seq<u8>) -> Seq<u8> {
    s.map_values(|b: u8| lower_byte(b))
}

/// The bytes counted as whitespace: the ASCII whitespace characters.
pub open spec fn is_space(b: u8) -> bool {
    b == 32 || b == 9 || b == 10 || b == 11 || b == 12 || b == 13
}

/// ASCII alphanumeric bytes.
pub open spec fn is_alnum(b: u8) -> bool {
    (48 <= b && b <= 57) || (65 <= b && b <= 90) || (97 <= b && b <= 122)
}

pub fn byte_lower(b: u8) -> (r: u8)
    ensures
        r == lower_byte(b),
{
    if 65 <= b && b <= 90 {
        b + 32
    } else {
        b
    }
}

pub fn byte_is_space(b: u8) -> (r: bool)
    ensures
        r == is_space(b),
{
    b == 32 || b == 9 || b == 10 || b == 11 || b == 12 || b == 13
}

pub fn byte_is_alnum(b: u8) -> (r: bool)
    ensures
        r == is_alnum(b),
{
    (48 <= b && b <= 57) || (65 <= b && b <= 90) || (97 <= b && b <= 122)
}

/// `needle` occurs at position `i` of `haystack`, byte for byte.
pub open spec fn matches_at(h: Seq<u8>, n: Seq<u8>, i: int) -> bool {
    0 <= i && i + n.len() <= h.len() && h.subrange(i, i + n.len() as int) == n
}

/// `needle` occurs at position `i` of `haystack`, up to ASCII case.
pub open spec fn matches_ci_at(h: Seq<u8>, n: Seq<u8>, i: int) -> bool {
    0 <= i && i + n.len() <= h.len() && lower(h.subrange(i, i + n.len() as int)) == lower(n)
}

/// First position at or after `i` where `n` occurs in `h`, byte for byte.
pub open spec fn find_at_or_after(h: Seq<u8>, n: Seq<u8>, i: int) -> Option<int>
    decreases h.len() + 1 - i when 0 <= i
{
    if i < 0 || i + n.len() > h.len() {
        None
    } else if matches_at(h, n, i) {
        Some(i)
    } else {
        find_at_or_after(h, n, i + 1)
    }
}

/// First position where `n` occurs in `h`, byte for byte.
pub open spec fn spec_find(h: Seq<u8>, n: Seq<u8>) -> Option<int> {
    find_at_or_after(h, n, 0)
}

/// A found position is at or after the start and is a real match.
pub proof fn lemma_find_in_range(h: Seq<u8>, n: Seq<u8>, i: int)
    requires
        0 <= i,
    ensures
        find_at_or_after(h, n, i) matches Some(j) ==> i <= j && matches_at(h, n, j),
    decreases h.len() + 1 - i,
{
    if i + n.len() > h.len() {
    } else if matches_at(h, n, i) {
    } else {
        lemma_find_in_range(h, n, i + 1);
    }
}

/// First position at or after `i` where `n` occurs in `h`, up to ASCII case.
pub open spec fn find_ci_at_or_after(h: Seq<u8>, n: Seq<u8>, i: int) -> Option<int>
    decreases h.len() + 1 - i when 0 <= i
{
    if i < 0 || i + n.len() > h.len() {
        None
    } else if matches_ci_at(h, n, i) {
        Some(i)
    } else {
        find_ci_at_or_after(h, n, i + 1)
    }
}

/// First position where `n` occurs in `h`, up to ASCII case.
pub open spec fn spec_find_ci(h: Seq<u8>, n: Seq<u8>) -> Option<int> {
    find_ci_at_or_after(h, n, 0)
}

/// A found position is at or after the start and is a real match.
pub proof fn lemma_find_ci_in_range(h: Seq<u8>, n: Seq<u8>, i: int)
    requires
        0 <= i,
    ensures
        find_ci_at_or_after(h, n, i) matches Some(j) ==> i <= j && matches_ci_at(h, n, j),
    decreases h.len() + 1 - i,
{
    if i + n.len() > h.len() {
    } else if matches_ci_at(h, n, i) {
    } else {
        lemma_find_ci_in_range(h, n, i + 1);
    }
}

/// Does `n` occur at position `i` of `h`, byte for byte?
pub fn eq_at(h: &[u8], n: &[u8], i: usize) -> (r: bool)
    requires
        i + n@.len() <= h@.len(),
    ensures
        r == matches_at(h@, n@, i as int),
{
    let mut j: usize = 0;
    while j < n.len()
        invariant
            i + n@.len() <= h@.len(),
            0 <= j <= n@.len(),
            forall|k: int| 0 <= k < j ==> h@[i + k] == n@[k],
        decreases n@.len() - j,
    {
        proof {
            assert(h.len() == h@.len());
        }
        if h[i + j] != n[j] {
            assert(h@.subrange(i as int, i + n@.len() as int)[j as int] != n@[j as int]);
            return false;
        }
        j += 1;
    }
    assert(h@.subrange(i as int, i + n@.len() as int) =~= n@);
    true
}

/// Does `n` occur at position `i` of `h`, up to ASCII case?
pub fn eq_ci_at(h: &[u8], n: &[u8], i: usize) -> (r: bool)
    requires
        i + n@.len() <= h@.len(),
    ensures
        r == matches_ci_at(h@, n@, i as int),
{
    let mut j: usize = 0;
    while j < n.len()
        invariant
            i + n@.len() <= h@.len(),
            0 <= j <= n@.len(),
            forall|k: int| 0 <= k < j ==> lower_byte(h@[i + k]) == lower_byte(n@[k]),
        decreases n@.len() - j,
    {
        proof {
            assert(h.len() == h@.len());
        }
        if byte_lower(h[i + j]) != byte_lower(n[j]) {
            assert(lower(h@.subrange(i as int, i + n@.len() as int))[j as int] != lower(
                n@,
            )[j as int]);
            return false;
        }
        j += 1;
    }
    assert(lower(h@.subrange(i as int, i + n@.len() as int)) =~= lower(n@));
    true
}

/// First occurrence of `needle` in `haystack`, byte for byte.
pub fn find_sub(haystack: &[u8], needle: &[u8]) -> (r: Option<usize>)
    ensures
        r is Some <==> spec_find(haystack@, needle@) is Some,
        r matches Some(i) ==> spec_find(haystack@, needle@) == Some(i as int),
{
    if needle.len() > haystack.len() {
        return None;
    }
    let end = haystack.len() - needle.len();
    let mut i: usize = 0;
    while i <= end
        invariant
            needle@.len() <= haystack@.len(),
            end == haystack@.len() - needle@.len(),
            0 <= i <= end + 1,
            spec_find(haystack@, needle@) == find_at_or_after(haystack@, needle@, i as int),
        decreases end + 1 - i,
    {
        if eq_at(haystack, needle, i) {
            return Some(i);
        }
        if i == end {
            assert(find_at_or_after(haystack@, needle@, i as int) == find_at_or_after(
                haystack@,
                needle@,
                i + 1,
            ));
            assert(find_at_or_after(haystack@, needle@, i + 1) is None);
            return None;
        }
        i += 1;
    }
    None
}

/// First occurrence of `needle` in `haystack`, ignoring ASCII case.
pub fn find_case_insensitive(haystack: &[u8], needle: &[u8]) -> (r: Option<usize>)
    ensures
        r is Some <==> spec_find_ci(haystack@, needle@) is Some,
        r matches Some(i) ==> spec_find_ci(haystack@, needle@) == Some(i as int),
{
    if needle.len() > haystack.len() {
        return None;
    }
    let end = haystack.len() - needle.len();
    let mut i: usize = 0;
    while i <= end
        invariant
            needle@.len() <= haystack@.len(),
            end == haystack@.len() - needle@.len(),
            0 <= i <= end + 1,
            spec_find_ci(haystack@, needle@) == find_ci_at_or_after(haystack@, needle@, i as int),
        decreases end + 1 - i,
    {
        if eq_ci_at(haystack, needle, i) {
            return Some(i);
        }
        if i == end {
            assert(find_ci_at_or_after(haystack@, needle@, i as int) == find_ci_at_or_after(
                haystack@,
                needle@,
                i + 1,
            ));
            assert(find_ci_at_or_after(haystack@, needle@, i + 1) is None);
            return None;
        }
        i += 1;
    }
    None
}

/// `s` without its leading whitespace bytes.
pub open spec fn trim_start_spec(s: Seq<u8>) -> Seq<u8>
    decreases s.len(),
{
    if s.len() > 0 && is_space(s[0]) {
        trim_start_spec(s.drop_first())
    } else {
        s
    }
}

/// `s` without its trailing whitespace bytes.
pub open spec fn trim_end_spec(s: Seq<u8>) -> Seq<u8>
    decreases s.len(),
{
    if s.len() > 0 && is_space(s.last()) {
        trim_end_spec(s.drop_last())
    } else {
        s
    }
}

/// `s` without leading and trailing whitespace bytes.
pub open spec fn trim_spec(s: Seq<u8>) -> Seq<u8> {
    trim_end_spec(trim_start_spec(s))
}

/// The trimmed copy of `s`.
pub fn trim(s: &[u8]) -> (r: Vec<u8>)
    ensures
        r@ == trim_spec(s@),
{
    let mut lo: usize = 0;
    let len = s.len();
    proof {
        assert(s@.subrange(0, len as int) =~= s@);
    }
    while lo < len && byte_is_space(s[lo])
        invariant
            len == s@.len(),
            0 <= lo <= len,
            trim_start_spec(s@) == trim_start_spec(s@.subrange(lo as int, len as int)),
        decreases len - lo,
    {
        proof {
            let tail = s@.subrange(lo as int, len as int);
            assert(tail.drop_first() =~= s@.subrange(lo + 1, len as int));
        }
        lo += 1;
    }
    proof {
        assert(trim_start_spec(s@.subrange(lo as int, len as int)) == s@.subrange(
            lo as int,
            len as int,
        ));
    }
    let mut hi: usize = len;
    while hi > lo && byte_is_space(s[hi - 1])
        invariant
            len == s@.len(),
            0 <= lo <= hi <= len,
            trim_start_spec(s@) == s@.subrange(lo as int, len as int),
            trim_end_spec(s@.subrange(lo as int, len as int)) == trim_end_spec(
                s@.subrange(lo as int, hi as int),
            ),
        decreases hi,
    {
        proof {
            let part = s@.subrange(lo as int, hi as int);
            assert(part.drop_last() =~= s@.subrange(lo as int, hi - 1));
        }
        hi -= 1;
    }
    proof {
        assert(trim_end_spec(s@.subrange(lo as int, hi as int)) == s@.subrange(
            lo as int,
            hi as int,
        ));
    }
    let piece = vstd::slice::slice_subrange(s, lo, hi);
    vstd::slice::slice_to_vec(piece)
}

/// Is `s` empty after trimming, that is, all whitespace?
pub fn is_blank(s: &[u8]) -> (r: bool)
    ensures
        r == (trim_spec(s@).len() == 0),
{
    let t = trim(s);
    t.len() == 0
}

/// `s` with every carriage-return–line-feed pair and every lone
/// carriage return replaced by a single line feed.
pub open spec fn normalize_spec(s: Seq<u8>) -> Seq<u8>
    decreases s.len(),
{
    if s.len() == 0 {
        s
    } else if s[0] == 13 {
        if s.len() >= 2 && s[1] == 10 {
            seq![NL] + normalize_spec(s.subrange(2, s.len() as int))
        } else {
            seq![NL] + normalize_spec(s.drop_first())
        }
    } else {
        seq![s[0]] + normalize_spec(s.drop_first())
    }
}

/// Normalizes newline styles to line feeds alone.
pub fn normalize_newlines(s: &[u8]) -> (r: Vec<u8>)
    ensures
        r@ == normalize_spec(s@),
{
    let len = s.len();
    let mut out: Vec<u8> = Vec::new();
    let mut i: usize = 0;
    proof {
        assert(s@.subrange(0, len as int) =~= s@);
        assert(out@ + normalize_spec(s@) =~= normalize_spec(s@));
    }
    while i < len
        invariant
            len == s@.len(),
            0 <= i <= len,
            normalize_spec(s@) == out@ + normalize_spec(s@.subrange(i as int, len as int)),
        decreases len - i,
    {
        let ghost rest = s@.subrange(i as int, len as int);
        if s[i] == 13 {
            if i + 1 < len && s[i + 1] == 10 {
                proof {
                    assert(rest.subrange(2, rest.len() as int) =~= s@.subrange(i + 2, len as int));
                    assert(out@ + (seq![NL] + normalize_spec(s@.subrange(i + 2, len as int)))
                        =~= (out@ + seq![NL]) + normalize_spec(s@.subrange(i + 2, len as int)));
                }
                out.push(NL);
                i += 2;
            } else {
                proof {
                    assert(rest.drop_first() =~= s@.subrange(i + 1, len as int));
                    assert(out@ + (seq![NL] + normalize_spec(s@.subrange(i + 1, len as int)))
                        =~= (out@ + seq![NL]) + normalize_spec(s@.subrange(i + 1, len as int)));
                }
                out.push(NL);
                i += 1;
            }
        } else {
            proof {
                assert(rest.drop_first() =~= s@.subrange(i + 1, len as int));
                assert(out@ + (seq![rest[0]] + normalize_spec(s@.subrange(i + 1, len as int)))
                    =~= (out@ + seq![rest[0]]) + normalize_spec(s@.subrange(i + 1, len as int)));
            }
            let b = s[i];
            out.push(b);
            i += 1;
        }
    }
    proof {
        assert(s@.subrange(len as int, len as int) =~= Seq::<u8>::empty());
        assert(out@ + Seq::<u8>::empty() =~= out@);
    }
    out
}

/// The lines of `s`: maximal runs between line feeds. A trailing line
/// feed closes the last line rather than opening an empty one.
pub open spec fn split_lines_rec(s: Seq<u8>, cur: Seq<u8>) -> Seq<Seq<u8>>
    decreases s.len(),
{
    if s.len() == 0 {
        if cur.len() == 0 {
            Seq::empty()
        } else {
            seq![cur]
        }
    } else if s[0] == NL {
        seq![cur] + split_lines_rec(s.drop_first(), Seq::empty())
    } else {
        split_lines_rec(s.drop_first(), cur.push(s[0]))
    }
}

/// The lines of `s`.
pub open spec fn split_lines_spec(s: Seq<u8>) -> Seq<Seq<u8>> {
    split_lines_rec(s, Seq::empty())
}

/// The views of a sequence of byte vectors.
pub open spec fn line_views(vs: Seq<Vec<u8>>) -> Seq<Seq<u8>> {
    vs.map_values(|v: Vec<u8>| v@)
}

/// Splits `s` into its lines.
pub fn split_lines(s: &[u8]) -> (r: Vec<Vec<u8>>)
    ensures
        line_views(r@) == split_lines_spec(s@),
{
    let len = s.len();
    let mut out: Vec<Vec<u8>> = Vec::new();
    let mut cur: Vec<u8> = Vec::new();
    let mut i: usize = 0;
    proof {
        assert(line_views(out@) =~= Seq::<Seq<u8>>::empty());
        assert(s@.subrange(0, len as int) =~= s@);
        assert(Seq::<Seq<u8>>::empty() + split_lines_rec(s@, cur@) =~= split_lines_rec(s@, cur@));
    }
    while i < len
        invariant
            len == s@.len(),
            0 <= i <= len,
            split_lines_spec(s@) == line_views(out@) + split_lines_rec(
                s@.subrange(i as int, len as int),
                cur@,
            ),
        decreases len - i,
    {
        let ghost rest = s@.subrange(i as int, len as int);
        proof {
            assert(rest.drop_first() =~= s@.subrange(i + 1, len as int));
            assert(rest[0] == s@[i as int]);
        }
        if s[i] == NL {
            let ghost prev = line_views(out@);
            let ghost curv = cur@;
            out.push(cur);
            cur = Vec::new();
            proof {
                assert(line_views(out@) =~= prev.push(curv));
                assert(prev + (seq![curv] + split_lines_rec(
                    s@.subrange(i + 1, len as int),
                    Seq::empty(),
                )) =~= prev.push(curv) + split_lines_rec(
                    s@.subrange(i + 1, len as int),
                    Seq::empty(),
                ));
            }
        } else {
            cur.push(s[i]);
        }
        i += 1;
    }
    proof {
        assert(s@.subrange(len as int, len as int) =~= Seq::<u8>::empty());
    }
    if cur.len() > 0 {
        let ghost prev = line_views(out@);
        let ghost curv = cur@;
        out.push(cur);
        proof {
            assert(line_views(out@) =~= prev.push(curv));
            assert(prev + seq![curv] =~= prev.push(curv));
        }
    } else {
        proof {
            assert(line_views(out@) + Seq::<Seq<u8>>::empty() =~= line_views(out@));
        }
    }
    out
}

/// The lines joined back with single line feeds, no trailing one.
pub open spec fn join_lines(ls: Seq<Seq<u8>>) -> Seq<u8>
    decreases ls.len(),
{
    if ls.len() == 0 {
        Seq::empty()
    } else if ls.len() == 1 {
        ls[0]
    } else {
        ls[0] + seq![NL] + join_lines(ls.drop_first())
    }
}

/// Joining one more line appends a line feed and the line.
pub proof fn lemma_join_push(ls: Seq<Seq<u8>>, l: Seq<u8>)
    ensures
        join_lines(ls.push(l)) == if ls.len() == 0 {
            l
        } else {
            join_lines(ls) + seq![NL] + l
        },
    decreases ls.len(),
{
    if ls.len() == 0 {
        assert(ls.push(l).len() == 1);
        assert(ls.push(l)[0] == l);
    } else if ls.len() == 1 {
        assert(ls.push(l)[0] == ls[0]);
        assert(ls.push(l).drop_first() =~= seq![l]);
        assert(join_lines(seq![l]) == l);
    } else {
        lemma_join_push(ls.drop_first(), l);
        assert(ls.push(l).drop_first() =~= ls.drop_first().push(l));
        assert(ls.push(l)[0] == ls[0]);
        assert(ls[0] + seq![NL] + (join_lines(ls.drop_first()) + seq![NL] + l) =~= (ls[0]
            + seq![NL] + join_lines(ls.drop_first())) + seq![NL] + l);
    }
}

/// The pieces joined with the separator `sep` between them.
pub open spec fn join_with(ls: Seq<Seq<u8>>, sep: Seq<u8>) -> Seq<u8>
    decreases ls.len(),
{
    if ls.len() == 0 {
        Seq::empty()
    } else if ls.len() == 1 {
        ls[0]
    } else {
        ls[0] + sep + join_with(ls.drop_first(), sep)
    }
}

/// Joining one more piece appends the separator and the piece.
pub proof fn lemma_join_with_push(ls: Seq<Seq<u8>>, l: Seq<u8>, sep: Seq<u8>)
    ensures
        join_with(ls.push(l), sep) == if ls.len() == 0 {
            l
        } else {
            join_with(ls, sep) + sep + l
        },
    decreases ls.len(),
{
    if ls.len() == 0 {
        assert(ls.push(l).len() == 1);
        assert(ls.push(l)[0] == l);
    } else if ls.len() == 1 {
        assert(ls.push(l)[0] == ls[0]);
        assert(ls.push(l).drop_first() =~= seq![l]);
        assert(join_with(seq![l], sep) == l);
    } else {
        lemma_join_with_push(ls.drop_first(), l, sep);
        assert(ls.push(l).drop_first() =~= ls.drop_first().push(l));
        assert(ls.push(l)[0] == ls[0]);
        assert(ls[0] + sep + (join_with(ls.drop_first(), sep) + sep + l) =~= (ls[0] + sep
            + join_with(ls.drop_first(), sep)) + sep + l);
    }
}

/// Appends the bytes of `src` to `dst`.
pub fn push_all(dst: &mut Vec<u8>, src: &[u8])
    ensures
        final(dst)@ == old(dst)@ + src@,
{
    let ghost prev = dst@;
    dst.extend_from_slice(src);
    proof {
        assert(dst@ =~= prev + src@);
    }
}

} // verus!
