//! Verified string primitives over `Seq<char>` views: substring search,
//! repeated prefix/suffix trimming, replacement, and separator splitting.
//! These are the building blocks of the filter engine and the canonicalizer.

use vstd::prelude::*;
use vstd::string::StrSliceExecFns;
use vstd::string::StringExecFns;

verus! {

/// `p` occurs in `s` starting at position `i`.
pub open spec fn has_sub_at(s: Seq<char>, p: Seq<char>, i: int) -> bool {
    0 <= i && i + p.len() <= s.len() && s.subrange(i, i + p.len()) == p
}

/// `p` occurs somewhere in `s`.
pub open spec fn has_sub(s: Seq<char>, p: Seq<char>) -> bool {
    exists|i: int| has_sub_at(s, p, i)
}

/// `s` with every leading repetition of `p` removed.
pub open spec fn trim_start(s: Seq<char>, p: Seq<char>) -> Seq<char>
    decreases s.len(),
{
    if p.len() > 0 && p.is_prefix_of(s) {
        trim_start(s.skip(p.len() as int), p)
    } else {
        s
    }
}

/// `s` with every trailing `c` removed.
pub open spec fn trim_end_char(s: Seq<char>, c: char) -> Seq<char>
    decreases s.len(),
{
    if s.len() > 0 && s.last() == c {
        trim_end_char(s.drop_last(), c)
    } else {
        s
    }
}

/// `s` with each non-overlapping occurrence of `from` (scanned left to
/// right) replaced by `to`. A zero-length pattern replaces nothing.
pub open spec fn replace_seq(s: Seq<char>, from: Seq<char>, to: Seq<char>) -> Seq<char>
    decreases s.len(),
{
    if s.len() == 0 || from.len() == 0 {
        s
    } else if from.is_prefix_of(s) {
        to + replace_seq(s.skip(from.len() as int), from, to)
    } else {
        seq![s[0]] + replace_seq(s.skip(1), from, to)
    }
}

/// Position of the first `c` in `s`, or `s.len()` if there is none.
pub open spec fn find_char(s: Seq<char>, c: char) -> nat
    decreases s.len(),
{
    if s.len() == 0 {
        0
    } else if s[0] == c {
        0
    } else {
        1 + find_char(s.skip(1), c)
    }
}

/// The segments of `s` between occurrences of `c`, in order; always at
/// least one segment, as with `str::split`.
pub open spec fn split_char(s: Seq<char>, c: char) -> Seq<Seq<char>>
    decreases s.len(),
{
    let f = find_char(s, c) as int;
    if f >= s.len() {
        seq![s]
    } else {
        seq![s.take(f)] + split_char(s.skip(f + 1), c)
    }
}

pub proof fn lemma_find_char_bounds(s: Seq<char>, c: char)
    ensures
        find_char(s, c) <= s.len(),
        find_char(s, c) < s.len() ==> s[find_char(s, c) as int] == c,
        forall|j: int| 0 <= j < find_char(s, c) ==> s[j] != c,
    decreases s.len(),
{
    if s.len() > 0 && s[0] != c {
        lemma_find_char_bounds(s.skip(1), c);
        assert forall|j: int| 0 <= j < find_char(s, c) implies s[j] != c by {
            if j > 0 {
                assert(s.skip(1)[j - 1] == s[j]);
            }
        }
    }
}

/// `find_char` is determined by the earliest witness: if nothing before
/// `k` is `c`, and `k` is `c` or the end, the first `c` is at `k`.
pub proof fn lemma_find_char_at(s: Seq<char>, c: char, k: int)
    requires
        0 <= k <= s.len(),
        forall|j: int| 0 <= j < k ==> s[j] != c,
        k < s.len() ==> s[k] == c,
    ensures
        find_char(s, c) == if k < s.len() { k } else { s.len() as int },
    decreases s.len(),
{
    if s.len() > 0 && s[0] != c {
        lemma_find_char_at(s.skip(1), c, k - 1);
    }
}

pub proof fn lemma_split_char_nonempty(s: Seq<char>, c: char)
    ensures
        split_char(s, c).len() >= 1,
    decreases s.len(),
{
    lemma_find_char_bounds(s, c);
    let f = find_char(s, c) as int;
    if f < s.len() {
        lemma_split_char_nonempty(s.skip(f + 1), c);
    }
}

/// Every segment of a split is at most as long as the whole string.
pub proof fn lemma_split_char_segment_len(s: Seq<char>, c: char)
    ensures
        forall|i: int|
            0 <= i < split_char(s, c).len() ==> (#[trigger] split_char(s, c)[i]).len() <= s.len(),
    decreases s.len(),
{
    lemma_find_char_bounds(s, c);
    let f = find_char(s, c) as int;
    if f < s.len() {
        lemma_split_char_segment_len(s.skip(f + 1), c);
        let rest = s.skip(f + 1);
        assert forall|i: int|
            0 <= i < split_char(s, c).len() implies (#[trigger] split_char(s, c)[i]).len()
            <= s.len() by {
            if i > 0 {
                assert(split_char(s, c)[i] == split_char(rest, c)[i - 1]);
            }
        }
    }
}

pub proof fn lemma_trim_start_len(s: Seq<char>, p: Seq<char>)
    ensures
        trim_start(s, p).len() <= s.len(),
    decreases s.len(),
{
    if p.len() > 0 && p.is_prefix_of(s) {
        lemma_trim_start_len(s.skip(p.len() as int), p);
    }
}

pub proof fn lemma_trim_end_char_len(s: Seq<char>, c: char)
    ensures
        trim_end_char(s, c).len() <= s.len(),
    decreases s.len(),
{
    if s.len() > 0 && s.last() == c {
        lemma_trim_end_char_len(s.drop_last(), c);
    }
}

/// The lowercase form of a string, as Unicode defines it. Too large to
/// state here; the trusted wrapper below is its sole source of truth.
pub uninterp spec fn lower_of(s: Seq<char>) -> Seq<char>;

/// Relies on str::to_lowercase: the result depends on the characters of
/// the input alone.
#[verifier::external_body]
pub(crate) fn lowercase(s: &str) -> (r: String)
    ensures
        r@ == lower_of(s@),
{
    s.to_lowercase()
}

/// Appends a copy of `id` to `v`.
pub fn push_str_clone(v: &mut Vec<String>, id: &String)
    ensures
        final(v).deep_view() == old(v).deep_view().push(id@),
{
    v.push(id.clone());
    proof {
        assert(v.deep_view() =~= old(v).deep_view().push(id@));
    }
}

/// Character-for-character string equality.
pub fn str_eq(a: &str, b: &str) -> (r: bool)
    ensures
        r == (a@ == b@),
{
    let alen = a.unicode_len();
    let blen = b.unicode_len();
    if alen != blen {
        return false;
    }
    let mut i: usize = 0;
    while i < alen
        invariant
            i <= alen,
            alen == a@.len(),
            alen == b@.len(),
            forall|j: int| 0 <= j < i ==> a@[j] == b@[j],
        decreases alen - i,
    {
        if a.get_char(i) != b.get_char(i) {
            return false;
        }
        i += 1;
    }
    proof {
        assert(a@ =~= b@);
    }
    true
}

/// Does `p` occur in `s` at position `i`?
pub fn occurs_at(s: &str, p: &str, i: usize) -> (r: bool)
    requires
        i <= s@.len(),
    ensures
        r == has_sub_at(s@, p@, i as int),
{
    let slen = s.unicode_len();
    let plen = p.unicode_len();
    if plen > slen - i {
        return false;
    }
    let mut j: usize = 0;
    while j < plen
        invariant
            j <= plen,
            i + plen <= slen,
            slen == s@.len(),
            plen == p@.len(),
            forall|k: int| 0 <= k < j ==> s@[i + k] == p@[k],
        decreases plen - j,
    {
        if s.get_char(i + j) != p.get_char(j) {
            proof {
                assert(s@.subrange(i as int, i + p@.len())[j as int] == s@[i + j]);
            }
            return false;
        }
        j += 1;
    }
    proof {
        assert(s@.subrange(i as int, i + p@.len()) =~= p@);
    }
    true
}

/// Substring search: does `p` occur anywhere in `s`?
pub fn contains_sub(s: &str, p: &str) -> (r: bool)
    ensures
        r == has_sub(s@, p@),
{
    let slen = s.unicode_len();
    let plen = p.unicode_len();
    if plen > slen {
        return false;
    }
    if plen == 0 {
        proof {
            assert(s@.subrange(0, 0) =~= p@);
            assert(has_sub_at(s@, p@, 0));
        }
        return true;
    }
    let mut i: usize = 0;
    while i <= slen - plen
        invariant
            0 < plen <= slen,
            slen == s@.len(),
            plen == p@.len(),
            i <= slen - plen + 1,
            forall|j: int| 0 <= j < i ==> !has_sub_at(s@, p@, j),
        decreases slen + 1 - i,
    {
        if occurs_at(s, p, i) {
            return true;
        }
        i += 1;
    }
    false
}

/// Does `s` start with `p`?
pub fn starts_with_str(s: &str, p: &str) -> (r: bool)
    ensures
        r == p@.is_prefix_of(s@),
{
    let r = occurs_at(s, p, 0);
    proof {
        if r {
            assert(p@ =~= s@.subrange(0, p@.len() as int));
        }
        if p@.is_prefix_of(s@) {
            assert(s@.subrange(0, p@.len() as int) =~= p@);
        }
    }
    r
}

/// `str::trim_start_matches` with a string pattern: removes every leading
/// repetition of `p`.
pub fn trim_start_matches_str<'a>(s: &'a str, p: &str) -> (r: &'a str)
    ensures
        r@ == trim_start(s@, p@),
{
    let slen = s.unicode_len();
    let plen = p.unicode_len();
    if plen == 0 {
        return s;
    }
    let mut off: usize = 0;
    proof {
        assert(s@.skip(0) =~= s@);
    }
    loop
        invariant
            off <= slen,
            slen == s@.len(),
            plen == p@.len(),
            plen > 0,
            trim_start(s@, p@) == trim_start(s@.skip(off as int), p@),
        ensures
            off <= slen,
            trim_start(s@, p@) == s@.skip(off as int),
        decreases slen - off,
    {
        if occurs_at(s, p, off) {
            proof {
                let rest = s@.skip(off as int);
                assert(p@ =~= rest.subrange(0, p@.len() as int));
                assert(rest.skip(p@.len() as int) =~= s@.skip(off + p@.len()));
            }
            off += plen;
        } else {
            proof {
                let rest = s@.skip(off as int);
                if p@.is_prefix_of(rest) {
                    assert(s@.subrange(off as int, off + p@.len()) =~= rest.subrange(
                        0,
                        p@.len() as int,
                    ));
                }
                assert(trim_start(s@.skip(off as int), p@) == s@.skip(off as int));
            }
            break;
        }
    }
    let r = s.substring_char(off, slen);
    proof {
        assert(r@ =~= s@.skip(off as int));
    }
    r
}

/// `str::trim_end_matches` with a char pattern: removes every trailing `c`.
pub fn trim_end_matches_char<'a>(s: &'a str, c: char) -> (r: &'a str)
    ensures
        r@ == trim_end_char(s@, c),
{
    let slen = s.unicode_len();
    let mut end = slen;
    proof {
        assert(s@.take(slen as int) =~= s@);
    }
    loop
        invariant
            end <= slen,
            slen == s@.len(),
            trim_end_char(s@, c) == trim_end_char(s@.take(end as int), c),
        ensures
            end <= slen,
            trim_end_char(s@, c) == s@.take(end as int),
        decreases end,
    {
        if end > 0 && s.get_char(end - 1) == c {
            proof {
                let cur = s@.take(end as int);
                assert(cur.last() == c);
                assert(cur.drop_last() =~= s@.take(end - 1));
            }
            end -= 1;
        } else {
            proof {
                let cur = s@.take(end as int);
                if end > 0 {
                    assert(cur.last() == s@[end - 1]);
                }
                assert(trim_end_char(s@.take(end as int), c) == s@.take(end as int));
            }
            break;
        }
    }
    let r = s.substring_char(0, end);
    proof {
        assert(r@ =~= s@.take(end as int));
    }
    r
}

/// `str::replace`: substitutes each occurrence of `from` with `to`.
pub fn replace_str(s: &str, from: &str, to: &str) -> (r: String)
    requires
        from@.len() > 0,
    ensures
        r@ == replace_seq(s@, from@, to@),
{
    let slen = s.unicode_len();
    let flen = from.unicode_len();
    let mut out = String::new();
    let mut i: usize = 0;
    proof {
        assert(s@.skip(0) =~= s@);
        assert(out@ + replace_seq(s@, from@, to@) =~= replace_seq(s@, from@, to@));
    }
    while i < slen
        invariant
            i <= slen,
            slen == s@.len(),
            flen == from@.len(),
            flen > 0,
            replace_seq(s@, from@, to@) == out@ + replace_seq(s@.skip(i as int), from@, to@),
        decreases slen - i,
    {
        let rest_matches = occurs_at(s, from, i);
        proof {
            let rest = s@.skip(i as int);
            if rest_matches {
                assert(from@ =~= rest.subrange(0, from@.len() as int));
                assert(rest.skip(from@.len() as int) =~= s@.skip(i + from@.len()));
            } else {
                if from@.is_prefix_of(rest) {
                    assert(s@.subrange(i as int, i + from@.len()) =~= rest.subrange(
                        0,
                        from@.len() as int,
                    ));
                }
            }
        }
        if rest_matches {
            let ghost pre = out@;
            out.append(to);
            proof {
                assert(out@ + replace_seq(s@.skip(i + flen), from@, to@) =~= pre + (to@
                    + replace_seq(s@.skip(i + flen), from@, to@)));
            }
            i += flen;
        } else {
            let piece = s.substring_char(i, i + 1);
            proof {
                assert(piece@ =~= seq![s@[i as int]]);
                let rest = s@.skip(i as int);
                assert(rest[0] == s@[i as int]);
                assert(rest.skip(1) =~= s@.skip(i + 1));
            }
            let ghost pre = out@;
            out.append(piece);
            proof {
                assert(out@ + replace_seq(s@.skip(i + 1), from@, to@) =~= pre + (seq![
                    s@[i as int],
                ] + replace_seq(s@.skip(i + 1), from@, to@)));
            }
            i += 1;
        }
    }
    proof {
        assert(s@.skip(slen as int) =~= Seq::<char>::empty());
        assert(out@ + replace_seq(s@.skip(slen as int), from@, to@) =~= out@);
    }
    out
}

/// `str::split` by a char, every segment collected in order.
pub fn split_all(s: &str, c: char) -> (r: Vec<String>)
    ensures
        r.deep_view() == split_char(s@, c),
{
    let slen = s.unicode_len();
    let mut segs: Vec<String> = Vec::new();
    let mut start: usize = 0;
    let mut i: usize = 0;
    proof {
        assert(s@.skip(0) =~= s@);
        assert(segs.deep_view() + split_char(s@, c) =~= split_char(s@, c));
    }
    while i < slen
        invariant
            start <= i <= slen,
            slen == s@.len(),
            split_char(s@, c) == segs.deep_view() + split_char(s@.skip(start as int), c),
            forall|j: int| start <= j < i ==> s@[j] != c,
        decreases slen - i,
    {
        if s.get_char(i) == c {
            let seg = s.substring_char(start, i).to_owned();
            proof {
                let rest = s@.skip(start as int);
                lemma_find_char_at(rest, c, i - start);
                assert(seg@ =~= rest.take(i - start));
                assert(rest.skip(i - start + 1) =~= s@.skip(i + 1));
            }
            let ghost old_dv = segs.deep_view();
            segs.push(seg);
            proof {
                assert(segs.deep_view() =~= old_dv + seq![seg@]);
                assert(old_dv + (seq![seg@] + split_char(s@.skip(i + 1), c)) =~= (old_dv + seq![
                    seg@,
                ]) + split_char(s@.skip(i + 1), c));
            }
            start = i + 1;
        }
        i += 1;
    }
    let seg = s.substring_char(start, slen).to_owned();
    proof {
        let rest = s@.skip(start as int);
        lemma_find_char_at(rest, c, slen - start);
        assert(seg@ =~= rest);
    }
    let ghost old_dv = segs.deep_view();
    segs.push(seg);
    proof {
        assert(segs.deep_view() =~= old_dv + seq![seg@]);
        assert(split_char(s@, c) =~= segs.deep_view());
    }
    segs
}

/// Membership of a string in a vector of strings, by character content.
pub fn vec_contains_string(v: &Vec<String>, x: &String) -> (r: bool)
    ensures
        r == v.deep_view().contains(x@),
{
    let mut i: usize = 0;
    while i < v.len()
        invariant
            i <= v.len(),
            forall|j: int| 0 <= j < i ==> v.deep_view()[j] != x@,
        decreases v.len() - i,
    {
        if v[i] == *x {
            proof {
                assert(v.deep_view()[i as int] == x@);
            }
            return true;
        }
        i += 1;
    }
    false
}

/// Do two vectors of strings share an element?
pub open spec fn seq_intersects(a: Seq<Seq<char>>, b: Seq<Seq<char>>) -> bool {
    exists|i: int| 0 <= i < a.len() && b.contains(a[i])
}

pub fn vecs_intersect(a: &Vec<String>, b: &Vec<String>) -> (r: bool)
    ensures
        r == seq_intersects(a.deep_view(), b.deep_view()),
{
    let mut i: usize = 0;
    while i < a.len()
        invariant
            i <= a.len(),
            forall|j: int| 0 <= j < i ==> !b.deep_view().contains(a.deep_view()[j]),
        decreases a.len() - i,
    {
        if vec_contains_string(b, &a[i]) {
            proof {
                assert(a.deep_view()[i as int] == a@[i as int]@);
            }
            return true;
        }
        i += 1;
    }
    false
}

} // verus!
