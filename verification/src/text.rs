//! Character-level text handling shared by the script readers: white space
//! as Unicode defines it, trimming, splitting into words, prefixes and
//! replacement.  Text is handled as a vector of `char`s and pieces of it as
//! index ranges into that vector.
use vstd::prelude::*;

verus! {

broadcast use vstd::string::group_string_axioms;

/// The characters with the Unicode `White_Space` property, the set that
/// `char::is_whitespace`, `str::trim` and `str::split_whitespace` use.
pub open spec fn is_ws(c: char) -> bool {
    let u = c as u32;
    (0x9 <= u && u <= 0xD) || u == 0x20 || u == 0x85 || u == 0xA0 || u == 0x1680 || (0x2000 <= u
        && u <= 0x200A) || u == 0x2028 || u == 0x2029 || u == 0x202F || u == 0x205F || u == 0x3000
}

pub open spec fn trim_start(s: Seq<char>) -> Seq<char>
    decreases s.len(),
{
    if s.len() > 0 && is_ws(s[0]) {
        trim_start(s.drop_first())
    } else {
        s
    }
}

pub open spec fn trim_end(s: Seq<char>) -> Seq<char>
    decreases s.len(),
{
    if s.len() > 0 && is_ws(s.last()) {
        trim_end(s.drop_last())
    } else {
        s
    }
}

/// `s` without leading and trailing white space.
pub open spec fn trim(s: Seq<char>) -> Seq<char> {
    trim_end(trim_start(s))
}

/// Length of the run of non-white-space characters that `s` starts with.
pub open spec fn word_len(s: Seq<char>) -> nat
    decreases s.len(),
{
    if s.len() == 0 || is_ws(s[0]) {
        0
    } else {
        1 + word_len(s.drop_first())
    }
}

/// The maximal runs of non-white-space characters of `s`, in order.
pub open spec fn split_ws(s: Seq<char>) -> Seq<Seq<char>>
    decreases s.len(),
{
    if s.len() == 0 {
        Seq::empty()
    } else if is_ws(s[0]) {
        split_ws(s.drop_first())
    } else {
        let k = word_len(s);
        if 0 < k <= s.len() {
            seq![s.take(k as int)] + split_ws(s.skip(k as int))
        } else {
            seq![s]
        }
    }
}

pub open spec fn starts_with(s: Seq<char>, p: Seq<char>) -> bool {
    p.len() <= s.len() && s.take(p.len() as int) == p
}

/// Number of occurrences of `c` in `s`.
pub open spec fn count_char(s: Seq<char>, c: char) -> nat
    decreases s.len(),
{
    if s.len() == 0 {
        0
    } else {
        count_char(s.drop_last(), c) + if s.last() == c {
            1nat
        } else {
            0nat
        }
    }
}

/// `s` with every occurrence of `pat` replaced by `rep`, occurrences taken
/// from left to right without overlap.
pub open spec fn replace_all(s: Seq<char>, pat: Seq<char>, rep: Seq<char>) -> Seq<char>
    decreases s.len(),
{
    if s.len() == 0 || pat.len() == 0 {
        s
    } else if starts_with(s, pat) {
        rep + replace_all(s.skip(pat.len() as int), pat, rep)
    } else {
        seq![s[0]] + replace_all(s.drop_first(), pat, rep)
    }
}

/// Pieces of `v` named by index ranges.
pub open spec fn pieces(v: Seq<char>, ranges: Seq<(usize, usize)>) -> Seq<Seq<char>> {
    ranges.map_values(|r: (usize, usize)| v.subrange(r.0 as int, r.1 as int))
}

/// Appends one character to a string with `String::push`; the contract
/// claims that the string afterwards is the old one followed by `c`.
#[verifier::external_body]
pub(crate) fn push_char(s: &mut String, c: char)
    ensures
        final(s)@ == old(s)@.push(c),
{
    s.push(c);
}

/// The characters of `s`, in order.
pub fn chars_of(s: &str) -> (v: Vec<char>)
    ensures
        v@ == s@,
{
    let mut v: Vec<char> = Vec::new();
    for c in it: s.chars()
        invariant
            v@ == it.seq().take(it.index() as int),
            it.seq() == s@,
    {
        v.push(c);
    }
    v
}

/// A string holding the given characters.
pub fn string_of(v: &Vec<char>, a: usize, b: usize) -> (s: String)
    requires
        a <= b <= v@.len(),
    ensures
        s@ == v@.subrange(a as int, b as int),
{
    let mut s = String::new();
    let mut i = a;
    while i < b
        invariant
            a <= i <= b <= v@.len(),
            s@ == v@.subrange(a as int, i as int),
        decreases b - i,
    {
        push_char(&mut s, v[i]);
        i += 1;
        proof {
            assert(s@ =~= v@.subrange(a as int, i as int));
        }
    }
    s
}

pub fn is_ws_char(c: char) -> (r: bool)
    ensures
        r == is_ws(c),
{
    let u = c as u32;
    (0x9 <= u && u <= 0xD) || u == 0x20 || u == 0x85 || u == 0xA0 || u == 0x1680 || (0x2000 <= u
        && u <= 0x200A) || u == 0x2028 || u == 0x2029 || u == 0x202F || u == 0x205F || u == 0x3000
}

/// The range of `v[a..b]` left after trimming white space at both ends.
pub fn trim_range(v: &Vec<char>, a: usize, b: usize) -> (r: (usize, usize))
    requires
        a <= b <= v@.len(),
    ensures
        a <= r.0 <= r.1 <= b,
        v@.subrange(r.0 as int, r.1 as int) == trim(v@.subrange(a as int, b as int)),
{
    let mut s = a;
    while s < b && is_ws_char(v[s])
        invariant
            a <= s <= b <= v@.len(),
            trim_start(v@.subrange(a as int, b as int)) == trim_start(v@.subrange(s as int, b as int)),
        decreases b - s,
    {
        assert(v@.subrange(s as int, b as int).drop_first() =~= v@.subrange(s + 1, b as int));
        s += 1;
    }
    let mut e = b;
    while e > s && is_ws_char(v[e - 1])
        invariant
            a <= s <= e <= b <= v@.len(),
            trim_end(v@.subrange(s as int, b as int)) == trim_end(v@.subrange(s as int, e as int)),
        decreases e - s,
    {
        assert(v@.subrange(s as int, e as int).drop_last() =~= v@.subrange(s as int, e - 1));
        e -= 1;
    }
    (s, e)
}

proof fn lemma_word_len_bound(s: Seq<char>)
    ensures
        word_len(s) <= s.len(),
    decreases s.len(),
{
    if s.len() > 0 && !is_ws(s[0]) {
        lemma_word_len_bound(s.drop_first());
    }
}

/// Index ranges of the words of `v[a..b]`.
pub fn split_ws_ranges(v: &Vec<char>, a: usize, b: usize) -> (toks: Vec<(usize, usize)>)
    requires
        a <= b <= v@.len(),
    ensures
        pieces(v@, toks@) == split_ws(v@.subrange(a as int, b as int)),
        forall|k: int| 0 <= k < toks@.len() ==> a <= (#[trigger] toks@[k]).0 <= toks@[k].1 <= b,
{
    let mut toks: Vec<(usize, usize)> = Vec::new();
    let mut i = a;
    while i < b
        invariant
            a <= i <= b <= v@.len(),
            pieces(v@, toks@) + split_ws(v@.subrange(i as int, b as int)) == split_ws(
                v@.subrange(a as int, b as int),
            ),
            forall|k: int| 0 <= k < toks@.len() ==> a <= (#[trigger] toks@[k]).0 <= toks@[k].1 <= i,
        decreases b - i,
    {
        let ghost rest = v@.subrange(i as int, b as int);
        if is_ws_char(v[i]) {
            assert(rest.drop_first() =~= v@.subrange(i + 1, b as int));
            i += 1;
        } else {
            let mut j = i + 1;
            proof {
                assert(rest.drop_first() =~= v@.subrange(i + 1, b as int));
            }
            while j < b && !is_ws_char(v[j])
                invariant
                    i < j <= b <= v@.len(),
                    rest == v@.subrange(i as int, b as int),
                    word_len(rest) == (j - i) + word_len(v@.subrange(j as int, b as int)),
                decreases b - j,
            {
                assert(v@.subrange(j as int, b as int).drop_first() =~= v@.subrange(j + 1, b as int));
                j += 1;
            }
            proof {
                lemma_word_len_bound(rest);
                assert(word_len(rest) == j - i);
                assert(rest.take((j - i) as int) =~= v@.subrange(i as int, j as int));
                assert(rest.skip((j - i) as int) =~= v@.subrange(j as int, b as int));
            }
            let ghost before = toks@;
            toks.push((i, j));
            proof {
                assert(pieces(v@, toks@) =~= pieces(v@, before).push(v@.subrange(i as int, j as int)));
                assert(pieces(v@, toks@) + split_ws(v@.subrange(j as int, b as int)) =~= pieces(v@, before)
                    + split_ws(rest));
            }
            i = j;
        }
    }
    proof {
        assert(pieces(v@, toks@) + split_ws(v@.subrange(i as int, b as int)) =~= pieces(v@, toks@));
    }
    toks
}

/// Whether `v[a..b]` equals `w`.
pub fn range_eq(v: &Vec<char>, a: usize, b: usize, w: &Vec<char>) -> (r: bool)
    requires
        a <= b <= v@.len(),
    ensures
        r == (v@.subrange(a as int, b as int) == w@),
{
    if b - a != w.len() {
        return false;
    }
    let mut k: usize = 0;
    while k < w.len()
        invariant
            b - a == w@.len(),
            a <= b <= v@.len(),
            k <= w@.len(),
            forall|q: int| 0 <= q < k ==> v@[a + q] == w@[q],
        decreases w@.len() - k,
    {
        if v[a + k] != w[k] {
            assert(v@.subrange(a as int, b as int)[k as int] != w@[k as int]);
            return false;
        }
        k += 1;
    }
    assert(v@.subrange(a as int, b as int) =~= w@);
    true
}

/// Whether `v[a..b]` starts with `w`.
pub fn range_starts_with(v: &Vec<char>, a: usize, b: usize, w: &Vec<char>) -> (r: bool)
    requires
        a <= b <= v@.len(),
    ensures
        r == starts_with(v@.subrange(a as int, b as int), w@),
{
    if b - a < w.len() {
        return false;
    }
    let r = range_eq(v, a, a + w.len(), w);
    assert(v@.subrange(a as int, b as int).take(w@.len() as int) =~= v@.subrange(
        a as int,
        a + w@.len(),
    ));
    r
}

/// Number of occurrences of `c` in `v[a..b]`.
pub fn count_in_range(v: &Vec<char>, a: usize, b: usize, c: char) -> (n: usize)
    requires
        a <= b <= v@.len(),
    ensures
        n == count_char(v@.subrange(a as int, b as int), c),
        n <= b - a,
{
    let mut n: usize = 0;
    let mut i = a;
    while i < b
        invariant
            a <= i <= b <= v@.len(),
            n == count_char(v@.subrange(a as int, i as int), c),
            n <= i - a,
        decreases b - i,
    {
        assert(v@.subrange(a as int, i + 1).drop_last() =~= v@.subrange(a as int, i as int));
        if v[i] == c {
            n += 1;
        }
        i += 1;
    }
    n
}

/// `v[a..b]` with every occurrence of `pat` replaced by `rep`.
pub fn replace_in_range(v: &Vec<char>, a: usize, b: usize, pat: &Vec<char>, rep: &Vec<char>) -> (out: Vec<char>)
    requires
        a <= b <= v@.len(),
        pat@.len() > 0,
    ensures
        out@ == replace_all(v@.subrange(a as int, b as int), pat@, rep@),
{
    let mut out: Vec<char> = Vec::new();
    let mut i = a;
    while i < b
        invariant
            a <= i <= b <= v@.len(),
            pat@.len() > 0,
            out@ + replace_all(v@.subrange(i as int, b as int), pat@, rep@) == replace_all(
                v@.subrange(a as int, b as int),
                pat@,
                rep@,
            ),
        decreases b - i,
    {
        let ghost rest = v@.subrange(i as int, b as int);
        if range_starts_with(v, i, b, pat) {
            let ghost before = out@;
            let mut k: usize = 0;
            while k < rep.len()
                invariant
                    k <= rep@.len(),
                    out@ == before + rep@.take(k as int),
                decreases rep@.len() - k,
            {
                out.push(rep[k]);
                k += 1;
                proof {
                    assert(out@ =~= before + rep@.take(k as int));
                }
            }
            proof {
                assert(rep@.take(rep@.len() as int) =~= rep@);
                assert(rest.skip(pat@.len() as int) =~= v@.subrange(i + pat@.len(), b as int));
                assert(before + replace_all(rest, pat@, rep@) =~= out@ + replace_all(
                    v@.subrange(i + pat@.len(), b as int),
                    pat@,
                    rep@,
                ));
            }
            i = i + pat.len();
        } else {
            let ghost before = out@;
            out.push(v[i]);
            proof {
                assert(rest.drop_first() =~= v@.subrange(i + 1, b as int));
                assert(before + replace_all(rest, pat@, rep@) =~= out@ + replace_all(
                    v@.subrange(i + 1, b as int),
                    pat@,
                    rep@,
                ));
            }
            i += 1;
        }
    }
    proof {
        assert(out@ + replace_all(v@.subrange(i as int, b as int), pat@, rep@) =~= out@);
    }
    out
}

/// Whether `p` occurs somewhere in `s`.
pub open spec fn has_infix(s: Seq<char>, p: Seq<char>) -> bool {
    exists|i: int| 0 <= i && i + p.len() <= s.len() && #[trigger] s.subrange(i, i + p.len()) == p
}

/// Whether `w` occurs somewhere in `v`.
pub fn contains_seq(v: &Vec<char>, w: &Vec<char>) -> (r: bool)
    ensures
        r == has_infix(v@, w@),
{
    if w.len() > v.len() {
        return false;
    }
    let last = v.len() - w.len();
    let mut i: usize = 0;
    loop
        invariant
            i <= last,
            last + w@.len() == v@.len(),
            v@.len() == v.len(),
            w@.len() == w.len(),
            forall|q: int| 0 <= q < i ==> #[trigger] v@.subrange(q, q + w@.len()) != w@,
        ensures
            forall|q: int| 0 <= q <= last ==> #[trigger] v@.subrange(q, q + w@.len()) != w@,
        decreases last - i,
    {
        if range_eq(v, i, i + w.len(), w) {
            return true;
        }
        if i == last {
            break;
        }
        i += 1;
    }
    false
}

} // verus!
