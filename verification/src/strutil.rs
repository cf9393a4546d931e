//! Verified string helpers: splitting, joining, character replacement,
//! substring search and replacement, and lexicographic comparison. These are
//! the small pieces the indexing and ranking rules are built from.

use vstd::prelude::*;

verus! {

use vstd::string::StrSliceExecFns;
use vstd::string::StringExecFns;

/// Index of the first occurrence of `c` in `s`, or -1 if absent.
pub open spec fn idx_of(s: Seq<char>, c: char) -> int
    decreases s.len(),
{
    if s.len() == 0 {
        -1
    } else if s[0] == c {
        0
    } else if idx_of(s.drop_first(), c) == -1 {
        -1
    } else {
        1 + idx_of(s.drop_first(), c)
    }
}

pub open spec fn seq_contains_char(s: Seq<char>, c: char) -> bool {
    idx_of(s, c) >= 0
}

pub proof fn lemma_idx_of(s: Seq<char>, c: char)
    ensures
        idx_of(s, c) == -1 ==> forall|j: int| 0 <= j < s.len() ==> s[j] != c,
        idx_of(s, c) != -1 ==> {
            &&& 0 <= idx_of(s, c) < s.len()
            &&& s[idx_of(s, c)] == c
            &&& forall|j: int| 0 <= j < idx_of(s, c) ==> s[j] != c
        },
    decreases s.len(),
{
    if s.len() == 0 {
    } else if s[0] == c {
    } else {
        lemma_idx_of(s.drop_first(), c);
        let st = s.drop_first();
        if idx_of(st, c) == -1 {
            assert forall|j: int| 0 <= j < s.len() implies s[j] != c by {
                if j > 0 {
                    assert(st[j - 1] == s[j]);
                    assert(st[j - 1] != c);
                }
            }
        } else {
            let i = idx_of(s, c);
            assert(s[i] == st[i - 1]);
            assert forall|j: int| 0 <= j < i implies s[j] != c by {
                if j > 0 {
                    assert(st[j - 1] == s[j]);
                    assert(st[j - 1] != c);
                }
            }
        }
    }
}

/// `s` split at every occurrence of `c`; separators are dropped, empty
/// segments are kept, and the result always has at least one segment.
pub open spec fn split_on(s: Seq<char>, c: char) -> Seq<Seq<char>>
    decreases s.len(),
{
    let i = idx_of(s, c);
    if i < 0 || i >= s.len() {
        seq![s]
    } else {
        seq![s.take(i)] + split_on(s.skip(i + 1), c)
    }
}

pub proof fn lemma_split_on_len(s: Seq<char>, c: char)
    ensures
        split_on(s, c).len() >= 1,
        seq_contains_char(s, c) ==> split_on(s, c).len() >= 2,
    decreases s.len(),
{
    lemma_idx_of(s, c);
    let i = idx_of(s, c);
    if i >= 0 {
        lemma_split_on_len(s.skip(i + 1), c);
    }
}

/// When the first occurrence of `c` in `s` stands at `i`, splitting peels off
/// the prefix before `i`.
pub proof fn lemma_split_step(s: Seq<char>, c: char, i: int)
    requires
        0 <= i < s.len(),
        s[i] == c,
        forall|j: int| 0 <= j < i ==> s[j] != c,
    ensures
        split_on(s, c) == seq![s.take(i)] + split_on(s.skip(i + 1), c),
{
    lemma_idx_of(s, c);
    let k = idx_of(s, c);
    assert(k != -1);
    if k < i {
        assert(s[k] != c);
        assert(false);
    }
    if k > i {
        assert(s[i] != c);
        assert(false);
    }
}

pub proof fn lemma_split_whole(s: Seq<char>, c: char)
    requires
        forall|j: int| 0 <= j < s.len() ==> s[j] != c,
    ensures
        split_on(s, c) == seq![s],
{
    lemma_idx_of(s, c);
    if idx_of(s, c) >= 0 {
        assert(s[idx_of(s, c)] == c);
        assert(false);
    }
}

/// Whether `s` holds the character `c`.
pub fn contains_char(s: &str, c: char) -> (r: bool)
    ensures
        r == seq_contains_char(s@, c),
{
    let n = s.unicode_len();
    let mut i: usize = 0;
    while i < n
        invariant
            0 <= i <= n,
            n == s@.len(),
            forall|j: int| 0 <= j < i ==> s@[j] != c,
        decreases n - i,
    {
        if s.get_char(i) == c {
            proof {
                lemma_idx_of(s@, c);
            }
            return true;
        }
        i += 1;
    }
    proof {
        lemma_idx_of(s@, c);
    }
    false
}

/// Splits `s` at every occurrence of `c`, keeping empty segments.
pub fn split_str(s: &str, c: char) -> (r: Vec<String>)
    ensures
        r.deep_view() == split_on(s@, c),
        r@.len() >= 1,
{
    let n = s.unicode_len();
    let mut parts: Vec<String> = Vec::new();
    let mut start: usize = 0;
    let mut i: usize = 0;
    proof {
        assert(s@.skip(0) =~= s@);
        assert(parts.deep_view() =~= Seq::<Seq<char>>::empty());
        assert(parts.deep_view() + split_on(s@, c) =~= split_on(s@, c));
    }
    while i < n
        invariant
            0 <= start <= i <= n,
            n == s@.len(),
            forall|j: int| start <= j < i ==> s@[j] != c,
            parts.deep_view() + split_on(s@.skip(start as int), c) == split_on(s@, c),
        decreases n - i,
    {
        if s.get_char(i) == c {
            let ghost old_dv = parts.deep_view();
            let seg = String::from_str(s.substring_char(start, i));
            parts.push(seg);
            proof {
                let rest = s@.skip(start as int);
                assert forall|j: int| 0 <= j < i - start implies rest[j] != c by {
                    assert(rest[j] == s@[start + j]);
                }
                assert(rest[i - start] == c);
                lemma_split_step(rest, c, i - start);
                assert(rest.take(i - start) =~= s@.subrange(start as int, i as int));
                assert(rest.skip(i - start + 1) =~= s@.skip(i + 1));
                assert(parts.deep_view() =~= old_dv.push(s@.subrange(start as int, i as int)));
                assert(parts.deep_view() + split_on(s@.skip(i + 1), c) =~= old_dv + (seq![
                    rest.take(i - start),
                ] + split_on(rest.skip(i - start + 1), c)));
            }
            start = i + 1;
        }
        i += 1;
    }
    let ghost old_dv = parts.deep_view();
    let seg = String::from_str(s.substring_char(start, n));
    parts.push(seg);
    proof {
        let rest = s@.skip(start as int);
        assert forall|j: int| 0 <= j < rest.len() implies rest[j] != c by {
            assert(rest[j] == s@[start + j]);
        }
        lemma_split_whole(rest, c);
        assert(rest =~= s@.subrange(start as int, n as int));
        assert(parts.deep_view() =~= old_dv.push(rest));
        assert(parts.deep_view() =~= old_dv + split_on(rest, c));
    }
    parts
}

/// `s` with every occurrence of `from` replaced by `to`, character-wise.
pub open spec fn map_replace(s: Seq<char>, from: char, to: char) -> Seq<char> {
    s.map_values(|ch: char| if ch == from { to } else { ch })
}

/// Relies on str::len: the length of a string's encoded form in bytes,
/// as an exact count. (vstd's own specification of `str::len` gives this
/// count only after a truncating cast, which is too weak to reason from.)
#[verifier::external_body]
pub fn byte_len_of(s: &str) -> (r: usize)
    ensures
        r == vstd::utf8::encode_utf8(s@).len(),
{
    s.len()
}

/// Relies on String::push: appends exactly one character at the end.
#[verifier::external_body]
fn push_char(s: &mut String, c: char)
    ensures
        final (s)@ == old(s)@.push(c),
{
    s.push(c);
}

/// Replaces every occurrence of the character `from` by `to`.
pub fn replace_char(s: &str, from: char, to: char) -> (r: String)
    ensures
        r@ == map_replace(s@, from, to),
{
    let n = s.unicode_len();
    let mut out = String::new();
    let mut i: usize = 0;
    while i < n
        invariant
            0 <= i <= n,
            n == s@.len(),
            out@ =~= map_replace(s@.take(i as int), from, to),
        decreases n - i,
    {
        let ch = s.get_char(i);
        if ch == from {
            push_char(&mut out, to);
        } else {
            push_char(&mut out, ch);
        }
        proof {
            assert(s@.take(i + 1) =~= s@.take(i as int).push(s@[i as int]));
            assert(out@ =~= map_replace(s@.take(i + 1), from, to));
        }
        i += 1;
    }
    proof {
        assert(s@.take(n as int) =~= s@);
    }
    out
}

/// `p` occurs in `s` starting at position `k`.
pub open spec fn sub_at(s: Seq<char>, p: Seq<char>, k: int) -> bool {
    &&& 0 <= k
    &&& k + p.len() <= s.len()
    &&& forall|j: int| 0 <= j < p.len() ==> s[k + j] == p[j]
}

pub open spec fn is_prefix(p: Seq<char>, s: Seq<char>) -> bool {
    sub_at(s, p, 0)
}

pub open spec fn is_suffix(p: Seq<char>, s: Seq<char>) -> bool {
    p.len() <= s.len() && sub_at(s, p, s.len() - p.len())
}

pub open spec fn contains_sub(s: Seq<char>, p: Seq<char>) -> bool {
    exists|k: int| sub_at(s, p, k)
}

/// Whether `s` starts with `p`.
pub fn starts_with_str(s: &str, p: &str) -> (r: bool)
    ensures
        r == is_prefix(p@, s@),
{
    let np = p.unicode_len();
    let ns = s.unicode_len();
    if np > ns {
        return false;
    }
    let mut j: usize = 0;
    while j < np
        invariant
            0 <= j <= np,
            np == p@.len(),
            ns == s@.len(),
            np <= ns,
            forall|t: int| 0 <= t < j ==> s@[t] == p@[t],
        decreases np - j,
    {
        if s.get_char(j) != p.get_char(j) {
            return false;
        }
        j += 1;
    }
    true
}

/// Whether `s` ends with `p`.
pub fn ends_with_str(s: &str, p: &str) -> (r: bool)
    ensures
        r == is_suffix(p@, s@),
{
    let np = p.unicode_len();
    let ns = s.unicode_len();
    if np > ns {
        return false;
    }
    let base = ns - np;
    let mut j: usize = 0;
    while j < np
        invariant
            0 <= j <= np,
            np == p@.len(),
            ns == s@.len(),
            base == ns - np,
            forall|t: int| 0 <= t < j ==> s@[base + t] == p@[t],
        decreases np - j,
    {
        if s.get_char(base + j) != p.get_char(j) {
            return false;
        }
        j += 1;
    }
    true
}

/// Whether `p` occurs anywhere in `s` as a contiguous run.
pub fn contains_str(s: &str, p: &str) -> (r: bool)
    ensures
        r == contains_sub(s@, p@),
{
    let np = p.unicode_len();
    let ns = s.unicode_len();
    if np > ns {
        proof {
            assert(forall|k: int| !sub_at(s@, p@, k));
        }
        return false;
    }
    let mut k: usize = 0;
    while k <= ns - np
        invariant
            0 <= k <= ns - np + 1,
            np == p@.len(),
            ns == s@.len(),
            np <= ns,
            forall|t: int| 0 <= t < k ==> !sub_at(s@, p@, t),
        decreases ns - np + 1 - k,
    {
        if match_at(s, p, k) {
            return true;
        }
        k += 1;
    }
    proof {
        assert forall|t: int| !sub_at(s@, p@, t) by {
            if 0 <= t <= ns - np {
                assert(!sub_at(s@, p@, t));
            }
        }
    }
    false
}

/// Position of the first occurrence of `p` in `s`, or -1 if there is none.
pub open spec fn find_sub(s: Seq<char>, p: Seq<char>) -> int
    decreases s.len(),
{
    if sub_at(s, p, 0) {
        0
    } else if s.len() == 0 {
        -1
    } else if find_sub(s.drop_first(), p) == -1 {
        -1
    } else {
        1 + find_sub(s.drop_first(), p)
    }
}

/// An occurrence in `s` at `off + t` is an occurrence in `s.skip(off)` at `t`.
pub proof fn lemma_sub_at_shift(s: Seq<char>, p: Seq<char>, off: int, t: int)
    requires
        0 <= off <= s.len(),
        0 <= t,
    ensures
        sub_at(s, p, off + t) == sub_at(s.skip(off), p, t),
{
    let rest = s.skip(off);
    if sub_at(s, p, off + t) {
        assert forall|j: int| 0 <= j < p.len() implies rest[t + j] == p[j] by {
            assert(rest[t + j] == s[off + t + j]);
        }
        assert(sub_at(rest, p, t));
    }
    if sub_at(rest, p, t) {
        assert forall|j: int| 0 <= j < p.len() implies s[off + t + j] == p[j] by {
            assert(rest[t + j] == s[off + t + j]);
        }
        assert(sub_at(s, p, off + t));
    }
}

pub proof fn lemma_find_sub(s: Seq<char>, p: Seq<char>)
    ensures
        find_sub(s, p) == -1 ==> forall|k: int| !sub_at(s, p, k),
        find_sub(s, p) != -1 ==> {
            &&& 0 <= find_sub(s, p)
            &&& find_sub(s, p) + p.len() <= s.len()
            &&& sub_at(s, p, find_sub(s, p))
            &&& forall|k: int| 0 <= k < find_sub(s, p) ==> !sub_at(s, p, k)
        },
    decreases s.len(),
{
    if sub_at(s, p, 0) {
    } else if s.len() == 0 {
        assert forall|k: int| !sub_at(s, p, k) by {
            if k != 0 && sub_at(s, p, k) {
                assert(k + p.len() <= 0);
            }
        }
    } else {
        let st = s.drop_first();
        lemma_find_sub(st, p);
        assert(st =~= s.skip(1));
        if find_sub(st, p) == -1 {
            assert forall|k: int| !sub_at(s, p, k) by {
                if k >= 1 {
                    lemma_sub_at_shift(s, p, 1, k - 1);
                    assert(!sub_at(st, p, k - 1));
                }
            }
        } else {
            let f = find_sub(s, p);
            assert(f == 1 + find_sub(st, p));
            lemma_sub_at_shift(s, p, 1, f - 1);
            assert forall|k: int| 0 <= k < f implies !sub_at(s, p, k) by {
                if k >= 1 {
                    lemma_sub_at_shift(s, p, 1, k - 1);
                    assert(!sub_at(st, p, k - 1));
                }
            }
        }
    }
}

/// The first occurrence is the one with no occurrence before it.
pub proof fn lemma_find_sub_is(s: Seq<char>, p: Seq<char>, i: int)
    requires
        sub_at(s, p, i),
        forall|t: int| 0 <= t < i ==> !sub_at(s, p, t),
    ensures
        find_sub(s, p) == i,
{
    lemma_find_sub(s, p);
    let f = find_sub(s, p);
    if f == -1 {
        assert(!sub_at(s, p, i));
        assert(false);
    }
    if f < i {
        assert(!sub_at(s, p, f));
        assert(false);
    }
    if f > i {
        assert(!sub_at(s, p, i));
        assert(false);
    }
}

/// `s` with every occurrence of `from` replaced by `to`, scanning left to
/// right without overlap; an empty `from` leaves `s` unchanged.
pub open spec fn replace_seq(s: Seq<char>, from: Seq<char>, to: Seq<char>) -> Seq<char>
    decreases s.len(),
{
    if from.len() == 0 {
        s
    } else {
        let i = find_sub(s, from);
        if i < 0 || i + from.len() > s.len() {
            s
        } else {
            s.take(i) + to + replace_seq(s.skip(i + from.len()), from, to)
        }
    }
}

/// Replaces every occurrence of `from` in `s` by `to`, left to right.
pub fn replace_all_str(s: &str, from: &str, to: &str) -> (r: String)
    ensures
        r@ == replace_seq(s@, from@, to@),
{
    let nf = from.unicode_len();
    let ns = s.unicode_len();
    if nf == 0 {
        return String::from_str(s);
    }
    let mut out = String::new();
    let mut pos: usize = 0;
    let mut k: usize = 0;
    proof {
        assert(s@.skip(0) =~= s@);
        assert(out@ + replace_seq(s@, from@, to@) =~= replace_seq(s@, from@, to@));
    }
    while ns - k >= nf
        invariant
            0 <= pos <= k <= ns,
            nf == from@.len(),
            nf >= 1,
            ns == s@.len(),
            forall|t: int| 0 <= t < k - pos ==> !sub_at(s@.skip(pos as int), from@, t),
            out@ + replace_seq(s@.skip(pos as int), from@, to@) == replace_seq(s@, from@, to@),
        decreases ns - k,
    {
        if match_at(s, from, k) {
            let ghost rest = s@.skip(pos as int);
            let ghost old_out = out@;
            out.append(s.substring_char(pos, k));
            out.append(to);
            proof {
                lemma_sub_at_shift(s@, from@, pos as int, k - pos);
                assert(sub_at(rest, from@, k - pos));
                lemma_find_sub_is(rest, from@, k - pos);
                assert(rest.take(k - pos) =~= s@.subrange(pos as int, k as int));
                assert(rest.skip(k - pos + nf) =~= s@.skip(k + nf));
                assert(replace_seq(rest, from@, to@) == rest.take(k - pos) + to@ + replace_seq(
                    s@.skip(k + nf),
                    from@,
                    to@,
                ));
                assert(out@ =~= old_out + s@.subrange(pos as int, k as int) + to@);
                assert(out@ + replace_seq(s@.skip(k + nf), from@, to@) =~= old_out + replace_seq(
                    rest,
                    from@,
                    to@,
                ));
            }
            pos = k + nf;
            k = pos;
        } else {
            proof {
                lemma_sub_at_shift(s@, from@, pos as int, k - pos);
            }
            k += 1;
        }
    }
    let ghost rest = s@.skip(pos as int);
    let ghost old_out = out@;
    out.append(s.substring_char(pos, ns));
    proof {
        assert forall|t: int| !sub_at(rest, from@, t) by {
            if 0 <= t < k - pos {
                assert(!sub_at(rest, from@, t));
            } else if t >= k - pos && sub_at(rest, from@, t) {
                assert(t + nf <= rest.len());
                assert(pos + t + nf <= ns);
                assert(false);
            }
        }
        if find_sub(rest, from@) != -1 {
            lemma_find_sub(rest, from@);
            assert(sub_at(rest, from@, find_sub(rest, from@)));
            assert(false);
        }
        assert(replace_seq(rest, from@, to@) == rest);
        assert(rest =~= s@.subrange(pos as int, ns as int));
        assert(out@ =~= old_out + rest);
    }
    out
}

/// Strict lexicographic order on character sequences by code point, the order
/// `str` comparison uses.
pub open spec fn lex_lt(a: Seq<char>, b: Seq<char>) -> bool
    decreases a.len(),
{
    if b.len() == 0 {
        false
    } else if a.len() == 0 {
        true
    } else if a[0] != b[0] {
        (a[0] as u32) < (b[0] as u32)
    } else {
        lex_lt(a.drop_first(), b.drop_first())
    }
}

/// Strict lexicographic comparison of two strings.
pub fn str_lt(a: &str, b: &str) -> (r: bool)
    ensures
        r == lex_lt(a@, b@),
{
    let na = a.unicode_len();
    let nb = b.unicode_len();
    let mut i: usize = 0;
    proof {
        assert(a@.skip(0) =~= a@);
        assert(b@.skip(0) =~= b@);
    }
    while i < na && i < nb
        invariant
            0 <= i <= na,
            0 <= i <= nb,
            na == a@.len(),
            nb == b@.len(),
            lex_lt(a@, b@) == lex_lt(a@.skip(i as int), b@.skip(i as int)),
        decreases na - i,
    {
        let ca = a.get_char(i);
        let cb = b.get_char(i);
        proof {
            assert(a@.skip(i as int)[0] == a@[i as int]);
            assert(b@.skip(i as int)[0] == b@[i as int]);
        }
        if (ca as u32) != (cb as u32) {
            proof {
                assert(ca != cb) by {
                    if ca == cb {
                        assert(ca as u32 == cb as u32);
                    }
                }
            }
            return (ca as u32) < (cb as u32);
        }
        proof {
            assert(ca == cb) by {
                if ca != cb {
                    assert(a@.skip(i as int)[0] == ca);
                }
            }
            assert(a@.skip(i as int).drop_first() =~= a@.skip(i + 1));
            assert(b@.skip(i as int).drop_first() =~= b@.skip(i + 1));
        }
        i += 1;
    }
    proof {
        if i >= na {
            assert(a@.skip(i as int).len() == 0);
        }
        if i >= nb {
            assert(b@.skip(i as int).len() == 0);
        }
    }
    i < nb
}

/// Whether `p` occurs in `s` at position `k` exactly.
fn match_at(s: &str, p: &str, k: usize) -> (r: bool)
    requires
        k + p@.len() <= s@.len() <= usize::MAX,
    ensures
        r == sub_at(s@, p@, k as int),
{
    let np = p.unicode_len();
    let mut j: usize = 0;
    while j < np
        invariant
            0 <= j <= np,
            np == p@.len(),
            k + np <= s@.len() <= usize::MAX,
            forall|t: int| 0 <= t < j ==> s@[k + t] == p@[t],
        decreases np - j,
    {
        if s.get_char(k + j) != p.get_char(j) {
            proof {
                assert(s@[k + j] != p@[j as int]);
            }
            return false;
        }
        j += 1;
    }
    true
}

} // verus!

