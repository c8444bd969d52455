//! Pure string operations used by the extractor: link cleanup, identifier and
//! slug derivation, and keyword search.

use vstd::prelude::*;
use vstd::string::StrSliceExecFns;
use vstd::string::StringExecFns;

verus! {

/// `k` is the position where the query string of `s` starts: the first `'?'`,
/// or the end of `s` when it holds none.
pub open spec fn is_query_start(s: Seq<char>, k: int) -> bool {
    &&& 0 <= k <= s.len()
    &&& forall|i: int| 0 <= i < k ==> s[i] != '?'
    &&& k < s.len() ==> s[k] == '?'
}

/// `r` is the address `s` cut at its first `'?'`.
pub open spec fn is_cleaned_link(s: Seq<char>, r: Seq<char>) -> bool {
    is_query_start(s, r.len() as int) && r == s.take(r.len() as int)
}

/// Strips any query-string suffix from a download address: the result is the
/// address cut at its first `'?'`.
pub fn clean_download_link(url: &str) -> (r: String)
    ensures
        is_cleaned_link(url@, r@),
{
    let n = url.unicode_len();
    let mut i: usize = 0;
    while i < n && url.get_char(i) != '?'
        invariant
            n == url@.len(),
            i <= n,
            forall|j: int| 0 <= j < i ==> url@[j] != '?',
        decreases n - i,
    {
        i = i + 1;
    }
    let r = String::from_str(url.substring_char(0, i));
    assert(r@ == url@.take(i as int));
    r
}


/// `w` occurs in `s` starting at position `i`.
pub open spec fn occurs_at(s: Seq<char>, w: Seq<char>, i: int) -> bool {
    &&& 0 <= i
    &&& i + w.len() <= s.len()
    &&& forall|k: int| 0 <= k < w.len() ==> s[i + k] == w[k]
}

/// `w` occurs somewhere in `s`.
pub open spec fn contains(s: Seq<char>, w: Seq<char>) -> bool {
    exists|i: int| occurs_at(s, w, i)
}

/// Substring search over characters.
pub fn str_contains(s: &str, w: &str) -> (r: bool)
    ensures
        r == contains(s@, w@),
{
    let n = s.unicode_len();
    let m = w.unicode_len();
    if m > n {
        assert(forall|i: int| !occurs_at(s@, w@, i));
        return false;
    }
    let mut i: usize = 0;
    while i <= n - m
        invariant
            n == s@.len(),
            m == w@.len(),
            m <= n,
            i <= n - m + 1,
            forall|j: int| 0 <= j < i ==> !occurs_at(s@, w@, j),
        decreases n - m + 1 - i,
    {
        let mut k: usize = 0;
        while k < m && s.get_char(i + k) == w.get_char(k)
            invariant
                n == s@.len(),
                m == w@.len(),
                i + m <= n,
                k <= m,
                forall|t: int| 0 <= t < k ==> s@[i + t] == w@[t],
            decreases m - k,
        {
            k = k + 1;
        }
        if k == m {
            assert(occurs_at(s@, w@, i as int));
            return true;
        }
        i = i + 1;
    }
    assert forall|i: int| !occurs_at(s@, w@, i) by {
        if 0 <= i && i + m <= n {
            assert(i < n - m + 1);
        }
    }
    false
}

/// End of the `'/'`-separated segment of `s` that starts at `i`.
pub open spec fn segment_end(s: Seq<char>, i: int) -> int
    decreases s.len() - i,
{
    if i < 0 || i >= s.len() || s[i] == '/' {
        i
    } else {
        segment_end(s, i + 1)
    }
}

/// The segment `s[i..j]` starts with `"tt"`, the naming convention of item ids.
pub open spec fn is_id_segment(s: Seq<char>, i: int, j: int) -> bool {
    j - i >= 2 && s[i] == 't' && s[i + 1] == 't'
}

/// The first `'/'`-separated segment of `s`, at or after position `i` (a
/// segment start), that starts with `"tt"`; empty when there is none.
pub open spec fn id_segment_from(s: Seq<char>, i: int) -> Seq<char>
    decreases s.len() - i,
{
    if i < 0 || i > s.len() {
        Seq::empty()
    } else {
        let e = segment_end(s, i);
        if is_id_segment(s, i, e) {
            s.subrange(i, e)
        } else if e >= s.len() || e < i {
            Seq::empty()
        } else {
            id_segment_from(s, e + 1)
        }
    }
}

/// The external identifier named by a detail-link address: its first path
/// segment that starts with `"tt"`, or empty when there is none.
pub open spec fn imdb_id_of(href: Seq<char>) -> Seq<char> {
    id_segment_from(href, 0)
}

proof fn lemma_segment_end_bounds(s: Seq<char>, i: int)
    requires
        0 <= i <= s.len(),
    ensures
        i <= segment_end(s, i) <= s.len(),
        segment_end(s, i) < s.len() ==> s[segment_end(s, i)] == '/',
    decreases s.len() - i,
{
    if i < s.len() && s[i] != '/' {
        lemma_segment_end_bounds(s, i + 1);
    }
}

/// Derives the external identifier from a detail-link address.
pub fn imdb_id_from_href(href: &str) -> (r: String)
    ensures
        r@ == imdb_id_of(href@),
{
    let n = href.unicode_len();
    let mut start: usize = 0;
    while start <= n
        invariant
            n == href@.len(),
            id_segment_from(href@, start as int) == imdb_id_of(href@),
        decreases n + 1 - start,
    {
        let mut end: usize = start;
        while end < n && href.get_char(end) != '/'
            invariant
                n == href@.len(),
                start <= end <= n,
                segment_end(href@, start as int) == segment_end(href@, end as int),
            decreases n - end,
        {
            end = end + 1;
        }
        assert(segment_end(href@, start as int) == end);
        if end - start >= 2 && href.get_char(start) == 't' && href.get_char(start + 1) == 't' {
            return String::from_str(href.substring_char(start, end));
        }
        if end >= n {
            return String::new();
        }
        start = end + 1;
    }
    String::new()
}

/// `s` with every leading repetition of `p` removed (nothing when `p` is
/// empty).
pub open spec fn strip_leading(s: Seq<char>, p: Seq<char>) -> Seq<char>
    decreases s.len(),
{
    if p.len() > 0 && p.len() <= s.len() && s.take(p.len() as int) == p {
        strip_leading(s.skip(p.len() as int), p)
    } else {
        s
    }
}

/// `s` with every trailing `'/'` removed.
pub open spec fn strip_trailing_slashes(s: Seq<char>) -> Seq<char>
    decreases s.len(),
{
    if s.len() > 0 && s.last() == '/' {
        strip_trailing_slashes(s.drop_last())
    } else {
        s
    }
}

/// The site-relative slug of an item address: the address with every leading
/// copy of the site base removed, then every trailing `'/'`.
pub open spec fn slug_of(href: Seq<char>, base: Seq<char>) -> Seq<char> {
    strip_trailing_slashes(strip_leading(href, base))
}

/// Derives an item's slug from its address and the site base address.
pub fn slug_from_href(href: &str, base: &str) -> (r: String)
    ensures
        r@ == slug_of(href@, base@),
{
    let n = href.unicode_len();
    let m = base.unicode_len();
    let mut start: usize = 0;
    let mut done = m == 0;
    assert(href@.skip(0) =~= href@);
    while !done
        invariant
            n == href@.len(),
            m == base@.len(),
            start <= n,
            !done ==> m > 0,
            done ==> strip_leading(href@.skip(start as int), base@) == href@.skip(start as int),
            strip_leading(href@.skip(start as int), base@) == strip_leading(href@, base@),
        decreases n - start, if done { 0int } else { 1int },
    {
        if m <= n - start {
            let mut k: usize = 0;
            while k < m && href.get_char(start + k) == base.get_char(k)
                invariant
                    n == href@.len(),
                    m == base@.len(),
                    start + m <= n,
                    k <= m,
                    forall|t: int| 0 <= t < k ==> href@[start + t] == base@[t],
                decreases m - k,
            {
                k = k + 1;
            }
            let ghost rest = href@.skip(start as int);
            if k == m {
                assert(rest.take(m as int) =~= base@);
                assert(rest.skip(m as int) =~= href@.skip(start + m));
                start = start + m;
            } else {
                assert(rest.take(m as int)[k as int] != base@[k as int]);
                done = true;
            }
        } else {
            done = true;
        }
    }
    let mut end: usize = n;
    while end > start && href.get_char(end - 1) == '/'
        invariant
            n == href@.len(),
            start <= end <= n,
            strip_trailing_slashes(href@.subrange(start as int, end as int))
                == slug_of(href@, base@),
        decreases end,
    {
        assert(href@.subrange(start as int, end as int).drop_last()
            =~= href@.subrange(start as int, end - 1));
        end = end - 1;
    }
    String::from_str(href.substring_char(start, end))
}


/// `c` has the Unicode `White_Space` property, as `char::is_whitespace`
/// documents it.
pub open spec fn is_space(c: char) -> bool {
    ('\u{9}' <= c && c <= '\u{d}') || c == ' ' || c == '\u{85}' || c == '\u{a0}' || c == '\u{1680}'
        || ('\u{2000}' <= c && c <= '\u{200a}') || c == '\u{2028}' || c == '\u{2029}'
        || c == '\u{202f}' || c == '\u{205f}' || c == '\u{3000}'
}

fn space(c: char) -> (r: bool)
    ensures
        r == is_space(c),
{
    ('\u{9}' <= c && c <= '\u{d}') || c == ' ' || c == '\u{85}' || c == '\u{a0}' || c == '\u{1680}'
        || ('\u{2000}' <= c && c <= '\u{200a}') || c == '\u{2028}' || c == '\u{2029}'
        || c == '\u{202f}' || c == '\u{205f}' || c == '\u{3000}'
}

/// `s` without its leading whitespace.
pub open spec fn trim_front(s: Seq<char>) -> Seq<char>
    decreases s.len(),
{
    if s.len() > 0 && is_space(s[0]) {
        trim_front(s.drop_first())
    } else {
        s
    }
}

/// `s` without its trailing whitespace.
pub open spec fn trim_back(s: Seq<char>) -> Seq<char>
    decreases s.len(),
{
    if s.len() > 0 && is_space(s.last()) {
        trim_back(s.drop_last())
    } else {
        s
    }
}

/// `s` without its leading and trailing whitespace.
pub open spec fn trimmed(s: Seq<char>) -> Seq<char> {
    trim_back(trim_front(s))
}

/// Removes leading and trailing whitespace.
pub fn trim_text(s: &str) -> (r: String)
    ensures
        r@ == trimmed(s@),
{
    let n = s.unicode_len();
    let mut i: usize = 0;
    assert(s@.skip(0) =~= s@);
    while i < n && space(s.get_char(i))
        invariant
            n == s@.len(),
            i <= n,
            trim_front(s@.skip(i as int)) == trim_front(s@),
        decreases n - i,
    {
        assert(s@.skip(i as int).drop_first() =~= s@.skip(i + 1));
        i = i + 1;
    }
    assert(s@.subrange(i as int, n as int) =~= s@.skip(i as int));
    let mut j: usize = n;
    while j > i && space(s.get_char(j - 1))
        invariant
            n == s@.len(),
            i <= j <= n,
            trim_back(s@.subrange(i as int, j as int)) == trimmed(s@),
        decreases j,
    {
        assert(s@.subrange(i as int, j as int).drop_last() =~= s@.subrange(i as int, j - 1));
        j = j - 1;
    }
    String::from_str(s.substring_char(i, j))
}

/// `s` with every occurrence of `p` removed, scanning left to right without
/// overlap.
pub open spec fn remove_all(s: Seq<char>, p: Seq<char>) -> Seq<char>
    decreases s.len(),
{
    if s.len() == 0 || p.len() == 0 {
        s
    } else if p.len() <= s.len() && s.take(p.len() as int) == p {
        remove_all(s.skip(p.len() as int), p)
    } else {
        seq![s[0]] + remove_all(s.drop_first(), p)
    }
}

/// Removes every occurrence of `p` from `s`, scanning left to right without
/// overlap.
pub fn remove_text(s: &str, p: &str) -> (r: String)
    requires
        p@.len() > 0,
    ensures
        r@ == remove_all(s@, p@),
{
    let n = s.unicode_len();
    let m = p.unicode_len();
    let mut out = String::new();
    let mut i: usize = 0;
    assert(s@.skip(0) =~= s@);
    while i < n
        invariant
            n == s@.len(),
            m == p@.len(),
            m > 0,
            i <= n,
            out@ + remove_all(s@.skip(i as int), p@) == remove_all(s@, p@),
        decreases n - i,
    {
        let ghost rest = s@.skip(i as int);
        let mut k: usize = 0;
        if m <= n - i {
            while k < m && s.get_char(i + k) == p.get_char(k)
                invariant
                    n == s@.len(),
                    m == p@.len(),
                    i + m <= n,
                    k <= m,
                    forall|t: int| 0 <= t < k ==> s@[i + t] == p@[t],
                decreases m - k,
            {
                k = k + 1;
            }
        }
        if k == m {
            assert(rest.take(m as int) =~= p@);
            assert(rest.skip(m as int) =~= s@.skip(i + m));
            i = i + m;
        } else {
            if m <= n - i {
                assert(rest.take(m as int)[k as int] != p@[k as int]);
            }
            assert(rest.drop_first() =~= s@.skip(i + 1));
            let c = s.substring_char(i, i + 1);
            assert(c@ =~= seq![rest[0]]);
            let ghost before = out@;
            out.append(c);
            assert(out@ + remove_all(s@.skip(i + 1), p@) =~= before + remove_all(rest, p@));
            i = i + 1;
        }
    }
    assert(s@.skip(n as int) =~= Seq::<char>::empty());
    assert(out@ =~= out@ + remove_all(s@.skip(n as int), p@));
    out
}

/// The decimal digits of `n`, most significant first, without leading zeros.
pub open spec fn decimal(n: nat) -> Seq<char>
    decreases n,
{
    if n < 10 {
        seq![digit_char(n)]
    } else {
        decimal(n / 10) + seq![digit_char(n % 10)]
    }
}

/// The character of a decimal digit.
pub open spec fn digit_char(d: nat) -> char {
    if d == 0 { '0' } else if d == 1 { '1' } else if d == 2 { '2' } else if d == 3 { '3' }
    else if d == 4 { '4' } else if d == 5 { '5' } else if d == 6 { '6' } else if d == 7 { '7' }
    else if d == 8 { '8' } else { '9' }
}

fn digit(d: u32) -> (c: &'static str)
    requires
        d < 10,
    ensures
        c@ == seq![digit_char(d as nat)],
{
    if d == 0 {
        proof { reveal_strlit("0"); }
        "0"
    } else if d == 1 {
        proof { reveal_strlit("1"); }
        "1"
    } else if d == 2 {
        proof { reveal_strlit("2"); }
        "2"
    } else if d == 3 {
        proof { reveal_strlit("3"); }
        "3"
    } else if d == 4 {
        proof { reveal_strlit("4"); }
        "4"
    } else if d == 5 {
        proof { reveal_strlit("5"); }
        "5"
    } else if d == 6 {
        proof { reveal_strlit("6"); }
        "6"
    } else if d == 7 {
        proof { reveal_strlit("7"); }
        "7"
    } else if d == 8 {
        proof { reveal_strlit("8"); }
        "8"
    } else {
        proof { reveal_strlit("9"); }
        "9"
    }
}

/// Writes `n` in decimal.
pub fn decimal_string(n: u32) -> (r: String)
    ensures
        r@ == decimal(n as nat),
    decreases n,
{
    if n < 10 {
        let r = String::from_str(digit(n));
        assert(r@ =~= decimal(n as nat));
        r
    } else {
        let mut r = decimal_string(n / 10);
        r.append(digit(n % 10));
        assert(r@ =~= decimal(n as nat));
        r
    }
}

} // verus!
