//! Character-level helpers shared by the parsers and the model: conversions
//! between `str` and `Vec<char>`, whitespace trimming, line splitting, field
//! splitting and decimal parsing, each stated over `Seq<char>`.
use vstd::prelude::*;
use vstd::string::*;

verus! {

broadcast use vstd::string::group_string_axioms;

/// The Unicode `White_Space` property, which `char::is_whitespace` reports.
pub open spec fn is_ws(c: char) -> bool {
    ||| ('\u{9}' <= c && c <= '\u{d}')
    ||| c == ' '
    ||| c == '\u{85}'
    ||| c == '\u{a0}'
    ||| c == '\u{1680}'
    ||| ('\u{2000}' <= c && c <= '\u{200a}')
    ||| c == '\u{2028}'
    ||| c == '\u{2029}'
    ||| c == '\u{202f}'
    ||| c == '\u{205f}'
    ||| c == '\u{3000}'
}

/// Whether `c` is whitespace, as `char::is_whitespace` decides it: true
/// exactly for the characters with the Unicode `White_Space` property.
fn char_is_whitespace(c: char) -> (r: bool)
    ensures
        r == is_ws(c),
{
    ('\u{9}' <= c && c <= '\u{d}') || c == ' ' || c == '\u{85}' || c == '\u{a0}' || c == '\u{1680}'
        || ('\u{2000}' <= c && c <= '\u{200a}') || c == '\u{2028}' || c == '\u{2029}' || c == '\u{202f}'
        || c == '\u{205f}' || c == '\u{3000}'
}

/// `String::push`: appends one character.
#[verifier::external_body]
pub(crate) fn push_char(s: &mut String, c: char)
    ensures
        final(s)@ == old(s)@.push(c),
{
    s.push(c)
}

/// `String::pop`: removes and returns the last character, if any.
#[verifier::external_body]
pub(crate) fn pop_char(s: &mut String) -> (r: Option<char>)
    ensures
        old(s)@.len() == 0 ==> r is None && final(s)@ == old(s)@,
        old(s)@.len() > 0 ==> r == Some(old(s)@.last()) && final(s)@ == old(s)@.drop_last(),
{
    s.pop()
}

/// The name for what `str::to_lowercase` returns: the Unicode lowercase
/// mapping of a string.
pub uninterp spec fn lowercase(s: Seq<char>) -> Seq<char>;

/// `str::to_lowercase`. Its result is a function of the argument alone, and
/// the empty string lowercases to the empty string; the Unicode mapping itself
/// is not restated here.
#[verifier::external_body]
pub(crate) fn to_lowercase(s: &str) -> (r: String)
    ensures
        r@ == lowercase(s@),
        s@.len() == 0 ==> r@.len() == 0,
{
    s.to_lowercase()
}

/// The characters of `s`, in order.
pub fn to_chars(s: &str) -> (v: Vec<char>)
    ensures
        v@ == s@,
{
    let mut v: Vec<char> = Vec::new();
    for c in it: s.chars()
        invariant
            v@ == it.seq().take(it.index()),
            it.seq() == s@,
    {
        v.push(c);
    }
    v
}

/// The string made of `v[lo..hi]`.
pub fn from_chars(v: &Vec<char>, lo: usize, hi: usize) -> (s: String)
    requires
        lo <= hi <= v.len(),
    ensures
        s@ == v@.subrange(lo as int, hi as int),
{
    let mut s = String::new();
    let mut i = lo;
    while i < hi
        invariant
            lo <= i <= hi <= v.len(),
            s@ == v@.subrange(lo as int, i as int),
        decreases hi - i,
    {
        push_char(&mut s, v[i]);
        i += 1;
        assert(s@ =~= v@.subrange(lo as int, i as int));
    }
    s
}

/// `s` without its leading whitespace.
pub open spec fn trim_start(s: Seq<char>) -> Seq<char>
    decreases s.len(),
{
    if s.len() > 0 && is_ws(s[0]) {
        trim_start(s.drop_first())
    } else {
        s
    }
}

/// `s` without its trailing whitespace.
pub open spec fn trim_end(s: Seq<char>) -> Seq<char>
    decreases s.len(),
{
    if s.len() > 0 && is_ws(s.last()) {
        trim_end(s.drop_last())
    } else {
        s
    }
}

/// `s` without leading and trailing whitespace, as `str::trim` gives it.
pub open spec fn trim(s: Seq<char>) -> Seq<char> {
    trim_end(trim_start(s))
}

/// The end of `v[lo..hi]` once trailing whitespace is dropped.
pub fn trim_end_range(v: &Vec<char>, lo: usize, hi: usize) -> (e: usize)
    requires
        lo <= hi <= v.len(),
    ensures
        lo <= e <= hi,
        v@.subrange(lo as int, e as int) == trim_end(v@.subrange(lo as int, hi as int)),
{
    let mut j = hi;
    while j > lo && char_is_whitespace(v[j - 1])
        invariant
            lo <= j <= hi <= v.len(),
            trim_end(v@.subrange(lo as int, hi as int)) == trim_end(v@.subrange(lo as int, j as int)),
        decreases j,
    {
        assert(v@.subrange(lo as int, j as int).drop_last() =~= v@.subrange(lo as int, j - 1));
        j -= 1;
    }
    j
}

/// The range of `v[lo..hi]` once leading and trailing whitespace is dropped.
pub fn trim_range(v: &Vec<char>, lo: usize, hi: usize) -> (r: (usize, usize))
    requires
        lo <= hi <= v.len(),
    ensures
        lo <= r.0 <= r.1 <= hi,
        v@.subrange(r.0 as int, r.1 as int) == trim(v@.subrange(lo as int, hi as int)),
{
    let mut i = lo;
    while i < hi && char_is_whitespace(v[i])
        invariant
            lo <= i <= hi <= v.len(),
            trim_start(v@.subrange(lo as int, hi as int)) == trim_start(v@.subrange(i as int, hi as int)),
        decreases hi - i,
    {
        assert(v@.subrange(i as int, hi as int).drop_first() =~= v@.subrange(i + 1, hi as int));
        i += 1;
    }
    let e = trim_end_range(v, i, hi);
    (i, e)
}

/// Index of the first `c` in `s`, or `s.len()` where there is none.
pub open spec fn index_of(s: Seq<char>, c: char) -> nat
    decreases s.len(),
{
    if s.len() == 0 {
        0
    } else if s[0] == c {
        0
    } else {
        1 + index_of(s.drop_first(), c)
    }
}

/// Index of the first `'\n'` in `s`, or `s.len()` where there is none.
pub open spec fn line_end(s: Seq<char>) -> nat {
    index_of(s, '\n')
}

/// A line without the `'\r'` that precedes its `'\n'`.
pub open spec fn strip_cr(line: Seq<char>) -> Seq<char> {
    if line.len() > 0 && line.last() == '\r' {
        line.drop_last()
    } else {
        line
    }
}

/// The lines of `s` as `str::lines` yields them: split at `"\n"` or `"\r\n"`,
/// without the line endings, and with no empty line after a final line ending.
pub open spec fn lines(s: Seq<char>) -> Seq<Seq<char>>
    decreases s.len(),
{
    if s.len() == 0 {
        seq![]
    } else if line_end(s) == s.len() {
        seq![s]
    } else {
        proof {
            lemma_line_end_bound(s);
        }
        seq![strip_cr(s.take(line_end(s) as int))] + lines(s.skip(line_end(s) + 1int))
    }
}

pub proof fn lemma_index_of_bound(s: Seq<char>, c: char)
    ensures
        index_of(s, c) <= s.len(),
        index_of(s, c) < s.len() ==> s[index_of(s, c) as int] == c,
        forall|k: int| 0 <= k < index_of(s, c) ==> s[k] != c,
    decreases s.len(),
{
    if s.len() > 0 && s[0] != c {
        lemma_index_of_bound(s.drop_first(), c);
        assert forall|k: int| 0 <= k < index_of(s, c) implies s[k] != c by {
            if k > 0 {
                assert(s[k] == s.drop_first()[k - 1]);
            }
        }
    }
}

pub proof fn lemma_line_end_bound(s: Seq<char>)
    ensures
        line_end(s) <= s.len(),
{
    lemma_index_of_bound(s, '\n');
}

proof fn lemma_index_of_scan(s: Seq<char>, c: char, k: int)
    requires
        0 <= k <= s.len(),
        forall|j: int| 0 <= j < k ==> s[j] != c,
        k == s.len() || s[k] == c,
    ensures
        index_of(s, c) == k,
    decreases s.len(),
{
    if s.len() > 0 && s[0] != c {
        assert forall|j: int| 0 <= j < k - 1 implies s.drop_first()[j] != c by {
            assert(s.drop_first()[j] == s[j + 1]);
        }
        if k < s.len() {
            assert(s.drop_first()[k - 1] == s[k]);
        }
        lemma_index_of_scan(s.drop_first(), c, k - 1);
    }
}

/// The first index `e` in `lo..hi` with `v[e] == c`, or `hi`; stated as
/// `index_of` on the range.
fn find_char(v: &Vec<char>, lo: usize, hi: usize, c: char) -> (e: usize)
    requires
        lo <= hi <= v.len(),
    ensures
        lo <= e <= hi,
        e - lo == index_of(v@.subrange(lo as int, hi as int), c),
{
    let mut e = lo;
    while e < hi && v[e] != c
        invariant
            lo <= e <= hi <= v.len(),
            forall|j: int| lo <= j < e ==> v@[j] != c,
        decreases hi - e,
    {
        e += 1;
    }
    proof {
        let s = v@.subrange(lo as int, hi as int);
        assert forall|j: int| 0 <= j < e - lo implies s[j] != c by {
            assert(s[j] == v@[lo + j]);
        }
        if e < hi {
            assert(s[e - lo] == v@[e as int]);
        }
        lemma_index_of_scan(s, c, e - lo);
    }
    e
}

/// The `(start, end)` ranges of the lines of `v`, as `lines` describes them.
pub fn line_ranges(v: &Vec<char>) -> (r: Vec<(usize, usize)>)
    ensures
        r@.len() == lines(v@).len(),
        forall|k: int|
            0 <= k < r@.len() ==> {
                &&& (#[trigger] r@[k]).0 <= r@[k].1 <= v@.len()
                &&& lines(v@)[k] == v@.subrange(r@[k].0 as int, r@[k].1 as int)
            },
{
    let n = v.len();
    let mut r: Vec<(usize, usize)> = Vec::new();
    let mut pos: usize = 0;
    assert(v@.skip(0) =~= v@);
    while pos < n
        invariant
            n == v@.len(),
            pos <= n,
            forall|k: int|
                0 <= k < r@.len() ==> (#[trigger] r@[k]).0 <= r@[k].1 <= n,
            lines(v@) =~= r@.map_values(|p: (usize, usize)| v@.subrange(p.0 as int, p.1 as int))
                + lines(v@.skip(pos as int)),
        decreases n - pos,
    {
        let ghost rest = v@.skip(pos as int);
        let e = find_char(v, pos, n, '\n');
        assert(rest =~= v@.subrange(pos as int, n as int));
        let ghost old_r = r@;
        if e == n {
            r.push((pos, e));
            assert(rest =~= v@.subrange(pos as int, e as int));
            assert(lines(v@.skip(n as int)) =~= Seq::<Seq<char>>::empty()) by {
                assert(v@.skip(n as int).len() == 0);
            }
            assert(r@.map_values(|p: (usize, usize)| v@.subrange(p.0 as int, p.1 as int))
                =~= old_r.map_values(|p: (usize, usize)| v@.subrange(p.0 as int, p.1 as int))
                + seq![rest]);
            pos = n;
        } else {
            let line_hi = if e > pos && v[e - 1] == '\r' { e - 1 } else { e };
            r.push((pos, line_hi));
            assert(rest.take(e - pos) =~= v@.subrange(pos as int, e as int));
            assert(strip_cr(rest.take(e - pos)) =~= v@.subrange(pos as int, line_hi as int));
            assert(rest.skip(e - pos + 1) =~= v@.skip(e + 1));
            assert(r@.map_values(|p: (usize, usize)| v@.subrange(p.0 as int, p.1 as int))
                =~= old_r.map_values(|p: (usize, usize)| v@.subrange(p.0 as int, p.1 as int))
                + seq![strip_cr(rest.take(e - pos))]);
            pos = e + 1;
        }
    }
    assert(lines(v@.skip(n as int)) =~= Seq::<Seq<char>>::empty()) by {
        assert(v@.skip(n as int).len() == 0);
    }
    proof {
        assert forall|k: int| 0 <= k < r@.len() implies lines(v@)[k]
            == v@.subrange((#[trigger] r@[k]).0 as int, r@[k].1 as int) by {
            assert(lines(v@)[k] == r@.map_values(|p: (usize, usize)| v@.subrange(p.0 as int, p.1 as int))[k]);
        }
    }
    r
}

/// The pieces of `s` that `str::splitn(n, sep)` yields: at most `n` pieces,
/// split at the first `n - 1` separators, the last piece holding the rest.
pub open spec fn splitn(s: Seq<char>, n: nat, sep: char) -> Seq<Seq<char>>
    decreases n,
{
    if n == 0 {
        seq![]
    } else if n == 1 || index_of(s, sep) == s.len() {
        seq![s]
    } else {
        proof {
            lemma_index_of_bound(s, sep);
        }
        seq![s.take(index_of(s, sep) as int)] + splitn(
            s.skip(index_of(s, sep) + 1int),
            (n - 1) as nat,
            sep,
        )
    }
}

/// The `(start, end)` ranges of the pieces of `v[lo..hi]` split by `sep` into
/// at most `n` pieces, as `splitn` describes them.
pub fn split_ranges(v: &Vec<char>, lo: usize, hi: usize, n: usize, sep: char) -> (r: Vec<(usize, usize)>)
    requires
        lo <= hi <= v.len(),
    ensures
        r@.len() == splitn(v@.subrange(lo as int, hi as int), n as nat, sep).len(),
        forall|k: int|
            0 <= k < r@.len() ==> {
                &&& lo <= (#[trigger] r@[k]).0 <= r@[k].1 <= hi
                &&& splitn(v@.subrange(lo as int, hi as int), n as nat, sep)[k]
                    == v@.subrange(r@[k].0 as int, r@[k].1 as int)
            },
{
    let mut r: Vec<(usize, usize)> = Vec::new();
    if n == 0 {
        return r;
    }
    let mut pos = lo;
    let mut left = n;
    let mut done = false;
    while left > 1 && !done
        invariant
            lo <= pos <= hi <= v.len(),
            1 <= left <= n,
            forall|k: int| 0 <= k < r@.len() ==> lo <= (#[trigger] r@[k]).0 <= r@[k].1 <= hi,
            splitn(v@.subrange(lo as int, hi as int), n as nat, sep) =~= r@.map_values(
                |p: (usize, usize)| v@.subrange(p.0 as int, p.1 as int),
            ) + splitn(v@.subrange(pos as int, hi as int), left as nat, sep),
            done ==> splitn(v@.subrange(pos as int, hi as int), left as nat, sep) == seq![
                v@.subrange(pos as int, hi as int),
            ],
        decreases left, if done { 0int } else { 1int },
    {
        let e = find_char(v, pos, hi, sep);
        if e == hi {
            done = true;
        } else {
            let ghost old_r = r@;
            let ghost rest = v@.subrange(pos as int, hi as int);
            assert(index_of(rest, sep) < rest.len());
            r.push((pos, e));
            assert(rest.take(e - pos) =~= v@.subrange(pos as int, e as int));
            assert(rest.skip(e - pos + 1) =~= v@.subrange(e + 1, hi as int));
            assert(r@.map_values(|p: (usize, usize)| v@.subrange(p.0 as int, p.1 as int))
                =~= old_r.map_values(|p: (usize, usize)| v@.subrange(p.0 as int, p.1 as int))
                + seq![rest.take(e - pos)]);
            pos = e + 1;
            left -= 1;
        }
    }
    let ghost old_r = r@;
    r.push((pos, hi));
    assert(r@.map_values(|p: (usize, usize)| v@.subrange(p.0 as int, p.1 as int))
        =~= old_r.map_values(|p: (usize, usize)| v@.subrange(p.0 as int, p.1 as int))
        + seq![v@.subrange(pos as int, hi as int)]);
    proof {
        let whole = splitn(v@.subrange(lo as int, hi as int), n as nat, sep);
        assert forall|k: int| 0 <= k < r@.len() implies whole[k]
            == v@.subrange((#[trigger] r@[k]).0 as int, r@[k].1 as int) by {
            assert(whole[k] == r@.map_values(|p: (usize, usize)| v@.subrange(p.0 as int, p.1 as int))[k]);
        }
    }
    r
}

/// Whether `c` is an ASCII decimal digit.
pub open spec fn is_digit(c: char) -> bool {
    '0' <= c && c <= '9'
}

/// The value of a string of decimal digits.
pub open spec fn digits_value(s: Seq<char>) -> nat
    decreases s.len(),
{
    if s.len() == 0 {
        0
    } else {
        digits_value(s.drop_last()) * 10 + (s.last() as nat - '0' as nat) as nat
    }
}

/// The digits of an unsigned decimal literal: `s` without one leading `'+'`.
pub open spec fn unsigned_digits(s: Seq<char>) -> Seq<char> {
    if s.len() > 0 && s[0] == '+' {
        s.drop_first()
    } else {
        s
    }
}

/// The value of `s` as an unsigned decimal, as `str::parse` reads an unsigned
/// integer: an optional `'+'` then at least one ASCII digit, and nothing else;
/// `None` for any other text.
pub open spec fn decimal_value(s: Seq<char>) -> Option<nat> {
    let d = unsigned_digits(s);
    if d.len() > 0 && (forall|i: int| 0 <= i < d.len() ==> is_digit(#[trigger] d[i])) {
        Some(digits_value(d))
    } else {
        None
    }
}

/// `s` parsed as a `u32` (`str::parse::<u32>`), `None` where it fails.
pub open spec fn parse_u32(s: Seq<char>) -> Option<u32> {
    match decimal_value(s) {
        Some(v) => if v <= u32::MAX {
            Some(v as u32)
        } else {
            None
        },
        None => None,
    }
}

/// `s` parsed as a `u8` (`str::parse::<u8>`), `None` where it fails.
pub open spec fn parse_u8(s: Seq<char>) -> Option<u8> {
    match decimal_value(s) {
        Some(v) => if v <= u8::MAX {
            Some(v as u8)
        } else {
            None
        },
        None => None,
    }
}

proof fn lemma_digits_value_monotone(s: Seq<char>, i: int)
    requires
        0 <= i <= s.len(),
        forall|k: int| 0 <= k < s.len() ==> is_digit(#[trigger] s[k]),
    ensures
        digits_value(s.take(i)) <= digits_value(s),
    decreases s.len() - i,
{
    if i < s.len() {
        lemma_digits_value_monotone(s, i + 1);
        assert(s.take(i + 1).drop_last() =~= s.take(i));
        assert(s.take(i + 1).last() == s[i]);
    } else {
        assert(s.take(i) =~= s);
    }
}

/// The decimal value of `v[lo..hi]`, as `decimal_value` states it, where it is
/// at most `max`; `None` otherwise.
pub fn parse_decimal(v: &Vec<char>, lo: usize, hi: usize, max: u32) -> (r: Option<u32>)
    requires
        lo <= hi <= v.len(),
    ensures
        r == (match decimal_value(v@.subrange(lo as int, hi as int)) {
            Some(x) => if x <= max {
                Some(x as u32)
            } else {
                None
            },
            None => None,
        }),
{
    let ghost s = v@.subrange(lo as int, hi as int);
    let start = if lo < hi && v[lo] == '+' { lo + 1 } else { lo };
    let ghost d = v@.subrange(start as int, hi as int);
    assert(unsigned_digits(s) =~= d);
    if start == hi {
        return None;
    }
    let mut i = start;
    while i < hi
        invariant
            start <= i <= hi <= v.len(),
            d == v@.subrange(start as int, hi as int),
            s == v@.subrange(lo as int, hi as int),
            unsigned_digits(s) == d,
            forall|k: int| start <= k < i ==> is_digit(#[trigger] v@[k]),
        decreases hi - i,
    {
        if !('0' <= v[i] && v[i] <= '9') {
            assert(d[i - start] == v@[i as int]);
            assert(!is_digit(d[i - start]));
            return None;
        }
        i += 1;
    }
    assert(forall|k: int| 0 <= k < d.len() ==> is_digit(#[trigger] d[k])) by {
        assert forall|k: int| 0 <= k < d.len() implies is_digit(#[trigger] d[k]) by {
            assert(d[k] == v@[start + k]);
        }
    }
    let mut acc: u64 = 0;
    let mut j = start;
    assert(d.take(0) =~= Seq::<char>::empty());
    while j < hi
        invariant
            start <= j <= hi <= v.len(),
            d == v@.subrange(start as int, hi as int),
            s == v@.subrange(lo as int, hi as int),
            unsigned_digits(s) == d,
            d.len() > 0,
            forall|k: int| 0 <= k < d.len() ==> is_digit(#[trigger] d[k]),
            acc == digits_value(d.take(j - start)),
            acc <= max,
        decreases hi - j,
    {
        assert(d[j - start] == v@[j as int]);
        let digit = (v[j] as u32 - '0' as u32) as u64;
        acc = acc * 10 + digit;
        assert(d.take(j - start + 1).drop_last() =~= d.take(j - start));
        assert(d.take(j - start + 1).last() == v@[j as int]);
        assert(acc == digits_value(d.take(j - start + 1)));
        j += 1;
        if acc > max as u64 {
            proof {
                lemma_digits_value_monotone(d, j - start);
            }
            return None;
        }
    }
    assert(d.take(j - start) =~= d);
    Some(acc as u32)
}

/// Whether `pat` occurs in `s` as a contiguous run.
pub open spec fn contains_seq(s: Seq<char>, pat: Seq<char>) -> bool {
    exists|i: int| 0 <= i && i + pat.len() <= s.len() && #[trigger] s.subrange(i, i + pat.len()) == pat
}

/// Whether `pat` occurs in `s` (`str::contains` with a string pattern).
pub fn contains_str(s: &str, pat: &str) -> (r: bool)
    ensures
        r == contains_seq(s@, pat@),
{
    let sv = to_chars(s);
    let pv = to_chars(pat);
    let n = sv.len();
    let m = pv.len();
    if m > n {
        assert forall|i: int| 0 <= i && i + m <= n implies #[trigger] s@.subrange(i, i + pat@.len()) != pat@ by {}
        return false;
    }
    let mut i: usize = 0;
    while i <= n - m
        invariant
            sv@ == s@,
            pv@ == pat@,
            n == s@.len(),
            m == pat@.len(),
            m <= n,
            i <= n - m + 1,
            forall|k: int| 0 <= k < i ==> #[trigger] s@.subrange(k, k + m) != pat@,
        decreases n - i,
    {
        let mut j: usize = 0;
        while j < m && sv[i + j] == pv[j]
            invariant
                sv@ == s@,
                pv@ == pat@,
                i + m <= n,
                n == sv@.len(),
                m == pv@.len(),
                j <= m,
                forall|k: int| 0 <= k < j ==> sv@[i + k] == pv@[k],
            decreases m - j,
        {
            j += 1;
        }
        if j == m {
            assert(s@.subrange(i as int, i + m) =~= pat@);
            return true;
        }
        assert(s@.subrange(i as int, i + m)[j as int] != pat@[j as int]);
        i += 1;
    }
    false
}

/// Whether `a` and `b` hold the same characters (`str` equality).
pub fn same_text(a: &str, b: &str) -> (r: bool)
    ensures
        r == (a@ == b@),
{
    let n = a.unicode_len();
    let m = b.unicode_len();
    if n != m {
        return false;
    }
    let av = to_chars(a);
    let bv = to_chars(b);
    let mut i: usize = 0;
    while i < n
        invariant
            n == av@.len(),
            m == bv@.len(),
            av@ == a@,
            bv@ == b@,
            n == m,
            i <= n,
            forall|j: int| 0 <= j < i ==> av@[j] == bv@[j],
        decreases n - i,
    {
        if av[i] != bv[i] {
            return false;
        }
        i += 1;
    }
    assert(a@ =~= b@);
    true
}

/// A copy of a list of strings.
pub fn clone_lines(v: &Vec<String>) -> (r: Vec<String>)
    ensures
        r@ == v@,
{
    let mut r: Vec<String> = Vec::new();
    let mut i: usize = 0;
    while i < v.len()
        invariant
            i <= v@.len(),
            r@ == v@.take(i as int),
        decreases v@.len() - i,
    {
        r.push(v[i].clone());
        assert(r@ =~= v@.take(i + 1));
        i += 1;
    }
    assert(v@.take(i as int) =~= v@);
    r
}

/// A copy of an optional string.
pub fn clone_opt(o: &Option<String>) -> (r: Option<String>)
    ensures
        r == *o,
{
    match o {
        Some(s) => Some(s.clone()),
        None => None,
    }
}

/// The pieces of `s` between the separators `sep` (`str::split`).
pub open spec fn split(s: Seq<char>, sep: char) -> Seq<Seq<char>>
    decreases s.len(),
{
    if index_of(s, sep) >= s.len() {
        seq![s]
    } else {
        seq![s.take(index_of(s, sep) as int)] + split(s.skip(index_of(s, sep) + 1int), sep)
    }
}

/// The `(start, end)` ranges of the pieces of `v[lo..hi]` between the
/// separators `sep`, as `split` describes them.
pub fn split_all_ranges(v: &Vec<char>, lo: usize, hi: usize, sep: char) -> (r: Vec<(usize, usize)>)
    requires
        lo <= hi <= v.len(),
    ensures
        r@.len() == split(v@.subrange(lo as int, hi as int), sep).len(),
        forall|k: int|
            0 <= k < r@.len() ==> {
                &&& lo <= (#[trigger] r@[k]).0 <= r@[k].1 <= hi
                &&& split(v@.subrange(lo as int, hi as int), sep)[k] == v@.subrange(
                    r@[k].0 as int,
                    r@[k].1 as int,
                )
            },
{
    let mut r: Vec<(usize, usize)> = Vec::new();
    let mut pos = lo;
    let mut done = false;
    while !done
        invariant
            lo <= pos <= hi <= v.len(),
            forall|k: int| 0 <= k < r@.len() ==> lo <= (#[trigger] r@[k]).0 <= r@[k].1 <= hi,
            !done ==> split(v@.subrange(lo as int, hi as int), sep) =~= r@.map_values(
                |p: (usize, usize)| v@.subrange(p.0 as int, p.1 as int),
            ) + split(v@.subrange(pos as int, hi as int), sep),
            done ==> split(v@.subrange(lo as int, hi as int), sep) =~= r@.map_values(
                |p: (usize, usize)| v@.subrange(p.0 as int, p.1 as int),
            ),
        decreases hi - pos, if done {
            0int
        } else {
            1int
        },
    {
        let e = find_char(v, pos, hi, sep);
        let ghost old_r = r@;
        let ghost rest = v@.subrange(pos as int, hi as int);
        proof {
            lemma_index_of_bound(rest, sep);
        }
        if e == hi {
            r.push((pos, hi));
            assert(r@.map_values(|p: (usize, usize)| v@.subrange(p.0 as int, p.1 as int))
                =~= old_r.map_values(|p: (usize, usize)| v@.subrange(p.0 as int, p.1 as int))
                + seq![rest]);
            done = true;
        } else {
            r.push((pos, e));
            assert(rest.take(e - pos) =~= v@.subrange(pos as int, e as int));
            assert(rest.skip(e - pos + 1) =~= v@.subrange(e + 1, hi as int));
            assert(r@.map_values(|p: (usize, usize)| v@.subrange(p.0 as int, p.1 as int))
                =~= old_r.map_values(|p: (usize, usize)| v@.subrange(p.0 as int, p.1 as int))
                + seq![rest.take(e - pos)]);
            pos = e + 1;
        }
    }
    proof {
        let whole = split(v@.subrange(lo as int, hi as int), sep);
        assert forall|k: int| 0 <= k < r@.len() implies whole[k] == v@.subrange(
            (#[trigger] r@[k]).0 as int,
            r@[k].1 as int,
        ) by {
            assert(whole[k] == r@.map_values(|p: (usize, usize)| v@.subrange(p.0 as int, p.1 as int))[k]);
        }
    }
    r
}

} // verus!
