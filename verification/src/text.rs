//! Character-level text handling shared by the parsers: whitespace trimming,
//! splitting on a separator, line splitting, decimal integer formatting and
//! decimal integer parsing, each with the meaning Rust's `str` methods give
//! them, stated over `Seq<char>`.
use vstd::prelude::*;

verus! {

// ── Whitespace ────────────────────────────────────────────────────────────────

/// Unicode `White_Space` (the property behind `char::is_whitespace`).
pub open spec fn is_ws(c: char) -> bool {
    let u = c as u32;
    ||| 0x09 <= u <= 0x0D
    ||| u == 0x20
    ||| u == 0x85
    ||| u == 0xA0
    ||| u == 0x1680
    ||| 0x2000 <= u <= 0x200A
    ||| u == 0x2028
    ||| u == 0x2029
    ||| u == 0x202F
    ||| u == 0x205F
    ||| u == 0x3000
}

pub fn char_is_ws(c: char) -> (b: bool)
    ensures
        b == is_ws(c),
{
    let u = c as u32;
    (0x09 <= u && u <= 0x0D) || u == 0x20 || u == 0x85 || u == 0xA0 || u == 0x1680 || (0x2000
        <= u && u <= 0x200A) || u == 0x2028 || u == 0x2029 || u == 0x202F || u == 0x205F || u
        == 0x3000
}

/// `str::trim_start`.
pub open spec fn trim_start(s: Seq<char>) -> Seq<char>
    decreases s.len(),
{
    if s.len() > 0 && is_ws(s[0]) {
        trim_start(s.drop_first())
    } else {
        s
    }
}

/// `str::trim_end`.
pub open spec fn trim_end(s: Seq<char>) -> Seq<char>
    decreases s.len(),
{
    if s.len() > 0 && is_ws(s.last()) {
        trim_end(s.drop_last())
    } else {
        s
    }
}

/// `str::trim`.
pub open spec fn trim(s: Seq<char>) -> Seq<char> {
    trim_end(trim_start(s))
}

proof fn lemma_trim_start_at(s: Seq<char>, i: int)
    requires
        0 <= i <= s.len(),
        forall|k: int| 0 <= k < i ==> is_ws(#[trigger] s[k]),
    ensures
        trim_start(s) == trim_start(s.subrange(i, s.len() as int)),
    decreases i,
{
    if i > 0 {
        assert(s.drop_first() =~= s.subrange(1, s.len() as int));
        lemma_trim_start_at(s.drop_first(), i - 1);
        assert(s.drop_first().subrange(i - 1, s.drop_first().len() as int) =~= s.subrange(
            i,
            s.len() as int,
        ));
    } else {
        assert(s.subrange(0, s.len() as int) =~= s);
    }
}

proof fn lemma_trim_end_at(s: Seq<char>, j: int)
    requires
        0 <= j <= s.len(),
        forall|k: int| j <= k < s.len() ==> is_ws(#[trigger] s[k]),
    ensures
        trim_end(s) == trim_end(s.subrange(0, j)),
    decreases s.len() - j,
{
    if j < s.len() {
        assert(s.drop_last() =~= s.subrange(0, s.len() - 1));
        lemma_trim_end_at(s.drop_last(), j);
        assert(s.drop_last().subrange(0, j) =~= s.subrange(0, j));
    } else {
        assert(s.subrange(0, j) =~= s);
    }
}

/// The bounds of `trim(v[lo..hi])` inside `v`.
pub fn trim_range(v: &Vec<char>, lo: usize, hi: usize) -> (r: (usize, usize))
    requires
        lo <= hi <= v.len(),
    ensures
        lo <= r.0 <= r.1 <= hi,
        v@.subrange(r.0 as int, r.1 as int) == trim(v@.subrange(lo as int, hi as int)),
{
    let ghost s = v@.subrange(lo as int, hi as int);
    let mut i: usize = lo;
    while i < hi && char_is_ws(v[i])
        invariant
            lo <= i <= hi <= v.len(),
            s == v@.subrange(lo as int, hi as int),
            forall|k: int| lo <= k < i ==> is_ws(#[trigger] v@[k]),
        decreases hi - i,
    {
        i = i + 1;
    }
    proof {
        assert forall|k: int| 0 <= k < i - lo implies is_ws(#[trigger] s[k]) by {
            assert(s[k] == v@[lo + k]);
        }
        lemma_trim_start_at(s, i - lo);
        assert(s.subrange(i - lo, s.len() as int) =~= v@.subrange(i as int, hi as int));
    }
    let ghost t = v@.subrange(i as int, hi as int);
    // trim_start(s) == t, with t empty or t[0] not whitespace
    assert(trim_start(t) == t) by {
        if t.len() > 0 {
            assert(t[0] == v@[i as int]);
        }
    }
    let mut j: usize = hi;
    while j > i && char_is_ws(v[j - 1])
        invariant
            lo <= i <= j <= hi <= v.len(),
            t == v@.subrange(i as int, hi as int),
            forall|k: int| j <= k < hi ==> is_ws(#[trigger] v@[k]),
        decreases j - i,
    {
        j = j - 1;
    }
    proof {
        assert forall|k: int| j - i <= k < t.len() implies is_ws(#[trigger] t[k]) by {
            assert(t[k] == v@[i + k]);
        }
        lemma_trim_end_at(t, j - i);
        let u = t.subrange(0, j - i);
        assert(u =~= v@.subrange(i as int, j as int));
        if u.len() > 0 {
            assert(u.last() == v@[j - 1]);
        }
        assert(trim_end(u) == u);
    }
    (i, j)
}

// ── Prefixes ──────────────────────────────────────────────────────────────────

pub open spec fn starts_with(s: Seq<char>, p: Seq<char>) -> bool {
    p.len() <= s.len() && s.subrange(0, p.len() as int) == p
}

/// Whether `v[lo..hi]` starts with `p`.
pub fn range_starts_with(v: &Vec<char>, lo: usize, hi: usize, p: &Vec<char>) -> (b: bool)
    requires
        lo <= hi <= v.len(),
    ensures
        b == starts_with(v@.subrange(lo as int, hi as int), p@),
{
    if p.len() > hi - lo {
        return false;
    }
    let mut k: usize = 0;
    while k < p.len()
        invariant
            lo <= hi <= v.len(),
            p.len() <= hi - lo,
            0 <= k <= p.len(),
            forall|m: int| 0 <= m < k ==> v@[lo + m] == p@[m],
        decreases p.len() - k,
    {
        if v[lo + k] != p[k] {
            proof {
                let s = v@.subrange(lo as int, hi as int);
                assert(s.subrange(0, p.len() as int)[k as int] != p@[k as int]);
            }
            return false;
        }
        k = k + 1;
    }
    assert(v@.subrange(lo as int, hi as int).subrange(0, p.len() as int) =~= p@);
    true
}

/// Whether the ranges `v[a..b]` and `w[c..d]` hold the same characters.
pub fn range_eq(v: &Vec<char>, a: usize, b: usize, w: &Vec<char>, c: usize, d: usize) -> (r: bool)
    requires
        a <= b <= v.len(),
        c <= d <= w.len(),
    ensures
        r == (v@.subrange(a as int, b as int) == w@.subrange(c as int, d as int)),
{
    let ghost sv = v@.subrange(a as int, b as int);
    let ghost sw = w@.subrange(c as int, d as int);
    if b - a != d - c {
        assert(sv.len() != sw.len());
        return false;
    }
    let mut k: usize = 0;
    while k < b - a
        invariant
            a <= b <= v.len(),
            c <= d <= w.len(),
            b - a == d - c,
            sv == v@.subrange(a as int, b as int),
            sw == w@.subrange(c as int, d as int),
            0 <= k <= b - a,
            forall|m: int| 0 <= m < k ==> #[trigger] sv[m] == sw[m],
        decreases b - a - k,
    {
        if v[a + k] != w[c + k] {
            assert(sv[k as int] != sw[k as int]);
            return false;
        }
        k = k + 1;
    }
    assert(sv =~= sw);
    true
}

// ── Searching and splitting ───────────────────────────────────────────────────

/// Index of the first `c` in `s`, or -1.
pub open spec fn find(s: Seq<char>, c: char) -> int
    decreases s.len(),
{
    if s.len() == 0 {
        -1
    } else if s[0] == c {
        0
    } else {
        let r = find(s.drop_first(), c);
        if r < 0 {
            -1
        } else {
            r + 1
        }
    }
}

pub proof fn lemma_find_at(s: Seq<char>, c: char, j: int)
    requires
        0 <= j < s.len(),
        s[j] == c,
        forall|k: int| 0 <= k < j ==> s[k] != c,
    ensures
        find(s, c) == j,
    decreases j,
{
    if j > 0 {
        lemma_find_at(s.drop_first(), c, j - 1);
    }
}

pub proof fn lemma_find_none(s: Seq<char>, c: char)
    requires
        forall|k: int| 0 <= k < s.len() ==> s[k] != c,
    ensures
        find(s, c) == -1,
    decreases s.len(),
{
    if s.len() > 0 {
        lemma_find_none(s.drop_first(), c);
    }
}

pub proof fn lemma_find_bounds(s: Seq<char>, c: char)
    ensures
        -1 <= find(s, c) < s.len(),
        find(s, c) >= 0 ==> s[find(s, c)] == c,
        find(s, c) >= 0 ==> forall|k: int| 0 <= k < find(s, c) ==> s[k] != c,
        find(s, c) < 0 ==> forall|k: int| 0 <= k < s.len() ==> s[k] != c,
    decreases s.len(),
{
    if s.len() > 0 && s[0] != c {
        lemma_find_bounds(s.drop_first(), c);
        let r = find(s.drop_first(), c);
        if r >= 0 {
            assert forall|k: int| 0 <= k < r + 1 implies s[k] != c by {
                if k > 0 {
                    assert(s[k] == s.drop_first()[k - 1]);
                }
            }
        } else {
            assert forall|k: int| 0 <= k < s.len() implies s[k] != c by {
                if k > 0 {
                    assert(s[k] == s.drop_first()[k - 1]);
                }
            }
        }
    }
}

/// `str::split(c)`: every piece between occurrences of `c`.
pub open spec fn split(s: Seq<char>, c: char) -> Seq<Seq<char>>
    decreases s.len(),
{
    let j = find(s, c);
    if j < 0 || j >= s.len() {
        seq![s]
    } else {
        seq![s.take(j)] + split(s.skip(j + 1), c)
    }
}

/// `str::splitn(n, c)` for `n >= 1`: at most `n` pieces, the last one holding the rest.
pub open spec fn splitn(s: Seq<char>, n: nat, c: char) -> Seq<Seq<char>>
    decreases n,
{
    let j = find(s, c);
    if n <= 1 || j < 0 || j >= s.len() {
        seq![s]
    } else {
        seq![s.take(j)] + splitn(s.skip(j + 1), (n - 1) as nat, c)
    }
}

/// The view of a list of ranges into `v`.
pub open spec fn pieces_of(v: Seq<char>, rs: Seq<(usize, usize)>) -> Seq<Seq<char>> {
    Seq::new(rs.len(), |i: int| v.subrange(rs[i].0 as int, rs[i].1 as int))
}

pub open spec fn ranges_within(rs: Seq<(usize, usize)>, lo: int, hi: int) -> bool {
    forall|i: int| 0 <= i < rs.len() ==> lo <= (#[trigger] rs[i]).0 <= rs[i].1 <= hi
}

proof fn lemma_split_step(v: Seq<char>, start: int, j: int, hi: int, c: char)
    requires
        0 <= start <= j < hi <= v.len(),
        v[j] == c,
        forall|k: int| start <= k < j ==> v[k] != c,
    ensures
        split(v.subrange(start, hi), c) == seq![v.subrange(start, j)] + split(
            v.subrange(j + 1, hi),
            c,
        ),
{
    let s = v.subrange(start, hi);
    lemma_find_at(s, c, j - start);
    assert(s.take(j - start) =~= v.subrange(start, j));
    assert(s.skip(j - start + 1) =~= v.subrange(j + 1, hi));
}

proof fn lemma_split_last(v: Seq<char>, start: int, hi: int, c: char)
    requires
        0 <= start <= hi <= v.len(),
        forall|k: int| start <= k < hi ==> v[k] != c,
    ensures
        split(v.subrange(start, hi), c) == seq![v.subrange(start, hi)],
{
    let s = v.subrange(start, hi);
    lemma_find_none(s, c);
}

proof fn lemma_splitn_step(v: Seq<char>, start: int, j: int, hi: int, n: nat, c: char)
    requires
        n >= 2,
        0 <= start <= j < hi <= v.len(),
        v[j] == c,
        forall|k: int| start <= k < j ==> v[k] != c,
    ensures
        splitn(v.subrange(start, hi), n, c) == seq![v.subrange(start, j)] + splitn(
            v.subrange(j + 1, hi),
            (n - 1) as nat,
            c,
        ),
{
    let s = v.subrange(start, hi);
    lemma_find_at(s, c, j - start);
    assert(s.take(j - start) =~= v.subrange(start, j));
    assert(s.skip(j - start + 1) =~= v.subrange(j + 1, hi));
}

proof fn lemma_splitn_last(v: Seq<char>, start: int, hi: int, n: nat, c: char)
    requires
        0 <= start <= hi <= v.len(),
        n <= 1 || forall|k: int| start <= k < hi ==> v[k] != c,
    ensures
        splitn(v.subrange(start, hi), n, c) == seq![v.subrange(start, hi)],
{
    let s = v.subrange(start, hi);
    if n > 1 {
        lemma_find_none(s, c);
    }
}

/// The pieces of `v[lo..hi].split(c)`, as ranges into `v`.
pub fn split_ranges(v: &Vec<char>, lo: usize, hi: usize, c: char) -> (rs: Vec<(usize, usize)>)
    requires
        lo <= hi <= v.len(),
    ensures
        ranges_within(rs@, lo as int, hi as int),
        pieces_of(v@, rs@) == split(v@.subrange(lo as int, hi as int), c),
{
    let mut rs: Vec<(usize, usize)> = Vec::new();
    let mut start: usize = lo;
    let mut j: usize = lo;
    while j < hi
        invariant
            lo <= start <= j <= hi <= v.len(),
            ranges_within(rs@, lo as int, hi as int),
            forall|k: int| start <= k < j ==> v@[k] != c,
            split(v@.subrange(lo as int, hi as int), c) == pieces_of(v@, rs@) + split(
                v@.subrange(start as int, hi as int),
                c,
            ),
        decreases hi - j,
    {
        if v[j] == c {
            proof {
                lemma_split_step(v@, start as int, j as int, hi as int, c);
            }
            let ghost old_rs = rs@;
            rs.push((start, j));
            proof {
                assert(pieces_of(v@, rs@) =~= pieces_of(v@, old_rs) + seq![
                    v@.subrange(start as int, j as int),
                ]);
            }
            start = j + 1;
        }
        j = j + 1;
    }
    proof {
        lemma_split_last(v@, start as int, hi as int, c);
    }
    let ghost old_rs = rs@;
    rs.push((start, hi));
    proof {
        assert(pieces_of(v@, rs@) =~= pieces_of(v@, old_rs) + seq![
            v@.subrange(start as int, hi as int),
        ]);
    }
    rs
}

/// The pieces of `v[lo..hi].splitn(n, c)`, as ranges into `v`.
pub fn splitn_ranges(v: &Vec<char>, lo: usize, hi: usize, n: usize, c: char) -> (rs: Vec<
    (usize, usize),
>)
    requires
        lo <= hi <= v.len(),
        n >= 1,
    ensures
        ranges_within(rs@, lo as int, hi as int),
        pieces_of(v@, rs@) == splitn(v@.subrange(lo as int, hi as int), n as nat, c),
{
    let mut rs: Vec<(usize, usize)> = Vec::new();
    let mut start: usize = lo;
    let mut j: usize = lo;
    let mut left: usize = n;
    while j < hi && left > 1
        invariant
            lo <= start <= j <= hi <= v.len(),
            1 <= left <= n,
            ranges_within(rs@, lo as int, hi as int),
            forall|k: int| start <= k < j ==> v@[k] != c,
            splitn(v@.subrange(lo as int, hi as int), n as nat, c) == pieces_of(v@, rs@)
                + splitn(v@.subrange(start as int, hi as int), left as nat, c),
        decreases hi - j,
    {
        if v[j] == c {
            proof {
                lemma_splitn_step(v@, start as int, j as int, hi as int, left as nat, c);
            }
            let ghost old_rs = rs@;
            rs.push((start, j));
            proof {
                assert(pieces_of(v@, rs@) =~= pieces_of(v@, old_rs) + seq![
                    v@.subrange(start as int, j as int),
                ]);
            }
            start = j + 1;
            left = left - 1;
        }
        j = j + 1;
    }
    proof {
        lemma_splitn_last(v@, start as int, hi as int, left as nat, c);
    }
    let ghost old_rs = rs@;
    rs.push((start, hi));
    proof {
        assert(pieces_of(v@, rs@) =~= pieces_of(v@, old_rs) + seq![
            v@.subrange(start as int, hi as int),
        ]);
    }
    rs
}

// ── Lines ─────────────────────────────────────────────────────────────────────

/// Drops one trailing `'\r'`.
pub open spec fn strip_cr(s: Seq<char>) -> Seq<char> {
    if s.len() > 0 && s.last() == '\r' {
        s.drop_last()
    } else {
        s
    }
}

/// `str::lines`: pieces ended by `'\n'` (a `'\r'` before it dropped); a final
/// line ending yields no empty last line.
pub open spec fn lines(s: Seq<char>) -> Seq<Seq<char>>
    decreases s.len(),
{
    if s.len() == 0 {
        Seq::empty()
    } else {
        let j = find(s, '\n');
        if j < 0 || j >= s.len() {
            seq![s]
        } else {
            seq![strip_cr(s.take(j))] + lines(s.skip(j + 1))
        }
    }
}

/// The lines of `v`, as ranges into `v`.
pub fn line_ranges(v: &Vec<char>) -> (rs: Vec<(usize, usize)>)
    ensures
        ranges_within(rs@, 0, v.len() as int),
        pieces_of(v@, rs@) == lines(v@),
{
    let mut rs: Vec<(usize, usize)> = Vec::new();
    let mut start: usize = 0;
    let mut j: usize = 0;
    let n = v.len();
    assert(v@.subrange(0, n as int) =~= v@);
    while j < n
        invariant
            n == v.len(),
            0 <= start <= j <= n,
            ranges_within(rs@, 0, n as int),
            forall|k: int| start <= k < j ==> v@[k] != '\n',
            lines(v@) == pieces_of(v@, rs@) + lines(v@.subrange(start as int, n as int)),
        decreases n - j,
    {
        if v[j] == '\n' {
            let ghost s = v@.subrange(start as int, n as int);
            proof {
                lemma_find_at(s, '\n', j - start);
                assert(s.take(j - start) =~= v@.subrange(start as int, j as int));
                assert(s.skip(j - start + 1) =~= v@.subrange(j + 1, n as int));
            }
            let mut e: usize = j;
            if e > start && v[e - 1] == '\r' {
                e = e - 1;
                assert(v@.subrange(start as int, e as int) =~= v@.subrange(
                    start as int,
                    j as int,
                ).drop_last());
            }
            let ghost old_rs = rs@;
            rs.push((start, e));
            proof {
                assert(v@.subrange(start as int, e as int) == strip_cr(
                    v@.subrange(start as int, j as int),
                ));
                assert(pieces_of(v@, rs@) =~= pieces_of(v@, old_rs) + seq![
                    v@.subrange(start as int, e as int),
                ]);
            }
            start = j + 1;
        }
        j = j + 1;
    }
    if start < n {
        proof {
            lemma_find_none(v@.subrange(start as int, n as int), '\n');
        }
        let ghost old_rs = rs@;
        rs.push((start, n));
        proof {
            assert(pieces_of(v@, rs@) =~= pieces_of(v@, old_rs) + seq![
                v@.subrange(start as int, n as int),
            ]);
        }
    } else {
        assert(pieces_of(v@, rs@) + lines(v@.subrange(start as int, n as int)) =~= pieces_of(
            v@,
            rs@,
        ));
    }
    rs
}

} // verus!

verus! {

// ── Conversions between `str` and character vectors ───────────────────────────

/// The characters of `s`, in order.
pub fn chars_of(s: &str) -> (v: Vec<char>)
    ensures
        v@ == s@,
{
    let mut v: Vec<char> = Vec::new();
    for c in it: s.chars()
        invariant
            v@ == it.seq().take(it.index() as int),
    {
        v.push(c);
    }
    v
}

/// Collects `v[lo..hi]` into a `String` (std's `FromIterator<&char> for String`,
/// which appends each character in turn).
#[verifier::external_body]
pub(crate) fn string_from_range(v: &Vec<char>, lo: usize, hi: usize) -> (s: String)
    requires
        lo <= hi <= v.len(),
    ensures
        s@ == v@.subrange(lo as int, hi as int),
{
    v[lo..hi].iter().collect()
}

/// Collects all of `v` into a `String`.
pub fn string_from_chars(v: &Vec<char>) -> (s: String)
    ensures
        s@ == v@,
{
    assert(v@.subrange(0, v.len() as int) =~= v@);
    string_from_range(v, 0, v.len())
}

/// Appends all of `w` to `v`.
pub fn push_all(v: &mut Vec<char>, w: &Vec<char>)
    ensures
        final(v)@ == old(v)@ + w@,
{
    let mut k: usize = 0;
    while k < w.len()
        invariant
            0 <= k <= w.len(),
            v@ == old(v)@ + w@.take(k as int),
        decreases w.len() - k,
    {
        v.push(w[k]);
        k = k + 1;
        assert(w@.take(k as int) =~= w@.take(k - 1).push(w@[k - 1]));
    }
    assert(w@.take(w.len() as int) =~= w@);
}

/// Appends the characters of `s` to `v`.
pub fn push_str(v: &mut Vec<char>, s: &str)
    ensures
        final(v)@ == old(v)@ + s@,
{
    let w = chars_of(s);
    push_all(v, &w);
}

// ── Decimal digits ────────────────────────────────────────────────────────────

pub open spec fn is_digit(c: char) -> bool {
    48 <= (c as u32) <= 57
}

pub open spec fn digit_val(c: char) -> nat {
    ((c as u32) - 48) as nat
}

pub open spec fn digit_char(d: nat) -> char {
    if d == 0 {
        '0'
    } else if d == 1 {
        '1'
    } else if d == 2 {
        '2'
    } else if d == 3 {
        '3'
    } else if d == 4 {
        '4'
    } else if d == 5 {
        '5'
    } else if d == 6 {
        '6'
    } else if d == 7 {
        '7'
    } else if d == 8 {
        '8'
    } else {
        '9'
    }
}

pub fn exec_digit_char(d: u64) -> (c: char)
    requires
        d < 10,
    ensures
        c == digit_char(d as nat),
        is_digit(c),
        digit_val(c) == d,
{
    if d == 0 {
        '0'
    } else if d == 1 {
        '1'
    } else if d == 2 {
        '2'
    } else if d == 3 {
        '3'
    } else if d == 4 {
        '4'
    } else if d == 5 {
        '5'
    } else if d == 6 {
        '6'
    } else if d == 7 {
        '7'
    } else if d == 8 {
        '8'
    } else {
        '9'
    }
}

/// The decimal representation of `n` (what `{}` prints for an unsigned integer).
pub open spec fn dec(n: nat) -> Seq<char>
    decreases n,
{
    if n < 10 {
        seq![digit_char(n)]
    } else {
        dec(n / 10).push(digit_char(n % 10))
    }
}

/// Appends the decimal representation of `n` to `out`.
pub fn push_dec(out: &mut Vec<char>, n: u64)
    ensures
        final(out)@ == old(out)@ + dec(n as nat),
    decreases n,
{
    if n >= 10 {
        push_dec(out, n / 10);
    }
    let c = exec_digit_char(n % 10);
    out.push(c);
    proof {
        if n >= 10 {
            assert(dec(n as nat) == dec((n / 10) as nat).push(digit_char((n % 10) as nat)));
        }
    }
}

/// The decimal representation of `n`.
pub fn dec_string(n: u64) -> (s: String)
    ensures
        s@ == dec(n as nat),
{
    let mut v: Vec<char> = Vec::new();
    push_dec(&mut v, n);
    assert(v@ =~= dec(n as nat));
    string_from_chars(&v)
}

pub open spec fn all_digits(s: Seq<char>) -> bool {
    forall|i: int| 0 <= i < s.len() ==> is_digit(#[trigger] s[i])
}

/// The value of a string of decimal digits.
pub open spec fn digits_value(s: Seq<char>) -> nat
    decreases s.len(),
{
    if s.len() == 0 {
        0
    } else {
        digits_value(s.drop_last()) * 10 + digit_val(s.last())
    }
}

/// `str::parse` for an unsigned integer type whose largest value is `max`: an
/// optional `'+'`, then one or more ASCII digits, with a value not above `max`.
pub open spec fn parse_unsigned(s: Seq<char>, max: nat) -> Option<nat> {
    let d = if s.len() > 0 && s[0] == '+' {
        s.drop_first()
    } else {
        s
    };
    if d.len() > 0 && all_digits(d) && digits_value(d) <= max {
        Some(digits_value(d))
    } else {
        None
    }
}

/// `str::parse` for a signed integer type ranging over `-min_abs ..= max`: a
/// leading `'-'` takes one or more digits for a negative value, otherwise as
/// for an unsigned type.
pub open spec fn parse_signed(s: Seq<char>, min_abs: nat, max: nat) -> Option<int> {
    if s.len() > 0 && s[0] == '-' {
        let d = s.drop_first();
        if d.len() > 0 && all_digits(d) && digits_value(d) <= min_abs {
            Some(-(digits_value(d) as int))
        } else {
            None
        }
    } else {
        match parse_unsigned(s, max) {
            Some(v) => Some(v as int),
            None => None,
        }
    }
}

proof fn lemma_digits_value_prefix(s: Seq<char>, k: int)
    requires
        0 <= k <= s.len(),
    ensures
        digits_value(s.take(k)) <= digits_value(s),
    decreases s.len() - k,
{
    if k < s.len() {
        lemma_digits_value_prefix(s, k + 1);
        assert(s.take(k + 1).drop_last() =~= s.take(k));
    } else {
        assert(s.take(k) =~= s);
    }
}

fn parse_digits_range(v: &Vec<char>, lo: usize, hi: usize, max: u64) -> (r: Option<u64>)
    requires
        lo <= hi <= v.len(),
    ensures
        match r {
            Some(x) => lo < hi && all_digits(v@.subrange(lo as int, hi as int)) && digits_value(
                v@.subrange(lo as int, hi as int),
            ) == x && x <= max,
            None => !(lo < hi && all_digits(v@.subrange(lo as int, hi as int)) && digits_value(
                v@.subrange(lo as int, hi as int),
            ) <= max),
        },
{
    let ghost d = v@.subrange(lo as int, hi as int);
    if lo == hi {
        return None;
    }
    let mut acc: u128 = 0;
    let mut k: usize = lo;
    while k < hi
        invariant
            lo <= k <= hi <= v.len(),
            d == v@.subrange(lo as int, hi as int),
            all_digits(d.take(k - lo)),
            acc == digits_value(d.take(k - lo)),
            acc <= max,
        decreases hi - k,
    {
        let c = v[k];
        let u = c as u32;
        if u < 48 || u > 57 {
            assert(d[k - lo] == c);
            assert(!is_digit(d[k - lo]));
            return None;
        }
        let dv = (u - 48) as u128;
        let next = acc * 10 + dv;
        proof {
            assert(d.take(k - lo + 1).drop_last() =~= d.take(k - lo));
            assert(d.take(k - lo + 1).last() == c);
            assert(all_digits(d.take(k - lo + 1))) by {
                assert forall|i: int| 0 <= i < d.take(k - lo + 1).len() implies is_digit(
                    #[trigger] d.take(k - lo + 1)[i],
                ) by {
                    if i < k - lo {
                        assert(d.take(k - lo + 1)[i] == d.take(k - lo)[i]);
                    }
                }
            }
        }
        if next > max as u128 {
            proof {
                lemma_digits_value_prefix(d, k - lo + 1);
            }
            return None;
        }
        acc = next;
        k = k + 1;
    }
    assert(d.take(hi - lo) =~= d);
    Some(acc as u64)
}

/// `str::parse::<unsigned>` on `v[lo..hi]`, for a type whose largest value is `max`.
pub fn parse_unsigned_range(v: &Vec<char>, lo: usize, hi: usize, max: u64) -> (r: Option<u64>)
    requires
        lo <= hi <= v.len(),
    ensures
        match r {
            Some(x) => parse_unsigned(v@.subrange(lo as int, hi as int), max as nat) == Some(
                x as nat,
            ),
            None => parse_unsigned(v@.subrange(lo as int, hi as int), max as nat) is None,
        },
        r matches Some(x) ==> x <= max,
{
    let ghost s = v@.subrange(lo as int, hi as int);
    if lo < hi && v[lo] == '+' {
        assert(s.drop_first() =~= v@.subrange(lo + 1, hi as int));
        parse_digits_range(v, lo + 1, hi, max)
    } else {
        parse_digits_range(v, lo, hi, max)
    }
}

/// `str::parse::<signed>` on `v[lo..hi]`, for a type ranging over `-min_abs ..= max`.
pub fn parse_signed_range(v: &Vec<char>, lo: usize, hi: usize, min_abs: u64, max: u64) -> (r:
    Option<(bool, u64)>)
    requires
        lo <= hi <= v.len(),
    ensures
        match r {
            Some((neg, x)) => parse_signed(
                v@.subrange(lo as int, hi as int),
                min_abs as nat,
                max as nat,
            ) == Some(if neg {
                -(x as int)
            } else {
                x as int
            }) && (neg ==> x <= min_abs) && (!neg ==> x <= max),
            None => parse_signed(v@.subrange(lo as int, hi as int), min_abs as nat, max as nat) is None,
        },
{
    let ghost s = v@.subrange(lo as int, hi as int);
    if lo < hi && v[lo] == '-' {
        assert(s.drop_first() =~= v@.subrange(lo + 1, hi as int));
        match parse_digits_range(v, lo + 1, hi, min_abs) {
            Some(x) => Some((true, x)),
            None => None,
        }
    } else {
        match parse_unsigned_range(v, lo, hi, max) {
            Some(x) => Some((false, x)),
            None => None,
        }
    }
}

/// `str::parse::<u64>` on `v[lo..hi]`.
pub open spec fn parse_u64(s: Seq<char>) -> Option<nat> {
    parse_unsigned(s, u64::MAX as nat)
}

/// `str::parse::<u32>` on `v[lo..hi]`.
pub open spec fn parse_u32(s: Seq<char>) -> Option<nat> {
    parse_unsigned(s, u32::MAX as nat)
}

/// `str::parse::<i32>`.
pub open spec fn parse_i32(s: Seq<char>) -> Option<int> {
    parse_signed(s, 0x8000_0000, i32::MAX as nat)
}

pub fn parse_u64_range(v: &Vec<char>, lo: usize, hi: usize) -> (r: Option<u64>)
    requires
        lo <= hi <= v.len(),
    ensures
        match r {
            Some(x) => parse_u64(v@.subrange(lo as int, hi as int)) == Some(x as nat),
            None => parse_u64(v@.subrange(lo as int, hi as int)) is None,
        },
{
    parse_unsigned_range(v, lo, hi, u64::MAX)
}

pub fn parse_u32_range(v: &Vec<char>, lo: usize, hi: usize) -> (r: Option<u32>)
    requires
        lo <= hi <= v.len(),
    ensures
        match r {
            Some(x) => parse_u32(v@.subrange(lo as int, hi as int)) == Some(x as nat),
            None => parse_u32(v@.subrange(lo as int, hi as int)) is None,
        },
{
    match parse_unsigned_range(v, lo, hi, u32::MAX as u64) {
        Some(x) => Some(x as u32),
        None => None,
    }
}

pub fn parse_i32_range(v: &Vec<char>, lo: usize, hi: usize) -> (r: Option<i32>)
    requires
        lo <= hi <= v.len(),
    ensures
        match r {
            Some(x) => parse_i32(v@.subrange(lo as int, hi as int)) == Some(x as int),
            None => parse_i32(v@.subrange(lo as int, hi as int)) is None,
        },
{
    match parse_signed_range(v, lo, hi, 0x8000_0000, i32::MAX as u64) {
        Some((neg, x)) => {
            if neg {
                Some((0 - (x as i64)) as i32)
            } else {
                Some(x as i32)
            }
        },
        None => None,
    }
}

} // verus!

verus! {

/// `str::trim_end_matches(c)`: every trailing `c` removed.
pub open spec fn trim_end_char(s: Seq<char>, c: char) -> Seq<char>
    decreases s.len(),
{
    if s.len() > 0 && s.last() == c {
        trim_end_char(s.drop_last(), c)
    } else {
        s
    }
}

/// `str::trim_start_matches(p)` for a non-empty pattern: every leading copy of `p` removed.
pub open spec fn trim_start_prefix(s: Seq<char>, p: Seq<char>) -> Seq<char>
    decreases s.len(),
{
    if p.len() > 0 && starts_with(s, p) {
        trim_start_prefix(s.skip(p.len() as int), p)
    } else {
        s
    }
}

/// The end of `trim_end_char(v[0..hi], c)`.
pub fn trim_end_char_range(v: &Vec<char>, hi: usize, c: char) -> (e: usize)
    requires
        hi <= v.len(),
    ensures
        e <= hi,
        v@.subrange(0, e as int) == trim_end_char(v@.subrange(0, hi as int), c),
{
    let mut e: usize = hi;
    while e > 0 && v[e - 1] == c
        invariant
            e <= hi <= v.len(),
            trim_end_char(v@.subrange(0, hi as int), c) == trim_end_char(v@.subrange(0, e as int), c),
        decreases e,
    {
        assert(v@.subrange(0, e as int).drop_last() =~= v@.subrange(0, e - 1));
        e = e - 1;
    }
    e
}

/// The start of `trim_start_prefix(v[lo..hi], p)`.
pub fn trim_start_prefix_range(v: &Vec<char>, lo: usize, hi: usize, p: &Vec<char>) -> (s: usize)
    requires
        lo <= hi <= v.len(),
    ensures
        lo <= s <= hi,
        v@.subrange(s as int, hi as int) == trim_start_prefix(v@.subrange(lo as int, hi as int), p@),
{
    let mut s: usize = lo;
    if p.len() == 0 {
        return s;
    }
    while range_starts_with(v, s, hi, p)
        invariant
            lo <= s <= hi <= v.len(),
            p.len() > 0,
            trim_start_prefix(v@.subrange(lo as int, hi as int), p@) == trim_start_prefix(
                v@.subrange(s as int, hi as int),
                p@,
            ),
        decreases hi - s,
    {
        assert(v@.subrange(s as int, hi as int).skip(p.len() as int) =~= v@.subrange(
            s + p.len(),
            hi as int,
        ));
        s = s + p.len();
    }
    s
}

/// Whether `s` holds exactly the characters of `lit`.
pub fn str_eq(s: &str, lit: &str) -> (b: bool)
    ensures
        b == (s@ == lit@),
{
    let v = chars_of(s);
    let w = chars_of(lit);
    assert(v@.subrange(0, v.len() as int) =~= v@);
    assert(w@.subrange(0, w.len() as int) =~= w@);
    range_eq(&v, 0, v.len(), &w, 0, w.len())
}

} // verus!

verus! {

// ── Words ─────────────────────────────────────────────────────────────────────

/// Index of the first whitespace character of `s`, or its length.
pub open spec fn first_ws(s: Seq<char>) -> nat
    decreases s.len(),
{
    if s.len() == 0 {
        0
    } else if is_ws(s[0]) {
        0
    } else {
        1 + first_ws(s.drop_first())
    }
}

/// `str::split_whitespace`: the maximal runs of non-whitespace characters.
pub open spec fn words(s: Seq<char>) -> Seq<Seq<char>>
    decreases s.len(), 1nat,
{
    if s.len() == 0 {
        Seq::empty()
    } else if is_ws(s[0]) {
        words(s.drop_first())
    } else {
        let k = first_ws(s);
        if 0 < k <= s.len() {
            seq![s.take(k as int)] + words(s.skip(k as int))
        } else {
            Seq::empty()
        }
    }
}

proof fn lemma_first_ws_at(s: Seq<char>, k: int)
    requires
        0 <= k <= s.len(),
        forall|m: int| 0 <= m < k ==> !is_ws(#[trigger] s[m]),
        k == s.len() || is_ws(s[k]),
    ensures
        first_ws(s) == k,
    decreases k,
{
    if k > 0 {
        lemma_first_ws_at(s.drop_first(), k - 1);
    }
}

/// The words of `v[lo..hi]`, as ranges into `v`.
pub fn word_ranges(v: &Vec<char>, lo: usize, hi: usize) -> (rs: Vec<(usize, usize)>)
    requires
        lo <= hi <= v.len(),
    ensures
        ranges_within(rs@, lo as int, hi as int),
        pieces_of(v@, rs@) == words(v@.subrange(lo as int, hi as int)),
{
    let mut rs: Vec<(usize, usize)> = Vec::new();
    let mut i: usize = lo;
    while i < hi
        invariant
            lo <= i <= hi <= v.len(),
            ranges_within(rs@, lo as int, hi as int),
            words(v@.subrange(lo as int, hi as int)) == pieces_of(v@, rs@) + words(
                v@.subrange(i as int, hi as int),
            ),
        decreases hi - i,
    {
        if char_is_ws(v[i]) {
            assert(v@.subrange(i as int, hi as int).drop_first() =~= v@.subrange(i + 1, hi as int));
            i = i + 1;
        } else {
            let mut j: usize = i + 1;
            while j < hi && !char_is_ws(v[j])
                invariant
                    i < j <= hi <= v.len(),
                    forall|m: int| i <= m < j ==> !is_ws(#[trigger] v@[m]),
                decreases hi - j,
            {
                j = j + 1;
            }
            proof {
                let s = v@.subrange(i as int, hi as int);
                lemma_first_ws_at(s, j - i);
                assert(s.take(j - i) =~= v@.subrange(i as int, j as int));
                assert(s.skip(j - i) =~= v@.subrange(j as int, hi as int));
            }
            let ghost old_rs = rs@;
            rs.push((i, j));
            assert(pieces_of(v@, rs@) =~= pieces_of(v@, old_rs) + seq![v@.subrange(i as int, j as int)]);
            i = j;
        }
    }
    assert(pieces_of(v@, rs@) + words(v@.subrange(i as int, hi as int)) =~= pieces_of(v@, rs@));
    rs
}

} // verus!

verus! {

/// What `str::to_lowercase` gives for a string (std's Unicode lowercase
/// mapping, which takes tables to state).
pub uninterp spec fn str_to_lowercase(s: Seq<char>) -> Seq<char>;

/// `str::to_lowercase` (std). The result is that function of its argument
/// alone; no more is said of it.
#[verifier::external_body]
pub(crate) fn to_lowercase(s: &str) -> (r: String)
    ensures
        r@ == str_to_lowercase(s@),
{
    s.to_lowercase()
}

} // verus!

verus! {

pub proof fn lemma_splitn_len(s: Seq<char>, n: nat, c: char)
    requires
        n >= 1,
    ensures
        1 <= splitn(s, n, c).len() <= n,
    decreases n,
{
    let j = find(s, c);
    if !(n <= 1 || j < 0 || j >= s.len()) {
        lemma_splitn_len(s.skip(j + 1), (n - 1) as nat, c);
    }
}

pub proof fn lemma_split_len(s: Seq<char>, c: char)
    ensures
        1 <= split(s, c).len(),
    decreases s.len(),
{
    let j = find(s, c);
    if !(j < 0 || j >= s.len()) {
        lemma_split_len(s.skip(j + 1), c);
    }
}

} // verus!

verus! {

/// Whether `s` starts with `p`.
pub fn str_starts_with(s: &str, p: &str) -> (b: bool)
    ensures
        b == starts_with(s@, p@),
{
    let v = chars_of(s);
    let w = chars_of(p);
    assert(v@.subrange(0, v.len() as int) =~= v@);
    range_starts_with(&v, 0, v.len(), &w)
}

/// `str::trim`, as an owned string.
pub fn trim_string(s: &str) -> (t: String)
    ensures
        t@ == trim(s@),
{
    let v = chars_of(s);
    assert(v@.subrange(0, v.len() as int) =~= v@);
    let (a, b) = trim_range(&v, 0, v.len());
    string_from_range(&v, a, b)
}

} // verus!

verus! {

/// `a` followed by `b`, as a new string.
pub fn concat(a: &str, b: &str) -> (s: String)
    ensures
        s@ == a@ + b@,
{
    let mut v = chars_of(a);
    push_str(&mut v, b);
    string_from_chars(&v)
}

} // verus!

verus! {

/// Whether `p` occurs in `s`.
pub open spec fn contains(s: Seq<char>, p: Seq<char>) -> bool {
    exists|i: int| 0 <= i && i + p.len() <= s.len() && #[trigger] s.subrange(i, i + p.len()) == p
}

pub fn str_contains(s: &str, p: &str) -> (b: bool)
    ensures
        b == contains(s@, p@),
{
    let v = chars_of(s);
    let w = chars_of(p);
    if w.len() > v.len() {
        return false;
    }
    let last = v.len() - w.len();
    let mut i: usize = 0;
    assert(w@.subrange(0, w.len() as int) =~= w@);
    loop
        invariant
            v@ == s@,
            w@ == p@,
            w.len() <= v.len(),
            last == v.len() - w.len(),
            w@.subrange(0, w.len() as int) == w@,
            0 <= i <= last,
            forall|j: int| 0 <= j < i ==> #[trigger] s@.subrange(j, j + p@.len()) != p@,
        decreases last - i,
    {
        let eq = range_eq(&v, i, i + w.len(), &w, 0, w.len());
        assert(eq == (s@.subrange(i as int, i + p@.len()) == p@));
        if eq {
            return true;
        }
        if i == last {
            assert forall|j: int| 0 <= j && j + p@.len() <= s@.len() implies #[trigger] s@.subrange(
                j,
                j + p@.len(),
            ) != p@ by {
                assert(j <= i);
            }
            return false;
        }
        i = i + 1;
    }
}

} // verus!

verus! {

/// What `str::to_uppercase` gives for a string (std's Unicode uppercase
/// mapping, which takes tables to state).
pub uninterp spec fn str_to_uppercase(s: Seq<char>) -> Seq<char>;

/// `str::to_uppercase` (std). The result is that function of its argument
/// alone; no more is said of it.
#[verifier::external_body]
pub(crate) fn to_uppercase(s: &str) -> (r: String)
    ensures
        r@ == str_to_uppercase(s@),
{
    s.to_uppercase()
}

} // verus!
