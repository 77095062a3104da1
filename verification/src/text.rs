//! Character-level text utilities shared by the rest of the library.
//!
//! Strings are reasoned about through their view, a `Seq<char>`.
use vstd::prelude::*;
use vstd::utf8::{decode_utf8, encode_utf8, encode_utf8_decode_utf8, is_char_boundary};

verus! {

// ---------------------------------------------------------------------------
// Conversions
// ---------------------------------------------------------------------------

/// The characters of `s`, in order.
pub fn chars_of(s: &str) -> (v: Vec<char>)
    ensures
        v@ == s@,
{
    let mut v: Vec<char> = Vec::new();
    for c in it: s.chars()
        invariant
            v@ == it.seq().take(it.index() as int),
            it.seq() == s@,
    {
        v.push(c);
    }
    v
}

/// `String::from_iter` over a slice of characters: the string holding exactly those characters.
#[verifier::external_body]
pub fn string_of(v: &[char]) -> (s: String)
    ensures
        s@ == v@,
{
    String::from_iter(v.iter())
}

/// A fresh copy of `s`.
pub fn owned(s: &str) -> (r: String)
    ensures
        r@ == s@,
{
    let mut r = String::new();
    r.append(s);
    r
}

/// Concatenation of two strings.
pub fn cat(a: &str, b: &str) -> (r: String)
    ensures
        r@ == a@ + b@,
{
    let mut r = String::new();
    r.append(a);
    r.append(b);
    r
}

/// Concatenation of three strings.
pub fn cat3(a: &str, b: &str, c: &str) -> (r: String)
    ensures
        r@ == a@ + b@ + c@,
{
    let mut r = String::new();
    r.append(a);
    r.append(b);
    r.append(c);
    r
}

/// A copy of an optional string.
pub fn copy_opt(s: &Option<String>) -> (r: Option<String>)
    ensures
        r == *s,
{
    match s {
        Some(x) => Some(x.clone()),
        None => None,
    }
}

// ---------------------------------------------------------------------------
// Equality, search, replacement
// ---------------------------------------------------------------------------

/// Character-wise equality of two strings.
pub fn str_eq(a: &str, b: &str) -> (r: bool)
    ensures
        r == (a@ == b@),
{
    let va = chars_of(a);
    let vb = chars_of(b);
    if va.len() != vb.len() {
        return false;
    }
    let mut i: usize = 0;
    while i < va.len()
        invariant
            va@ == a@,
            vb@ == b@,
            va.len() == vb.len(),
            i <= va.len(),
            forall|j: int| 0 <= j < i ==> va@[j] == vb@[j],
        decreases va.len() - i,
    {
        if va[i] != vb[i] {
            return false;
        }
        i = i + 1;
    }
    assert(a@ =~= b@);
    true
}

/// `n` occurs in `h` starting at index `i`.
pub open spec fn occurs_at(h: Seq<char>, n: Seq<char>, i: int) -> bool {
    &&& 0 <= i
    &&& i + n.len() <= h.len()
    &&& h.subrange(i, i + n.len()) == n
}

/// `n` occurs somewhere in `h` (what `str::contains` answers for a string pattern).
pub open spec fn contains_seq(h: Seq<char>, n: Seq<char>) -> bool {
    exists|i: int| occurs_at(h, n, i)
}

/// The first index at or after `i` where `n` occurs in `h`, or -1 when there is none.
pub open spec fn find_from(h: Seq<char>, n: Seq<char>, i: int) -> int
    decreases h.len() + 1 - i,
{
    if i < 0 || i + n.len() > h.len() {
        -1
    } else if h.subrange(i, i + n.len()) == n {
        i
    } else {
        find_from(h, n, i + 1)
    }
}

/// The first index where `n` occurs in `h`, or -1.
pub open spec fn first_index(h: Seq<char>, n: Seq<char>) -> int {
    find_from(h, n, 0)
}

/// `h` starts with `p`.
pub open spec fn has_prefix(h: Seq<char>, p: Seq<char>) -> bool {
    p.len() <= h.len() && h.take(p.len() as int) == p
}

/// What `str::replacen(n, r, 1)` gives: the first occurrence of `n` replaced by `r`.
pub open spec fn replace_first(h: Seq<char>, n: Seq<char>, r: Seq<char>) -> Seq<char> {
    let i = first_index(h, n);
    if i < 0 {
        h
    } else {
        h.take(i) + r + h.skip(i + n.len())
    }
}

/// `find_from` gives the first occurrence at or after `i`, or -1 when there is none.
pub proof fn lemma_find_from_facts(h: Seq<char>, n: Seq<char>, i: int)
    requires
        0 <= i,
    ensures
        find_from(h, n, i) == -1 || (i <= find_from(h, n, i) && occurs_at(h, n, find_from(h, n, i))),
        find_from(h, n, i) == -1 ==> forall|j: int| i <= j ==> !occurs_at(h, n, j),
        find_from(h, n, i) >= 0 ==> forall|j: int| i <= j < find_from(h, n, i) ==> !occurs_at(h, n, j),
    decreases h.len() + 1 - i,
{
    if i + n.len() > h.len() {
    } else if h.subrange(i, i + n.len()) == n {
    } else {
        lemma_find_from_facts(h, n, i + 1);
        assert forall|j: int| i <= j && occurs_at(h, n, j) implies j >= i + 1 by {
            if j == i {
                assert(h.subrange(i, i + n.len()) == n);
            }
        }
    }
}

/// `contains_seq` agrees with `first_index`.
pub proof fn lemma_contains_iff_found(h: Seq<char>, n: Seq<char>)
    ensures
        contains_seq(h, n) <==> first_index(h, n) >= 0,
{
    lemma_find_from_facts(h, n, 0);
}

/// Does `n` occur in `h` at `i`?
pub fn matches_at(h: &Vec<char>, n: &Vec<char>, i: usize) -> (r: bool)
    requires
        i + n.len() <= h.len(),
    ensures
        r == (h@.subrange(i as int, i + n.len()) == n@),
{
    let mut j: usize = 0;
    while j < n.len()
        invariant
            i + n.len() <= h.len(),
            j <= n.len(),
            forall|k: int| 0 <= k < j ==> h@[i + k] == n@[k],
        decreases n.len() - j,
    {
        if h[i + j] != n[j] {
            assert(h@.subrange(i as int, i + n.len())[j as int] != n@[j as int]);
            return false;
        }
        j = j + 1;
    }
    assert(h@.subrange(i as int, i + n.len()) =~= n@);
    true
}

/// The first index where `n` occurs in `h`.
pub fn find_chars(h: &Vec<char>, n: &Vec<char>) -> (r: Option<usize>)
    ensures
        match r {
            Some(i) => first_index(h@, n@) == i,
            None => first_index(h@, n@) == -1,
        },
{
    if n.len() > h.len() {
        return None;
    }
    let last = h.len() - n.len();
    let mut i: usize = 0;
    loop
        invariant
            n.len() <= h.len(),
            last == h.len() - n.len(),
            i <= last,
            find_from(h@, n@, 0) == find_from(h@, n@, i as int),
        decreases last - i,
    {
        if matches_at(h, n, i) {
            return Some(i);
        }
        if i == last {
            assert(find_from(h@, n@, i + 1) == -1);
            return None;
        }
        i = i + 1;
    }
}

/// `str::contains` with a string pattern.
pub fn contains(h: &str, n: &str) -> (r: bool)
    ensures
        r == contains_seq(h@, n@),
{
    let hv = chars_of(h);
    let nv = chars_of(n);
    proof {
        lemma_contains_iff_found(h@, n@);
    }
    find_chars(&hv, &nv).is_some()
}

/// `str::starts_with` with a string pattern.
pub fn starts_with(h: &str, p: &str) -> (r: bool)
    ensures
        r == has_prefix(h@, p@),
{
    let hv = chars_of(h);
    let pv = chars_of(p);
    if pv.len() > hv.len() {
        return false;
    }
    let r = matches_at(&hv, &pv, 0);
    assert(hv@.subrange(0, pv.len() as int) == hv@.take(pv.len() as int));
    r
}

/// `str::replacen(n, r, 1)`: the first occurrence of `n` in `h` replaced by `r`.
pub fn replace_first_str(h: &str, n: &str, r: &str) -> (out: String)
    ensures
        out@ == replace_first(h@, n@, r@),
{
    let hv = chars_of(h);
    let nv = chars_of(n);
    match find_chars(&hv, &nv) {
        None => owned(h),
        Some(i) => {
            proof {
                lemma_find_from_facts(h@, n@, 0);
            }
            let mut out: Vec<char> = Vec::new();
            let mut k: usize = 0;
            while k < i
                invariant
                    i + nv.len() <= hv.len(),
                    k <= i,
                    out@ == hv@.take(k as int),
                decreases i - k,
            {
                out.push(hv[k]);
                k = k + 1;
                assert(out@ =~= hv@.take(k as int));
            }
            let rv = chars_of(r);
            let mut k2: usize = 0;
            while k2 < rv.len()
                invariant
                    out@ == hv@.take(i as int) + rv@.take(k2 as int),
                    k2 <= rv.len(),
                decreases rv.len() - k2,
            {
                out.push(rv[k2]);
                k2 = k2 + 1;
                assert(out@ =~= hv@.take(i as int) + rv@.take(k2 as int));
            }
            let start = i + nv.len();
            let mut k3: usize = start;
            while k3 < hv.len()
                invariant
                    start <= k3 <= hv.len(),
                    start == i + nv.len(),
                    rv@.take(rv.len() as int) == rv@,
                    out@ == hv@.take(i as int) + rv@ + hv@.subrange(start as int, k3 as int),
                decreases hv.len() - k3,
            {
                out.push(hv[k3]);
                k3 = k3 + 1;
                assert(out@ =~= hv@.take(i as int) + rv@ + hv@.subrange(start as int, k3 as int));
            }
            assert(rv@.take(rv.len() as int) =~= rv@);
            assert(hv@.subrange(start as int, hv.len() as int) =~= hv@.skip(start as int));
            string_of(out.as_slice())
        },
    }
}

// ---------------------------------------------------------------------------
// Lines
// ---------------------------------------------------------------------------

/// The index of the first `'\n'` in `s`, or -1.
pub open spec fn newline_index(s: Seq<char>) -> int
    decreases s.len(),
{
    if s.len() == 0 {
        -1
    } else if s[0] == '\n' {
        0
    } else {
        let r = newline_index(s.drop_first());
        if r < 0 {
            -1
        } else {
            r + 1
        }
    }
}

/// A line with one trailing carriage return removed.
pub open spec fn strip_cr(l: Seq<char>) -> Seq<char> {
    if l.len() > 0 && l.last() == '\r' {
        l.drop_last()
    } else {
        l
    }
}

/// What `str::lines` yields: pieces split at `'\n'`, each `"\r\n"` ending counted as one line
/// ending, and no empty piece after a final line ending.
pub open spec fn lines_of(s: Seq<char>) -> Seq<Seq<char>>
    decreases s.len(),
{
    if s.len() == 0 {
        seq![]
    } else {
        let i = newline_index(s);
        if i < 0 {
            seq![s]
        } else {
            proof {
                lemma_newline_index_facts(s);
            }
            seq![strip_cr(s.take(i))] + lines_of(s.skip(i + 1))
        }
    }
}

/// `newline_index` gives the first newline, or -1 when there is none.
pub proof fn lemma_newline_index_facts(s: Seq<char>)
    ensures
        -1 <= newline_index(s) < s.len(),
        newline_index(s) >= 0 ==> s[newline_index(s)] == '\n',
        newline_index(s) >= 0 ==> forall|j: int| 0 <= j < newline_index(s) ==> s[j] != '\n',
        newline_index(s) < 0 ==> forall|j: int| 0 <= j < s.len() ==> s[j] != '\n',
    decreases s.len(),
{
    if s.len() > 0 && s[0] != '\n' {
        lemma_newline_index_facts(s.drop_first());
        assert forall|j: int| 1 <= j < s.len() implies s[j] == s.drop_first()[j - 1] by {}
    }
}

/// `newline_index` of a piece with no newline before position `k` and a newline at `k`.
pub proof fn lemma_newline_at(s: Seq<char>, k: int)
    requires
        0 <= k < s.len(),
        s[k] == '\n',
        forall|j: int| 0 <= j < k ==> s[j] != '\n',
    ensures
        newline_index(s) == k,
    decreases k,
{
    if k > 0 {
        lemma_newline_at(s.drop_first(), k - 1);
    }
}

/// `newline_index` of a piece with no newline.
pub proof fn lemma_no_newline(s: Seq<char>)
    requires
        forall|j: int| 0 <= j < s.len() ==> s[j] != '\n',
    ensures
        newline_index(s) == -1,
    decreases s.len(),
{
    if s.len() > 0 {
        lemma_no_newline(s.drop_first());
    }
}

/// Removes one trailing `'\r'`.
pub fn strip_cr_vec(v: &mut Vec<char>)
    ensures
        final(v)@ == strip_cr(old(v)@),
{
    let n = v.len();
    if n > 0 && v[n - 1] == '\r' {
        v.pop();
    }
}

/// `str::lines`, collected.
pub fn lines(s: &str) -> (out: Vec<String>)
    ensures
        out@.len() == lines_of(s@).len(),
        forall|i: int| 0 <= i < out@.len() ==> #[trigger] out@[i]@ == lines_of(s@)[i],
{
    let v = chars_of(s);
    let mut out: Vec<String> = Vec::new();
    let mut cur: Vec<char> = Vec::new();
    let mut start: usize = 0;
    let mut i: usize = 0;
    assert(v@.skip(0) =~= v@);
    while i < v.len()
        invariant
            v@ == s@,
            start <= i <= v.len(),
            cur@ == v@.subrange(start as int, i as int),
            forall|j: int| start <= j < i ==> v@[j] != '\n',
            out@.len() + lines_of(v@.skip(start as int)).len() == lines_of(v@).len(),
            forall|k: int|
                0 <= k < out@.len() ==> #[trigger] out@[k]@ == lines_of(v@)[k],
            forall|k: int|
                0 <= k < lines_of(v@.skip(start as int)).len() ==> lines_of(v@)[out@.len() + k]
                    == #[trigger] lines_of(v@.skip(start as int))[k],
        decreases v.len() - i,
    {
        let c = v[i];
        if c == '\n' {
            let ghost rest = v@.skip(start as int);
            proof {
                let k = (i - start) as int;
                assert forall|j: int| 0 <= j < k implies rest[j] != '\n' by {
                    assert(rest[j] == v@[start + j]);
                }
                assert(rest[k] == v@[i as int]);
                lemma_newline_at(rest, k);
                assert(rest.take(k) =~= cur@);
                assert(rest.skip(k + 1) =~= v@.skip(i + 1));
                assert(lines_of(rest) == seq![strip_cr(cur@)] + lines_of(v@.skip(i + 1)));
            }
            let ghost old_out = out@;
            let mut line = cur;
            strip_cr_vec(&mut line);
            let ls = string_of(line.as_slice());
            out.push(ls);
            cur = Vec::new();
            i = i + 1;
            start = i;
            proof {
                assert(cur@ =~= v@.subrange(start as int, i as int));
                let tail = lines_of(v@.skip(start as int));
                assert(lines_of(rest) == seq![line@] + tail);
                assert(out@.len() == old_out.len() + 1);
                assert(lines_of(v@)[old_out.len() as int] == lines_of(rest)[0]);
                assert forall|k: int| 0 <= k < out@.len() implies #[trigger] out@[k]@ == lines_of(v@)[k] by {
                    if k < old_out.len() {
                        assert(out@[k] == old_out[k]);
                    }
                }
                assert forall|k: int| 0 <= k < tail.len() implies lines_of(v@)[out@.len() + k]
                    == #[trigger] tail[k] by {
                    assert(lines_of(v@)[old_out.len() as int + (k + 1)] == lines_of(rest)[k + 1]);
                }
            }
        } else {
            cur.push(c);
            i = i + 1;
            proof {
                assert(cur@ =~= v@.subrange(start as int, i as int));
            }
        }
    }
    let ghost rest = v@.skip(start as int);
    proof {
        assert(rest =~= cur@);
        assert forall|j: int| 0 <= j < rest.len() implies rest[j] != '\n' by {
            assert(rest[j] == v@[start + j]);
        }
        lemma_no_newline(rest);
    }
    if cur.len() > 0 {
        let ghost old_out = out@;
        let ls = string_of(cur.as_slice());
        out.push(ls);
        proof {
            assert(lines_of(rest) == seq![rest]);
            assert(lines_of(v@)[old_out.len() as int] == lines_of(rest)[0]);
            assert forall|k: int| 0 <= k < out@.len() implies #[trigger] out@[k]@ == lines_of(s@)[k] by {
                if k < old_out.len() {
                    assert(out@[k] == old_out[k]);
                }
            }
        }
    }
    out
}

// ---------------------------------------------------------------------------
// Joining
// ---------------------------------------------------------------------------

/// The pieces of `parts` separated by `sep` (what `join` on a slice of strings gives).
pub open spec fn join_seq(parts: Seq<Seq<char>>, sep: Seq<char>) -> Seq<char>
    decreases parts.len(),
{
    if parts.len() == 0 {
        seq![]
    } else if parts.len() == 1 {
        parts[0]
    } else {
        join_seq(parts.drop_last(), sep) + sep + parts.last()
    }
}

/// The views of a sequence of strings.
pub open spec fn views(v: Seq<String>) -> Seq<Seq<char>> {
    v.map_values(|s: String| s@)
}

/// Views commute with appending one string.
pub proof fn lemma_views_push(v: Seq<String>, s: String)
    ensures
        views(v.push(s)) == views(v).push(s@),
{
    assert(views(v.push(s)) =~= views(v).push(s@));
}

/// The view of an optional string.
pub open spec fn opt_chars(s: Option<String>) -> Option<Seq<char>> {
    match s {
        Some(x) => Some(x@),
        None => None,
    }
}

/// Joins strings with a separator.
pub fn join(parts: &Vec<String>, sep: &str) -> (r: String)
    ensures
        r@ == join_seq(views(parts@), sep@),
{
    let mut r = String::new();
    let mut i: usize = 0;
    while i < parts.len()
        invariant
            i <= parts.len(),
            r@ == join_seq(views(parts@).take(i as int), sep@),
        decreases parts.len() - i,
    {
        let ghost pre = views(parts@).take(i as int);
        if i > 0 {
            r.append(sep);
        }
        r.append(parts[i].as_str());
        proof {
            let nxt = views(parts@).take(i + 1);
            assert(nxt.drop_last() =~= pre);
            assert(nxt.last() == parts@[i as int]@);
            if i == 0 {
                assert(nxt.len() == 1);
            }
        }
        i = i + 1;
    }
    assert(views(parts@).take(parts.len() as int) =~= views(parts@));
    r
}

// ---------------------------------------------------------------------------
// Trimming
// ---------------------------------------------------------------------------

/// Whether `c` has the Unicode `White_Space` property, the set `char::is_whitespace` tests.
pub open spec fn is_white_space(c: char) -> bool {
    let n = c as u32;
    ||| 0x9 <= n && n <= 0xD
    ||| n == 0x20
    ||| n == 0x85
    ||| n == 0xA0
    ||| n == 0x1680
    ||| 0x2000 <= n && n <= 0x200A
    ||| n == 0x2028
    ||| n == 0x2029
    ||| n == 0x202F
    ||| n == 0x205F
    ||| n == 0x3000
}

/// `s` without its leading white space.
pub open spec fn trim_start(s: Seq<char>) -> Seq<char>
    decreases s.len(),
{
    if s.len() > 0 && is_white_space(s[0]) {
        trim_start(s.drop_first())
    } else {
        s
    }
}

/// `s` without its trailing white space.
pub open spec fn trim_end(s: Seq<char>) -> Seq<char>
    decreases s.len(),
{
    if s.len() > 0 && is_white_space(s.last()) {
        trim_end(s.drop_last())
    } else {
        s
    }
}

/// `s` without leading and trailing white space, as `str::trim` gives it.
pub open spec fn trimmed(s: Seq<char>) -> Seq<char> {
    trim_end(trim_start(s))
}

/// Whether `c` is white space.
pub fn white_space(c: char) -> (r: bool)
    ensures
        r == is_white_space(c),
{
    let n = c as u32;
    (0x9 <= n && n <= 0xD) || n == 0x20 || n == 0x85 || n == 0xA0 || n == 0x1680 || (0x2000 <= n
        && n <= 0x200A) || n == 0x2028 || n == 0x2029 || n == 0x202F || n == 0x205F || n == 0x3000
}

/// Dropping `a` leading white characters, where the next one is not white, is `trim_start`.
proof fn lemma_trim_start_at(s: Seq<char>, a: int)
    requires
        0 <= a <= s.len(),
        forall|k: int| 0 <= k < a ==> is_white_space(#[trigger] s[k]),
        a == s.len() || !is_white_space(s[a]),
    ensures
        trim_start(s) == s.skip(a),
    decreases a,
{
    if a == 0 {
        assert(s.skip(0) =~= s);
    } else {
        let t = s.drop_first();
        assert forall|k: int| 0 <= k < a - 1 implies is_white_space(#[trigger] t[k]) by {
            assert(t[k] == s[k + 1]);
        }
        if a < s.len() {
            assert(t[a - 1] == s[a]);
        }
        lemma_trim_start_at(t, a - 1);
        assert(t.skip(a - 1) =~= s.skip(a));
    }
}

/// Keeping `b` characters, where all after them are white and the last kept is not, is `trim_end`.
proof fn lemma_trim_end_at(s: Seq<char>, b: int)
    requires
        0 <= b <= s.len(),
        forall|k: int| b <= k < s.len() ==> is_white_space(#[trigger] s[k]),
        b == 0 || !is_white_space(s[b - 1]),
    ensures
        trim_end(s) == s.take(b),
    decreases s.len() - b,
{
    if b == s.len() {
        assert(s.take(b) =~= s);
    } else {
        let t = s.drop_last();
        assert forall|k: int| b <= k < t.len() implies is_white_space(#[trigger] t[k]) by {
            assert(t[k] == s[k]);
        }
        if b > 0 {
            assert(t[b - 1] == s[b - 1]);
        }
        lemma_trim_end_at(t, b);
        assert(t.take(b) =~= s.take(b));
    }
}

/// `s` without leading and trailing white space.
pub fn trim(s: &str) -> (r: String)
    ensures
        r@ == trimmed(s@),
{
    let v = chars_of(s);
    let mut a: usize = 0;
    while a < v.len() && white_space(v[a])
        invariant
            a <= v.len(),
            forall|k: int| 0 <= k < a ==> is_white_space(#[trigger] v@[k]),
        decreases v.len() - a,
    {
        a = a + 1;
    }
    let mut b: usize = v.len();
    while b > a && white_space(v[b - 1])
        invariant
            a <= b <= v.len(),
            forall|k: int| b <= k < v.len() ==> is_white_space(#[trigger] v@[k]),
        decreases b,
    {
        b = b - 1;
    }
    let mut out: Vec<char> = Vec::new();
    let mut i: usize = a;
    while i < b
        invariant
            a <= i <= b <= v.len(),
            out@ == v@.subrange(a as int, i as int),
        decreases b - i,
    {
        out.push(v[i]);
        i = i + 1;
        assert(out@ =~= v@.subrange(a as int, i as int));
    }
    proof {
        lemma_trim_start_at(v@, a as int);
        let t = v@.skip(a as int);
        assert forall|k: int| b - a <= k < t.len() implies is_white_space(#[trigger] t[k]) by {
            assert(t[k] == v@[k + a]);
        }
        if b > a {
            assert(t[b - a - 1] == v@[b - 1]);
        }
        lemma_trim_end_at(t, b - a);
        assert(t.take(b - a) =~= v@.subrange(a as int, b as int));
    }
    string_of(out.as_slice())
}

// ---------------------------------------------------------------------------
// Case mapping
// ---------------------------------------------------------------------------

/// What `str::to_lowercase` returns for a string (full Unicode case mapping, not restated here).
pub uninterp spec fn lowercased(s: Seq<char>) -> Seq<char>;

/// `str::to_lowercase`: the result is named `lowercased` of the argument.
#[verifier::external_body]
pub fn to_lowercase(s: &str) -> (r: String)
    ensures
        r@ == lowercased(s@),
{
    s.to_lowercase()
}

// ---------------------------------------------------------------------------
// Decimal numbers
// ---------------------------------------------------------------------------

/// The decimal digit for `d < 10`.
pub open spec fn digit_char(d: nat) -> char {
    if d == 0 {
        '0'
    } else if d == 1 {
        '1'
    } else if d == 2 {
        '2'
    } else if d == 3 {
        '3'
    } else if d == 4 {
        '4'
    } else if d == 5 {
        '5'
    } else if d == 6 {
        '6'
    } else if d == 7 {
        '7'
    } else if d == 8 {
        '8'
    } else {
        '9'
    }
}

/// The decimal notation of a natural number, without leading zeros.
pub open spec fn decimal(n: nat) -> Seq<char>
    decreases n,
{
    if n < 10 {
        seq![digit_char(n)]
    } else {
        decimal(n / 10).push(digit_char(n % 10))
    }
}

/// The decimal notation of an integer, with a leading `-` when negative.
pub open spec fn signed_decimal(n: int) -> Seq<char> {
    if n < 0 {
        seq!['-'] + decimal((-n) as nat)
    } else {
        decimal(n as nat)
    }
}

fn digit(d: u64) -> (c: char)
    requires
        d < 10,
    ensures
        c == digit_char(d as nat),
{
    if d == 0 {
        '0'
    } else if d == 1 {
        '1'
    } else if d == 2 {
        '2'
    } else if d == 3 {
        '3'
    } else if d == 4 {
        '4'
    } else if d == 5 {
        '5'
    } else if d == 6 {
        '6'
    } else if d == 7 {
        '7'
    } else if d == 8 {
        '8'
    } else {
        '9'
    }
}

/// The decimal digits of `n`.
pub fn decimal_chars(n: u64) -> (v: Vec<char>)
    ensures
        v@ == decimal(n as nat),
    decreases n,
{
    if n < 10 {
        let mut v = Vec::new();
        v.push(digit(n));
        v
    } else {
        let mut v = decimal_chars(n / 10);
        v.push(digit(n % 10));
        v
    }
}

/// `u64::to_string`.
pub fn u64_to_string(n: u64) -> (s: String)
    ensures
        s@ == decimal(n as nat),
{
    let v = decimal_chars(n);
    string_of(v.as_slice())
}

/// `i64::to_string`.
pub fn i64_to_string(n: i64) -> (s: String)
    ensures
        s@ == signed_decimal(n as int),
{
    if n < 0 {
        let m: u64 = if n == i64::MIN {
            9223372036854775808u64
        } else {
            (-n) as u64
        };
        let mut v: Vec<char> = Vec::new();
        v.push('-');
        let d = decimal_chars(m);
        let mut i: usize = 0;
        while i < d.len()
            invariant
                i <= d.len(),
                v@ == seq!['-'] + d@.take(i as int),
            decreases d.len() - i,
        {
            v.push(d[i]);
            i = i + 1;
            assert(v@ =~= seq!['-'] + d@.take(i as int));
        }
        assert(d@.take(d.len() as int) =~= d@);
        string_of(v.as_slice())
    } else {
        u64_to_string(n as u64)
    }
}

/// `s` preceded by spaces up to `width` characters (the `{:>width}` and, for numbers,
/// `{:width}` formats).
pub open spec fn pad_left(s: Seq<char>, width: nat) -> Seq<char> {
    if s.len() >= width {
        s
    } else {
        Seq::new((width - s.len()) as nat, |i: int| ' ') + s
    }
}

/// Pads `s` on the left with spaces to `width` characters.
pub fn pad_left_str(s: &str, width: usize) -> (r: String)
    ensures
        r@ == pad_left(s@, width as nat),
{
    let v = chars_of(s);
    if v.len() >= width {
        return owned(s);
    }
    let pad = width - v.len();
    let mut out: Vec<char> = Vec::new();
    let mut i: usize = 0;
    while i < pad
        invariant
            i <= pad,
            out@ == Seq::new(i as nat, |j: int| ' '),
        decreases pad - i,
    {
        out.push(' ');
        i = i + 1;
        assert(out@ =~= Seq::new(i as nat, |j: int| ' '));
    }
    let mut k: usize = 0;
    while k < v.len()
        invariant
            k <= v.len(),
            out@ == Seq::new(pad as nat, |j: int| ' ') + v@.take(k as int),
        decreases v.len() - k,
    {
        out.push(v[k]);
        k = k + 1;
        assert(out@ =~= Seq::new(pad as nat, |j: int| ' ') + v@.take(k as int));
    }
    assert(v@.take(v.len() as int) =~= v@);
    string_of(out.as_slice())
}

/// The first `n` bytes of a text, as text (what slicing `&s[..n]` gives).
pub open spec fn byte_prefix(s: Seq<char>, n: int) -> Seq<char> {
    decode_utf8(encode_utf8(s).subrange(0, n))
}

/// The byte length of a text as `str::len` reports it.
pub open spec fn byte_len(s: Seq<char>) -> int {
    (encode_utf8(s).len() as usize) as int
}

/// The first `n` bytes of `s`, at a character boundary.
pub fn prefix_bytes(s: &str, n: usize) -> (r: String)
    requires
        is_char_boundary(encode_utf8(s@), n as int),
    ensures
        r@ == byte_prefix(s@, n as int),
{
    let (head, _) = s.split_at(n);
    proof {
        encode_utf8_decode_utf8(head@);
    }
    owned(head)
}

} // verus!
