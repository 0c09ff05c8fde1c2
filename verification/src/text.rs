//! Character and byte-level text helpers: Unicode whitespace, trimming,
//! suffix tests and equality.

use vstd::prelude::*;
use vstd::string::{StrSliceExecFns, StringSliceAdditionalSpecFns};

verus! {

/// The Unicode `White_Space` property (PropList.txt), which is what
/// `char::is_whitespace` and `str::trim` go by.
pub open spec fn is_whitespace_char(c: char) -> bool {
    let u = c as u32;
    ||| 0x9 <= u <= 0xD
    ||| u == 0x20
    ||| u == 0x85
    ||| u == 0xA0
    ||| u == 0x1680
    ||| 0x2000 <= u <= 0x200A
    ||| u == 0x2028
    ||| u == 0x2029
    ||| u == 0x202F
    ||| u == 0x205F
    ||| u == 0x3000
}

/// Whether `c` is a Unicode whitespace character.
pub fn is_whitespace(c: char) -> (b: bool)
    ensures
        b == is_whitespace_char(c),
{
    let u = c as u32;
    (0x9 <= u && u <= 0xD) || u == 0x20 || u == 0x85 || u == 0xA0 || u == 0x1680 || (0x2000 <= u
        && u <= 0x200A) || u == 0x2028 || u == 0x2029 || u == 0x202F || u == 0x205F || u == 0x3000
}

/// `s` without its leading whitespace.
pub open spec fn trim_start_chars(s: Seq<char>) -> Seq<char>
    decreases s.len(),
{
    if s.len() > 0 && is_whitespace_char(s[0]) {
        trim_start_chars(s.drop_first())
    } else {
        s
    }
}

/// `s` without its trailing whitespace.
pub open spec fn trim_end_chars(s: Seq<char>) -> Seq<char>
    decreases s.len(),
{
    if s.len() > 0 && is_whitespace_char(s.last()) {
        trim_end_chars(s.drop_last())
    } else {
        s
    }
}

/// `s` without leading and trailing whitespace.
pub open spec fn trim_chars(s: Seq<char>) -> Seq<char> {
    trim_end_chars(trim_start_chars(s))
}

proof fn lemma_trim_start_skip(s: Seq<char>, k: int)
    requires
        0 <= k <= s.len(),
        forall|i: int| 0 <= i < k ==> is_whitespace_char(#[trigger] s[i]),
    ensures
        trim_start_chars(s) == trim_start_chars(s.subrange(k, s.len() as int)),
    decreases k,
{
    if k > 0 {
        assert(s.drop_first() =~= s.subrange(1, s.len() as int));
        let t = s.drop_first();
        assert(t.subrange(k - 1, t.len() as int) =~= s.subrange(k, s.len() as int));
        lemma_trim_start_skip(t, k - 1);
    } else {
        assert(s.subrange(0, s.len() as int) =~= s);
    }
}

proof fn lemma_trim_end_skip(s: Seq<char>, k: int)
    requires
        0 <= k <= s.len(),
        forall|i: int| k <= i < s.len() ==> is_whitespace_char(#[trigger] s[i]),
    ensures
        trim_end_chars(s) == trim_end_chars(s.subrange(0, k)),
    decreases s.len() - k,
{
    if k < s.len() {
        let t = s.drop_last();
        assert(t.subrange(0, k) =~= s.subrange(0, k));
        lemma_trim_end_skip(t, k);
    } else {
        assert(s.subrange(0, s.len() as int) =~= s);
    }
}

proof fn lemma_trim_start_shape(s: Seq<char>) -> (i: int)
    ensures
        0 <= i <= s.len(),
        trim_start_chars(s) == s.subrange(i, s.len() as int),
        forall|k: int| 0 <= k < i ==> is_whitespace_char(#[trigger] s[k]),
        i < s.len() ==> !is_whitespace_char(s[i]),
    decreases s.len(),
{
    if s.len() > 0 && is_whitespace_char(s[0]) {
        let t = s.drop_first();
        let i0 = lemma_trim_start_shape(t);
        assert(t.subrange(i0, t.len() as int) =~= s.subrange(i0 + 1, s.len() as int));
        assert forall|k: int| 0 <= k < i0 + 1 implies is_whitespace_char(#[trigger] s[k]) by {
            if k > 0 {
                assert(s[k] == t[k - 1]);
            }
        }
        i0 + 1
    } else {
        assert(s.subrange(0, s.len() as int) =~= s);
        0
    }
}

proof fn lemma_trim_end_shape(s: Seq<char>) -> (j: int)
    ensures
        0 <= j <= s.len(),
        trim_end_chars(s) == s.subrange(0, j),
        forall|k: int| j <= k < s.len() ==> is_whitespace_char(#[trigger] s[k]),
        j > 0 ==> !is_whitespace_char(s[j - 1]),
    decreases s.len(),
{
    if s.len() > 0 && is_whitespace_char(s.last()) {
        let t = s.drop_last();
        let j0 = lemma_trim_end_shape(t);
        assert(t.subrange(0, j0) =~= s.subrange(0, j0));
        assert forall|k: int| j0 <= k < s.len() implies is_whitespace_char(#[trigger] s[k]) by {
            if k < s.len() - 1 {
                assert(s[k] == t[k]);
            }
        }
        j0
    } else {
        assert(s.subrange(0, s.len() as int) =~= s);
        s.len() as int
    }
}

/// Trimming removes whitespace from both ends and nothing else: the result
/// is the piece `s[start..end]`, everything before `start` and from `end` on
/// is whitespace, and a non-empty result neither starts nor ends with it.
pub proof fn law_trim(s: Seq<char>) -> (bounds: (int, int))
    ensures
        0 <= bounds.0 <= bounds.1 <= s.len(),
        trim_chars(s) == s.subrange(bounds.0, bounds.1),
        forall|k: int| 0 <= k < bounds.0 ==> is_whitespace_char(#[trigger] s[k]),
        forall|k: int| bounds.1 <= k < s.len() ==> is_whitespace_char(#[trigger] s[k]),
        bounds.0 < bounds.1 ==> !is_whitespace_char(s[bounds.0]) && !is_whitespace_char(
            s[bounds.1 - 1],
        ),
{
    let i = lemma_trim_start_shape(s);
    let rest = s.subrange(i, s.len() as int);
    let j = lemma_trim_end_shape(rest);
    assert(rest.subrange(0, j) =~= s.subrange(i, i + j));
    assert forall|k: int| i + j <= k < s.len() implies is_whitespace_char(#[trigger] s[k]) by {
        assert(s[k] == rest[k - i]);
    }
    if j > 0 {
        assert(rest[j - 1] == s[i + j - 1]);
        assert(rest[0] == s[i]);
    }
    (i, i + j)
}

/// `s` with leading and trailing whitespace removed (as `str::trim`).
pub fn trim(s: &str) -> (t: &str)
    ensures
        t@ == trim_chars(s@),
{
    let n = s.unicode_len();
    let mut start: usize = 0;
    while start < n && is_whitespace(s.get_char(start))
        invariant
            n == s@.len(),
            start <= n,
            forall|i: int| 0 <= i < start ==> is_whitespace_char(#[trigger] s@[i]),
        decreases n - start,
    {
        start = start + 1;
    }
    let ghost rest = s@.subrange(start as int, n as int);
    proof {
        lemma_trim_start_skip(s@, start as int);
        if start < n {
            assert(rest[0] == s@[start as int]);
        }
    }
    assert(trim_start_chars(s@) == rest);
    let mut end: usize = n;
    while end > start && is_whitespace(s.get_char(end - 1))
        invariant
            n == s@.len(),
            start <= end <= n,
            rest == s@.subrange(start as int, n as int),
            forall|i: int| end <= i < n ==> is_whitespace_char(#[trigger] s@[i]),
        decreases end - start,
    {
        end = end - 1;
    }
    proof {
        assert forall|i: int| end - start <= i < rest.len() implies is_whitespace_char(
            #[trigger] rest[i],
        ) by {
            assert(rest[i] == s@[start + i]);
        }
        lemma_trim_end_skip(rest, end - start);
        assert(rest.subrange(0, end - start) =~= s@.subrange(start as int, end as int));
        if end > start {
            assert(rest.subrange(0, end - start).last() == s@[end - 1]);
        }
    }
    s.substring_char(start, end)
}

/// `piece` stands in `t` just before position `end`.
pub open spec fn ends_at(t: Seq<u8>, end: int, piece: Seq<u8>) -> bool {
    piece.len() <= end <= t.len() && t.subrange(end - piece.len(), end) == piece
}

/// Whether `piece` stands in `b` just before position `end`.
pub fn ends_at_bytes(b: &[u8], end: usize, piece: &[u8]) -> (r: bool)
    ensures
        r == ends_at(b@, end as int, piece@),
{
    if piece.len() > end || end > b.len() {
        return false;
    }
    let off = end - piece.len();
    let mut i: usize = 0;
    while i < piece.len()
        invariant
            off + piece@.len() == end <= b@.len(),
            off + piece.len() == end,
            i <= piece@.len(),
            forall|j: int| 0 <= j < i ==> piece@[j] == b@[off + j],
        decreases piece@.len() - i,
    {
        if piece[i] != b[off + i] {
            assert(b@.subrange(off as int, end as int)[i as int] != piece@[i as int]);
            return false;
        }
        i = i + 1;
    }
    assert(piece@ =~= b@.subrange(off as int, end as int));
    true
}

/// Whether `a` and `b` hold the same bytes.
pub fn bytes_eq(a: &[u8], b: &[u8]) -> (r: bool)
    ensures
        r == (a@ == b@),
{
    if a.len() != b.len() {
        return false;
    }
    let mut i: usize = 0;
    while i < a.len()
        invariant
            a@.len() == b@.len(),
            i <= a@.len(),
            forall|j: int| 0 <= j < i ==> a@[j] == b@[j],
        decreases a@.len() - i,
    {
        if a[i] != b[i] {
            return false;
        }
        i = i + 1;
    }
    assert(a@ =~= b@);
    true
}

/// Two strings are equal exactly when their UTF-8 encodings are.
pub proof fn lemma_str_eq_bytes(a: &str, b: &str)
    ensures
        (a@ == b@) <==> (a.spec_bytes() == b.spec_bytes()),
{
    vstd::utf8::encode_utf8_decode_utf8(a@);
    vstd::utf8::encode_utf8_decode_utf8(b@);
}

/// Whether `a` and `b` are the same string.
pub fn str_eq(a: &str, b: &str) -> (r: bool)
    ensures
        r == (a@ == b@),
{
    proof {
        lemma_str_eq_bytes(a, b);
    }
    bytes_eq(a.as_bytes(), b.as_bytes())
}

} // verus!
