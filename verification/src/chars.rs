//! Character-level utilities for the line-oriented grammar: locating
//! separator characters, trimming surrounding blanks, splitting a buffer
//! into physical lines, and comparing strings.

use vstd::prelude::*;
use vstd::string::StrSliceExecFns;

verus! {

/// The blank characters that surround tokens: the ASCII whitespace set.
pub open spec fn is_ws(c: char) -> bool {
    c == ' ' || c == '\t' || c == '\n' || c == '\r' || c == '\u{b}' || c == '\u{c}'
}

/// Characters allowed in a key name: ASCII letters, digits, and `-`.
pub open spec fn is_key_char(c: char) -> bool {
    ('A' <= c && c <= 'Z') || ('a' <= c && c <= 'z') || ('0' <= c && c <= '9') || c == '-'
}

/// A well-formed key name: nonempty and made of key characters only.
pub open spec fn is_valid_key(s: Seq<char>) -> bool {
    s.len() > 0 && (forall|i: int| 0 <= i < s.len() ==> is_key_char(#[trigger] s[i]))
}

/// Leading blanks removed.
pub open spec fn trim_start(s: Seq<char>) -> Seq<char>
    decreases s.len(),
{
    if s.len() > 0 && is_ws(s[0]) {
        trim_start(s.drop_first())
    } else {
        s
    }
}

/// Trailing blanks removed.
pub open spec fn trim_end(s: Seq<char>) -> Seq<char>
    decreases s.len(),
{
    if s.len() > 0 && is_ws(s.last()) {
        trim_end(s.drop_last())
    } else {
        s
    }
}

/// Leading and trailing blanks removed.
pub open spec fn trim(s: Seq<char>) -> Seq<char> {
    trim_end(trim_start(s))
}

/// A `\r` at the very end removed; the rest untouched.
pub open spec fn strip_tail_cr(s: Seq<char>) -> Seq<char> {
    if s.len() > 0 && s.last() == '\r' {
        s.drop_last()
    } else {
        s
    }
}

/// The physical lines of a text buffer: segments between `\n` characters,
/// each with a trailing `\r` removed; a final newline does not open an
/// extra empty line.
pub open spec fn spec_lines(s: Seq<char>) -> Seq<Seq<char>>
    decreases s.len(),
{
    if s.len() == 0 {
        seq![]
    } else {
        match s.index_of_first('\n') {
            Some(i0) => {
                // index_of_first always yields an index within the sequence
                let i = if 0 <= i0 < s.len() {
                    i0
                } else {
                    0
                };
                seq![strip_tail_cr(s.subrange(0, i))] + spec_lines(s.subrange(i + 1, s.len() as int))
            },
            None => seq![s],
        }
    }
}

/// A sequence without `c` has no last occurrence of `c`.
pub proof fn lemma_index_of_last_none(s: Seq<char>, c: char)
    requires
        !s.contains(c),
    ensures
        s.index_of_last(c) is None,
{
    s.index_of_last_ensures(c);
}

/// A sequence without `c` has no first occurrence of `c`.
pub proof fn lemma_index_of_first_none(s: Seq<char>, c: char)
    requires
        !s.contains(c),
    ensures
        s.index_of_first(c) is None,
{
    s.index_of_first_ensures(c);
}

/// In `a + [c] + b` with `c` absent from `b`, the last occurrence of `c`
/// is the separator itself.
pub proof fn lemma_index_of_last_concat(a: Seq<char>, b: Seq<char>, c: char)
    requires
        !b.contains(c),
    ensures
        (a + seq![c] + b).index_of_last(c) == Some(a.len() as int),
{
    let s = a + seq![c] + b;
    assert(s[a.len() as int] == c);
    assert(s.contains(c));
    s.index_of_last_ensures(c);
    match s.index_of_last(c) {
        Some(q) => {
            if q > a.len() {
                assert(b[q - a.len() - 1] == c);
                assert(b.contains(c));
            }
            if q < a.len() {
                assert(s[a.len() as int] == c);
            }
        },
        None => {},
    }
}

/// In `a + [c] + b` with `c` absent from `a`, the first occurrence of `c`
/// is the separator itself.
pub proof fn lemma_index_of_first_concat(a: Seq<char>, b: Seq<char>, c: char)
    requires
        !a.contains(c),
    ensures
        (a + seq![c] + b).index_of_first(c) == Some(a.len() as int),
{
    let s = a + seq![c] + b;
    assert(s[a.len() as int] == c);
    assert(s.contains(c));
    s.index_of_first_ensures(c);
    match s.index_of_first(c) {
        Some(q) => {
            if q < a.len() {
                assert(a[q] == c);
                assert(a.contains(c));
            }
            if q > a.len() {
                assert(s[a.len() as int] == c);
            }
        },
        None => {},
    }
}

/// Index of the first occurrence of `c` in `s`, if any.
pub fn find_char(s: &str, c: char) -> (r: Option<usize>)
    ensures
        match r {
            Some(i) => s@.index_of_first(c) == Some(i as int),
            None => s@.index_of_first(c) is None,
        },
{
    let n = s.unicode_len();
    let mut i: usize = 0;
    while i < n
        invariant
            n == s@.len(),
            i <= n,
            forall|j: int| 0 <= j < i ==> s@[j] != c,
        decreases n - i,
    {
        if s.get_char(i) == c {
            proof {
                s@.index_of_first_ensures(c);
            }
            return Some(i);
        }
        i = i + 1;
    }
    proof {
        s@.index_of_first_ensures(c);
    }
    None
}

/// Index of the last occurrence of `c` in `s`, if any.
pub fn rfind_char(s: &str, c: char) -> (r: Option<usize>)
    ensures
        match r {
            Some(i) => s@.index_of_last(c) == Some(i as int),
            None => s@.index_of_last(c) is None,
        },
{
    let n = s.unicode_len();
    let mut i: usize = n;
    while i > 0
        invariant
            n == s@.len(),
            i <= n,
            forall|j: int| i <= j < n ==> s@[j] != c,
        decreases i,
    {
        i = i - 1;
        if s.get_char(i) == c {
            proof {
                s@.index_of_last_ensures(c);
            }
            return Some(i);
        }
    }
    proof {
        s@.index_of_last_ensures(c);
    }
    None
}

/// Whether the two strings hold the same characters.
pub fn str_eq(a: &str, b: &str) -> (r: bool)
    ensures
        r == (a@ == b@),
{
    let na = a.unicode_len();
    let nb = b.unicode_len();
    if na != nb {
        return false;
    }
    let mut i: usize = 0;
    while i < na
        invariant
            na == a@.len(),
            na == b@.len(),
            i <= na,
            forall|j: int| 0 <= j < i ==> a@[j] == b@[j],
        decreases na - i,
    {
        if a.get_char(i) != b.get_char(i) {
            return false;
        }
        i = i + 1;
    }
    proof {
        assert(a@ =~= b@);
    }
    true
}

/// Whether every character of `s` may stand in a key name, and `s` is
/// nonempty.
pub fn check_key_chars(s: &str) -> (r: bool)
    ensures
        r == is_valid_key(s@),
{
    let n = s.unicode_len();
    if n == 0 {
        return false;
    }
    let mut i: usize = 0;
    while i < n
        invariant
            n == s@.len(),
            i <= n,
            forall|j: int| 0 <= j < i ==> is_key_char(#[trigger] s@[j]),
        decreases n - i,
    {
        let c = s.get_char(i);
        let u = c as u32;
        let ok = (65 <= u && u <= 90) || (97 <= u && u <= 122) || (48 <= u && u <= 57) || c == '-';
        if !ok {
            assert(!is_key_char(s@[i as int]));
            return false;
        }
        assert(is_key_char(s@[i as int]));
        i = i + 1;
    }
    true
}

fn ws_char(c: char) -> (r: bool)
    ensures
        r == is_ws(c),
{
    c == ' ' || c == '\t' || c == '\n' || c == '\r' || c == '\u{b}' || c == '\u{c}'
}

proof fn lemma_trim_start_range(s: Seq<char>, lo: int)
    requires
        0 <= lo <= s.len(),
        forall|j: int| 0 <= j < lo ==> is_ws(#[trigger] s[j]),
        lo < s.len() ==> !is_ws(s[lo]),
    ensures
        trim_start(s) == s.subrange(lo, s.len() as int),
    decreases lo,
{
    if lo == 0 {
        assert(s.subrange(0, s.len() as int) =~= s);
    } else {
        let d = s.drop_first();
        assert(is_ws(s[0]));
        lemma_trim_start_range(d, lo - 1);
        assert(d.subrange(lo - 1, d.len() as int) =~= s.subrange(lo, s.len() as int));
    }
}

proof fn lemma_trim_end_range(s: Seq<char>, hi: int)
    requires
        0 <= hi <= s.len(),
        forall|j: int| hi <= j < s.len() ==> is_ws(#[trigger] s[j]),
        hi > 0 ==> !is_ws(s[hi - 1]),
    ensures
        trim_end(s) == s.subrange(0, hi),
    decreases s.len() - hi,
{
    if hi == s.len() {
        assert(s.subrange(0, s.len() as int) =~= s);
    } else {
        let d = s.drop_last();
        assert(is_ws(s.last()));
        lemma_trim_end_range(d, hi);
        assert(d.subrange(0, hi) =~= s.subrange(0, hi));
    }
}

/// The trimmed form of `s`: leading and trailing blanks removed.
pub fn trim_str<'a>(s: &'a str) -> (r: &'a str)
    ensures
        r@ == trim(s@),
{
    let n = s.unicode_len();
    let mut lo: usize = 0;
    while lo < n && ws_char(s.get_char(lo))
        invariant
            n == s@.len(),
            lo <= n,
            forall|j: int| 0 <= j < lo ==> is_ws(#[trigger] s@[j]),
        decreases n - lo,
    {
        lo = lo + 1;
    }
    proof {
        lemma_trim_start_range(s@, lo as int);
    }
    if lo == n {
        let r = s.substring_char(n, n);
        proof {
            assert(trim_start(s@) =~= Seq::<char>::empty());
            assert(trim(s@) =~= Seq::<char>::empty());
        }
        return r;
    }
    let mut hi: usize = n;
    while hi > lo && ws_char(s.get_char(hi - 1))
        invariant
            n == s@.len(),
            lo <= hi <= n,
            lo < n,
            !is_ws(s@[lo as int]),
            forall|j: int| hi <= j < n ==> is_ws(#[trigger] s@[j]),
        decreases hi,
    {
        hi = hi - 1;
    }
    // the character at lo is not blank, so the scan from the right stops at or after lo + 1
    assert(hi > lo);
    let r = s.substring_char(lo, hi);
    proof {
        let t = trim_start(s@);
        assert(t == s@.subrange(lo as int, n as int));
        lemma_trim_end_range(t, hi - lo);
        assert(t.subrange(0, hi - lo) =~= s@.subrange(lo as int, hi as int));
    }
    r
}

/// The physical lines of `s`, as [`spec_lines`] describes them.
pub fn split_lines(s: &str) -> (r: Vec<String>)
    ensures
        r@.len() == spec_lines(s@).len(),
        forall|k: int| 0 <= k < r@.len() ==> #[trigger] r@[k]@ == spec_lines(s@)[k],
{
    let mut r: Vec<String> = Vec::new();
    let mut cur: &str = s;
    let mut n = cur.unicode_len();
    while n != 0
        invariant
            n == cur@.len(),
            r@.map_values(|x: String| x@) + spec_lines(cur@) == spec_lines(s@),
        decreases n,
    {
        let ghost prev = r@.map_values(|x: String| x@);
        match find_char(cur, '\n') {
            Some(i) => {
                proof {
                    cur@.index_of_first_ensures('\n');
                }
                let line_end = if i > 0 && cur.get_char(i - 1) == '\r' {
                    i - 1
                } else {
                    i
                };
                proof {
                    assert(strip_tail_cr(cur@.subrange(0, i as int)) =~= cur@.subrange(
                        0,
                        line_end as int,
                    ));
                }
                let line = cur.substring_char(0, line_end);
                let rest = cur.substring_char(i + 1, n);
                proof {
                    assert(spec_lines(cur@) =~= seq![cur@.subrange(0, line_end as int)]
                        + spec_lines(rest@));
                }
                r.push(line.to_owned());
                proof {
                    assert(r@.map_values(|x: String| x@) =~= prev.push(
                        cur@.subrange(0, line_end as int),
                    ));
                    assert(prev.push(cur@.subrange(0, line_end as int)) + spec_lines(rest@)
                        =~= prev + spec_lines(cur@));
                }
                cur = rest;
                n = n - i - 1;
            },
            None => {
                proof {
                    cur@.index_of_first_ensures('\n');
                    assert(spec_lines(cur@) =~= seq![cur@]);
                }
                r.push(cur.to_owned());
                let rest = cur.substring_char(n, n);
                proof {
                    assert(rest@.len() == 0);
                    assert(r@.map_values(|x: String| x@) =~= prev.push(cur@));
                    assert(prev.push(cur@) + spec_lines(rest@) =~= prev + spec_lines(cur@));
                }
                cur = rest;
                n = 0;
            },
        }
    }
    proof {
        assert(spec_lines(cur@) =~= Seq::<Seq<char>>::empty());
        assert(r@.map_values(|x: String| x@) =~= spec_lines(s@));
        assert(forall|k: int|
            0 <= k < r@.len() ==> #[trigger] r@[k]@ == r@.map_values(|x: String| x@)[k]);
    }
    r
}

} // verus!
