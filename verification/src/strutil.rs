//! Character and string helpers shared across the crate.
//!
//! Profile names are compared after trimming and ASCII-case folding, section
//! and path names are matched by prefix, and a few places need decimal
//! rendering of an index. All of that is implemented here over `Seq<char>`
//! views.

use vstd::prelude::*;

verus! {

/// A character with the Unicode `White_Space` property, the set that
/// `str::trim` removes at either end of a string.
pub open spec fn is_space(c: char) -> bool {
    c == ' ' || c == '\t' || c == '\n' || c == '\r' || c == '\u{b}' || c == '\u{c}'
        || c == '\u{85}' || c == '\u{a0}' || c == '\u{1680}' || c == '\u{2000}'
        || c == '\u{2001}' || c == '\u{2002}' || c == '\u{2003}' || c == '\u{2004}'
        || c == '\u{2005}' || c == '\u{2006}' || c == '\u{2007}' || c == '\u{2008}'
        || c == '\u{2009}' || c == '\u{200a}' || c == '\u{2028}' || c == '\u{2029}'
        || c == '\u{202f}' || c == '\u{205f}' || c == '\u{3000}'
}

pub open spec fn trim_start_of(s: Seq<char>) -> Seq<char>
    decreases s.len(),
{
    if s.len() > 0 && is_space(s[0]) {
        trim_start_of(s.drop_first())
    } else {
        s
    }
}

pub open spec fn trim_end_of(s: Seq<char>) -> Seq<char>
    decreases s.len(),
{
    if s.len() > 0 && is_space(s[s.len() - 1]) {
        trim_end_of(s.drop_last())
    } else {
        s
    }
}

/// The view of `s.trim()`: the string with leading and trailing whitespace
/// removed.
pub open spec fn trim_of(s: Seq<char>) -> Seq<char> {
    trim_end_of(trim_start_of(s))
}

pub fn is_space_char(c: char) -> (r: bool)
    ensures
        r == is_space(c),
{
    c == ' ' || c == '\t' || c == '\n' || c == '\r' || c == '\u{b}' || c == '\u{c}'
        || c == '\u{85}' || c == '\u{a0}' || c == '\u{1680}' || c == '\u{2000}'
        || c == '\u{2001}' || c == '\u{2002}' || c == '\u{2003}' || c == '\u{2004}'
        || c == '\u{2005}' || c == '\u{2006}' || c == '\u{2007}' || c == '\u{2008}'
        || c == '\u{2009}' || c == '\u{200a}' || c == '\u{2028}' || c == '\u{2029}'
        || c == '\u{202f}' || c == '\u{205f}' || c == '\u{3000}'
}

proof fn lemma_trim_start_prefix(s: Seq<char>, i: int)
    requires
        0 <= i <= s.len(),
        forall|k: int| 0 <= k < i ==> is_space(s[k]),
        i < s.len() ==> !is_space(s[i]),
    ensures
        trim_start_of(s) =~= s.subrange(i, s.len() as int),
    decreases i,
{
    if i == 0 {
        if s.len() > 0 && is_space(s[0]) {
            assert(false);
        }
    } else {
        assert(is_space(s[0]));
        lemma_trim_start_prefix(s.drop_first(), i - 1);
        assert(s.drop_first().subrange(i - 1, s.drop_first().len() as int) =~= s.subrange(
            i,
            s.len() as int,
        ));
    }
}

proof fn lemma_trim_end_suffix(s: Seq<char>, j: int)
    requires
        0 <= j <= s.len(),
        forall|k: int| j <= k < s.len() ==> is_space(s[k]),
        j > 0 ==> !is_space(s[j - 1]),
    ensures
        trim_end_of(s) =~= s.subrange(0, j),
    decreases s.len() - j,
{
    if j == s.len() {
        if s.len() > 0 && is_space(s[s.len() - 1]) {
            assert(false);
        }
    } else {
        assert(is_space(s[s.len() - 1]));
        lemma_trim_end_suffix(s.drop_last(), j);
        assert(s.drop_last().subrange(0, j) =~= s.subrange(0, j));
    }
}

/// `str::trim`: the string without leading and trailing whitespace.
pub fn trim<'a>(s: &'a str) -> (r: &'a str)
    ensures
        r@ == trim_of(s@),
{
    let n = s.unicode_len();
    let mut i: usize = 0;
    while i < n && is_space_char(s.get_char(i))
        invariant
            0 <= i <= n,
            n == s@.len(),
            forall|k: int| 0 <= k < i ==> is_space(s@[k]),
        decreases n - i,
    {
        i = i + 1;
    }
    let mut j: usize = n;
    while j > i && is_space_char(s.get_char(j - 1))
        invariant
            i <= j <= n,
            n == s@.len(),
            forall|k: int| 0 <= k < i ==> is_space(s@[k]),
            i < s@.len() ==> !is_space(s@[i as int]),
            forall|k: int| j <= k < n ==> is_space(s@[k]),
        decreases j,
    {
        j = j - 1;
    }
    proof {
        lemma_trim_start_prefix(s@, i as int);
        let t = s@.subrange(i as int, s@.len() as int);
        if j > i {
            assert(!is_space(t[j - i - 1])) by {
                assert(t[j - i - 1] == s@[j - 1]);
            }
        }
        assert(forall|k: int| j - i <= k < t.len() ==> is_space(#[trigger] t[k]) ) by {
            assert(forall|k: int|
                j - i <= k < t.len() ==> t[k] == s@[k + i] && j <= k + i < s@.len());
        }
        lemma_trim_end_suffix(t, j - i);
        assert(t.subrange(0, j - i) =~= s@.subrange(i as int, j as int));
    }
    s.substring_char(i, j)
}

/// ASCII lower-case folding of a single character, as a scalar value.
pub open spec fn lower_u32(c: char) -> u32 {
    if 65 <= c as u32 && c as u32 <= 90 {
        (c as u32 + 32) as u32
    } else {
        c as u32
    }
}

/// The view-level meaning of `str::eq_ignore_ascii_case`.
pub open spec fn eq_ignore_case_of(a: Seq<char>, b: Seq<char>) -> bool {
    a.len() == b.len() && forall|k: int| 0 <= k < a.len() ==> lower_u32(a[k]) == lower_u32(b[k])
}

/// `str::eq_ignore_ascii_case`: equality up to ASCII case.
pub fn eq_ignore_ascii_case(a: &str, b: &str) -> (r: bool)
    ensures
        r == eq_ignore_case_of(a@, b@),
{
    let na = a.unicode_len();
    let nb = b.unicode_len();
    if na != nb {
        return false;
    }
    let mut i: usize = 0;
    while i < na
        invariant
            0 <= i <= na,
            na == a@.len(),
            na == b@.len(),
            forall|k: int| 0 <= k < i ==> lower_u32(a@[k]) == lower_u32(b@[k]),
        decreases na - i,
    {
        let ca = a.get_char(i) as u32;
        let cb = b.get_char(i) as u32;
        let la = if 65 <= ca && ca <= 90 {
            ca + 32
        } else {
            ca
        };
        let lb = if 65 <= cb && cb <= 90 {
            cb + 32
        } else {
            cb
        };
        if la != lb {
            return false;
        }
        i = i + 1;
    }
    true
}

/// Character-wise string equality; `r` holds exactly when the views agree.
pub fn str_eq(a: &str, b: &str) -> (r: bool)
    ensures
        r == (a@ == b@),
{
    let na = a.unicode_len();
    let nb = b.unicode_len();
    if na != nb {
        proof {
            assert(a@ != b@);
        }
        return false;
    }
    let mut i: usize = 0;
    while i < na
        invariant
            0 <= i <= na,
            na == a@.len(),
            na == b@.len(),
            forall|k: int| 0 <= k < i ==> a@[k] == b@[k],
        decreases na - i,
    {
        if a.get_char(i) != b.get_char(i) {
            proof {
                assert(a@[i as int] != b@[i as int]);
            }
            return false;
        }
        i = i + 1;
    }
    proof {
        assert(a@ =~= b@);
    }
    true
}

/// Whether `s` begins with `prefix`, compared character by character.
pub open spec fn starts_with_of(s: Seq<char>, prefix: Seq<char>) -> bool {
    s.len() >= prefix.len() && s.subrange(0, prefix.len() as int) == prefix
}

/// `str::starts_with`: prefix test on the character views.
pub fn starts_with(s: &str, prefix: &str) -> (r: bool)
    ensures
        r == starts_with_of(s@, prefix@),
{
    let n = s.unicode_len();
    let np = prefix.unicode_len();
    if n < np {
        return false;
    }
    let mut i: usize = 0;
    while i < np
        invariant
            0 <= i <= np,
            n == s@.len(),
            np == prefix@.len(),
            np <= n,
            forall|k: int| 0 <= k < i ==> s@[k] == prefix@[k],
        decreases np - i,
    {
        if s.get_char(i) != prefix.get_char(i) {
            proof {
                assert(s@.subrange(0, prefix@.len() as int)[i as int] != prefix@[i as int]);
            }
            return false;
        }
        i = i + 1;
    }
    proof {
        assert(s@.subrange(0, prefix@.len() as int) =~= prefix@);
    }
    true
}

/// Relies on `String::push`: appends exactly the given character.
#[verifier::external_body]
pub(crate) fn string_push(s: &mut String, c: char)
    ensures
        final(s)@ == old(s)@ + seq![c],
{
    s.push(c);
}

/// The decimal digit character for a value below ten.
pub open spec fn digit_char(d: int) -> char {
    if d == 0 {
        '0'
    } else if d == 1 {
        '1'
    } else if d == 2 {
        '2'
    } else if d == 3 {
        '3'
    } else if d == 4 {
        '4'
    } else if d == 5 {
        '5'
    } else if d == 6 {
        '6'
    } else if d == 7 {
        '7'
    } else if d == 8 {
        '8'
    } else {
        '9'
    }
}

/// The usual decimal rendering of a natural number, most significant digit
/// first, with no leading zeros (except for zero itself).
pub open spec fn dec_str_of(n: int) -> Seq<char>
    decreases n,
{
    if n < 10 {
        seq![digit_char(n)]
    } else {
        dec_str_of(n / 10) + seq![digit_char(n % 10)]
    }
}

fn push_dec_digits(s: &mut String, n: usize)
    ensures
        final(s)@ == old(s)@ + dec_str_of(n as int),
    decreases n,
{
    if n >= 10 {
        push_dec_digits(s, n / 10);
    }
    let d = n % 10;
    let c = if d == 0 {
        '0'
    } else if d == 1 {
        '1'
    } else if d == 2 {
        '2'
    } else if d == 3 {
        '3'
    } else if d == 4 {
        '4'
    } else if d == 5 {
        '5'
    } else if d == 6 {
        '6'
    } else if d == 7 {
        '7'
    } else if d == 8 {
        '8'
    } else {
        '9'
    };
    proof {
        assert(c == digit_char(n as int % 10));
        if n < 10 {
            assert(dec_str_of(n as int) =~= seq![digit_char(n as int)]);
        }
    }
    string_push(s, c);
}

/// Renders `n` in decimal.
pub fn usize_to_string(n: usize) -> (r: String)
    ensures
        r@ == dec_str_of(n as int),
{
    let mut s = String::new();
    push_dec_digits(&mut s, n);
    proof {
        assert(s@ =~= dec_str_of(n as int));
    }
    s
}

/// The first index at which `c` occurs in `s`, if any.
pub fn find_char(s: &str, c: char) -> (r: Option<usize>)
    ensures
        match r {
            Some(i) => i < s@.len() && s@[i as int] == c && forall|k: int|
                0 <= k < i ==> s@[k] != c,
            None => forall|k: int| 0 <= k < s@.len() ==> s@[k] != c,
        },
{
    let n = s.unicode_len();
    let mut i: usize = 0;
    while i < n
        invariant
            0 <= i <= n,
            n == s@.len(),
            forall|k: int| 0 <= k < i ==> s@[k] != c,
        decreases n - i,
    {
        if s.get_char(i) == c {
            return Some(i);
        }
        i = i + 1;
    }
    None
}

/// The last index at which `c` occurs in `s`, if any.
pub fn rfind_char(s: &str, c: char) -> (r: Option<usize>)
    ensures
        match r {
            Some(i) => i < s@.len() && s@[i as int] == c && forall|k: int|
                i < k < s@.len() ==> s@[k] != c,
            None => forall|k: int| 0 <= k < s@.len() ==> s@[k] != c,
        },
{
    let n = s.unicode_len();
    let mut j: usize = n;
    while j > 0
        invariant
            0 <= j <= n,
            n == s@.len(),
            forall|k: int| j <= k < n ==> s@[k] != c,
        decreases j,
    {
        if s.get_char(j - 1) == c {
            return Some(j - 1);
        }
        j = j - 1;
    }
    None
}

/// Index of the first occurrence of `c`, or a negative value when absent.
pub open spec fn first_index_of(cs: Seq<char>, c: char) -> int
    decreases cs.len(),
{
    if cs.len() == 0 {
        -1
    } else if cs[0] == c {
        0
    } else {
        let r = first_index_of(cs.drop_first(), c);
        if r < 0 {
            -1
        } else {
            r + 1
        }
    }
}

/// Index of the last occurrence of `c`, or a negative value when absent.
pub open spec fn last_index_of(cs: Seq<char>, c: char) -> int
    decreases cs.len(),
{
    if cs.len() == 0 {
        -1
    } else if cs.last() == c {
        cs.len() - 1
    } else {
        last_index_of(cs.drop_last(), c)
    }
}

pub proof fn lemma_first_index_some(cs: Seq<char>, c: char, i: int)
    requires
        0 <= i < cs.len(),
        cs[i] == c,
        forall|k: int| 0 <= k < i ==> cs[k] != c,
    ensures
        first_index_of(cs, c) == i,
    decreases i,
{
    if i > 0 {
        lemma_first_index_some(cs.drop_first(), c, i - 1);
    }
}

pub proof fn lemma_last_index_some(cs: Seq<char>, c: char, i: int)
    requires
        0 <= i < cs.len(),
        cs[i] == c,
        forall|k: int| i < k < cs.len() ==> cs[k] != c,
    ensures
        last_index_of(cs, c) == i,
    decreases cs.len(),
{
    if i < cs.len() - 1 {
        lemma_last_index_some(cs.drop_last(), c, i);
    }
}

/// Whether a character separates path components.
pub open spec fn is_path_sep(c: char) -> bool {
    c == '/' || c == '\\'
}

pub open spec fn split_segs_acc(
    cs: Seq<char>,
    i: int,
    cur: Seq<char>,
    acc: Seq<Seq<char>>,
) -> Seq<Seq<char>>
    decreases cs.len() - i,
{
    if i < 0 || i >= cs.len() {
        if cur.len() > 0 {
            acc.push(cur)
        } else {
            acc
        }
    } else if is_path_sep(cs[i]) {
        if cur.len() > 0 {
            split_segs_acc(cs, i + 1, Seq::empty(), acc.push(cur))
        } else {
            split_segs_acc(cs, i + 1, Seq::empty(), acc)
        }
    } else {
        split_segs_acc(cs, i + 1, cur.push(cs[i]), acc)
    }
}

/// The non-empty components of a path, split on `/` and `\`.
pub open spec fn path_segments(cs: Seq<char>) -> Seq<Seq<char>> {
    split_segs_acc(cs, 0, Seq::empty(), Seq::empty())
}

/// Splits a path into its non-empty components.
pub fn split_path_segments(s: &str) -> (r: Vec<String>)
    ensures
        r.deep_view() == path_segments(s@),
{
    let n = s.unicode_len();
    let mut segs: Vec<String> = Vec::new();
    let mut cur = String::new();
    let mut i: usize = 0;
    proof {
        assert(segs.deep_view() =~= Seq::<Seq<char>>::empty());
    }
    while i < n
        invariant
            0 <= i <= n,
            n == s@.len(),
            path_segments(s@) == split_segs_acc(s@, i as int, cur@, segs.deep_view()),
        decreases n - i,
    {
        let c = s.get_char(i);
        if c == '/' || c == '\\' {
            if cur.unicode_len() > 0 {
                let ghost sd0 = segs.deep_view();
                let ghost gcur = cur@;
                segs.push(cur);
                proof {
                    assert(segs.deep_view() =~= sd0.push(gcur));
                }
                cur = String::new();
            } else {
                proof {
                    assert(cur@ =~= Seq::<char>::empty());
                }
            }
        } else {
            let ghost gc = cur@;
            string_push(&mut cur, c);
            proof {
                assert(cur@ =~= gc.push(s@[i as int]));
            }
        }
        i = i + 1;
    }
    if cur.unicode_len() > 0 {
        let ghost sd0 = segs.deep_view();
        let ghost gcur = cur@;
        segs.push(cur);
        proof {
            assert(segs.deep_view() =~= sd0.push(gcur));
        }
    } else {
        proof {
            assert(cur@ =~= Seq::<char>::empty());
        }
    }
    segs
}

} // verus!
