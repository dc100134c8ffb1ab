//! Character-level text helpers with their specifications.

use vstd::prelude::*;

verus! {

/// Compares two strings character by character.
pub fn str_eq(a: &str, b: &str) -> (r: bool)
    ensures
        r == (a@ == b@),
{
    a.to_owned() == b.to_owned()
}

/// The characters of `s`, in order.
pub fn chars_of(s: &str) -> (r: Vec<char>)
    ensures
        r@ == s@,
{
    let n = s.unicode_len();
    let mut r: Vec<char> = Vec::new();
    let mut i: usize = 0;
    while i < n
        invariant
            n == s@.len(),
            i <= n,
            r@ == s@.subrange(0, i as int),
        decreases n - i,
    {
        r.push(s.get_char(i));
        i = i + 1;
        assert(r@ =~= s@.subrange(0, i as int));
    }
    assert(r@ =~= s@);
    r
}

/// The Unicode `White_Space` property, which `char::is_whitespace` tests.
pub open spec fn is_whitespace_char(c: char) -> bool {
    let v = c as u32;
    ||| 0x9 <= v <= 0xD
    ||| v == 0x20
    ||| v == 0x85
    ||| v == 0xA0
    ||| v == 0x1680
    ||| 0x2000 <= v <= 0x200A
    ||| v == 0x2028
    ||| v == 0x2029
    ||| v == 0x202F
    ||| v == 0x205F
    ||| v == 0x3000
}

/// Whether `c` is white space in the Unicode sense.
pub fn is_whitespace(c: char) -> (r: bool)
    ensures
        r == is_whitespace_char(c),
{
    let v = c as u32;
    (0x9 <= v && v <= 0xD) || v == 0x20 || v == 0x85 || v == 0xA0 || v == 0x1680 || (0x2000 <= v
        && v <= 0x200A) || v == 0x2028 || v == 0x2029 || v == 0x202F || v == 0x205F || v == 0x3000
}

/// Some character of `s` is white space.
pub open spec fn has_whitespace(s: Seq<char>) -> bool {
    exists|i: int| 0 <= i < s.len() && is_whitespace_char(s[i])
}

/// `a` is where `s` starts once leading white space is skipped.
pub open spec fn is_trim_start(s: Seq<char>, a: int) -> bool {
    &&& 0 <= a <= s.len()
    &&& forall|j: int| 0 <= j < a ==> is_whitespace_char(s[j])
    &&& (a == s.len() || !is_whitespace_char(s[a]))
}

/// `b` is where `s` ends once trailing white space after `a` is dropped.
pub open spec fn is_trim_end(s: Seq<char>, a: int, b: int) -> bool {
    &&& a <= b <= s.len()
    &&& forall|j: int| b <= j < s.len() ==> is_whitespace_char(s[j])
    &&& (b == a || !is_whitespace_char(s[b - 1]))
}

pub open spec fn trim_start(s: Seq<char>) -> int {
    choose|a: int| is_trim_start(s, a)
}

pub open spec fn trim_end(s: Seq<char>) -> int {
    choose|b: int| is_trim_end(s, trim_start(s), b)
}

/// `s` without leading and trailing white space, as `str::trim` gives it.
pub open spec fn trimmed(s: Seq<char>) -> Seq<char> {
    s.subrange(trim_start(s), trim_end(s))
}

/// Where the trimmed part of `s` starts and ends.
fn trim_bounds(s: &Vec<char>) -> (r: (usize, usize))
    ensures
        r.0 == trim_start(s@),
        r.1 == trim_end(s@),
        r.0 <= r.1 <= s@.len(),
{
    let n = s.len();
    let mut a: usize = 0;
    while a < n && is_whitespace(s[a])
        invariant
            n == s@.len(),
            a <= n,
            forall|j: int| 0 <= j < a ==> is_whitespace_char(s@[j]),
        decreases n - a,
    {
        a = a + 1;
    }
    assert(is_trim_start(s@, a as int));
    proof {
        let c = trim_start(s@);
        assert(is_trim_start(s@, c));
        if c < a {
            assert(is_whitespace_char(s@[c]));
        }
        if a < c {
            assert(is_whitespace_char(s@[a as int]));
        }
    }
    let mut b: usize = n;
    while b > a && is_whitespace(s[b - 1])
        invariant
            n == s@.len(),
            a <= b <= n,
            forall|j: int| b <= j < n ==> is_whitespace_char(s@[j]),
        decreases b,
    {
        b = b - 1;
    }
    assert(is_trim_end(s@, a as int, b as int));
    proof {
        let c = trim_end(s@);
        assert(is_trim_end(s@, a as int, c));
        if c < b {
            assert(is_whitespace_char(s@[b - 1]));
        }
        if b < c {
            assert(is_whitespace_char(s@[c - 1]));
        }
    }
    (a, b)
}

/// `s` without leading and trailing white space.
pub fn trim(s: &str) -> (r: &str)
    ensures
        r@ == trimmed(s@),
{
    let chars = chars_of(s);
    let (a, b) = trim_bounds(&chars);
    s.substring_char(a, b)
}

/// Trimming leaves nothing exactly when every character is white space.
pub proof fn lemma_trimmed_empty_iff_blank(s: Seq<char>)
    ensures
        trimmed(s).len() == 0 <==> forall|i: int| 0 <= i < s.len() ==> is_whitespace_char(s[i]),
{
    lemma_trim_start_exists(s);
    let a = trim_start(s);
    lemma_trim_end_exists(s, a);
    let b = trim_end(s);
    assert(is_trim_start(s, a));
    assert(is_trim_end(s, a, b));
    if forall|i: int| 0 <= i < s.len() ==> is_whitespace_char(s[i]) {
        if a < s.len() {
            assert(is_whitespace_char(s[a]));
        }
        assert(a == s.len());
    } else {
        let i = choose|i: int| 0 <= i < s.len() && !is_whitespace_char(s[i]);
        assert(a <= i);
        assert(i < b);
    }
}

/// Some position starts the trimmed part.
proof fn lemma_trim_start_exists(s: Seq<char>)
    ensures
        exists|a: int| is_trim_start(s, a),
{
    if forall|i: int| 0 <= i < s.len() ==> is_whitespace_char(s[i]) {
        assert(is_trim_start(s, s.len() as int));
    } else {
        let i = choose|i: int| 0 <= i < s.len() && !is_whitespace_char(s[i]);
        lemma_first_non_blank(s, i);
    }
}

/// A non-blank character at `i` means a first non-blank character.
proof fn lemma_first_non_blank(s: Seq<char>, i: int)
    requires
        0 <= i < s.len(),
        !is_whitespace_char(s[i]),
    ensures
        exists|a: int| is_trim_start(s, a),
    decreases i,
{
    if forall|j: int| 0 <= j < i ==> is_whitespace_char(s[j]) {
        assert(is_trim_start(s, i));
    } else {
        let j = choose|j: int| 0 <= j < i && !is_whitespace_char(s[j]);
        lemma_first_non_blank(s, j);
    }
}

/// Some position ends the trimmed part that starts at `a`.
proof fn lemma_trim_end_exists(s: Seq<char>, a: int)
    requires
        0 <= a <= s.len(),
    ensures
        exists|b: int| is_trim_end(s, a, b),
{
    if forall|j: int| a <= j < s.len() ==> is_whitespace_char(s[j]) {
        assert(is_trim_end(s, a, a));
    } else {
        let i = choose|i: int| a <= i < s.len() && !is_whitespace_char(s[i]);
        lemma_last_non_blank(s, a, i);
    }
}

/// A non-blank character at `i` at or after `a` means a last non-blank character.
proof fn lemma_last_non_blank(s: Seq<char>, a: int, i: int)
    requires
        0 <= a <= i < s.len(),
        !is_whitespace_char(s[i]),
    ensures
        exists|b: int| is_trim_end(s, a, b),
    decreases s.len() - i,
{
    if forall|j: int| i < j < s.len() ==> is_whitespace_char(s[j]) {
        assert(is_trim_end(s, a, i + 1));
    } else {
        let j = choose|j: int| i < j < s.len() && !is_whitespace_char(s[j]);
        lemma_last_non_blank(s, a, j);
    }
}

/// `s` begins with `prefix`.
pub open spec fn has_prefix(s: Seq<char>, prefix: Seq<char>) -> bool {
    prefix.len() <= s.len() && s.subrange(0, prefix.len() as int) == prefix
}

/// `pattern` occurs in `s` starting at position `i`.
pub open spec fn occurs_at(s: Seq<char>, pattern: Seq<char>, i: int) -> bool {
    0 <= i && i + pattern.len() <= s.len() && s.subrange(i, i + pattern.len()) == pattern
}

/// `pattern` occurs somewhere in `s`.
pub open spec fn has_infix(s: Seq<char>, pattern: Seq<char>) -> bool {
    exists|i: int| occurs_at(s, pattern, i)
}

/// Whether `pattern` occurs in `s` at position `i`.
fn matches_at(s: &Vec<char>, pattern: &Vec<char>, i: usize) -> (r: bool)
    requires
        i <= s@.len(),
    ensures
        r == occurs_at(s@, pattern@, i as int),
{
    let m = pattern.len();
    let sl = s.len();
    if m > sl - i {
        return false;
    }
    let mut j: usize = 0;
    while j < m
        invariant
            m == pattern@.len(),
            sl == s@.len(),
            i + m <= s@.len(),
            j <= m,
            forall|k: int| 0 <= k < j ==> s@[i + k] == pattern@[k],
        decreases m - j,
    {
        if s[i + j] != pattern[j] {
            assert(s@.subrange(i as int, i + m)[j as int] != pattern@[j as int]);
            return false;
        }
        j = j + 1;
    }
    assert(s@.subrange(i as int, i + m) =~= pattern@);
    true
}

/// Whether `s` begins with `prefix`.
pub fn starts_with(s: &Vec<char>, prefix: &str) -> (r: bool)
    ensures
        r == has_prefix(s@, prefix@),
{
    let p = chars_of(prefix);
    matches_at(s, &p, 0)
}

/// Whether `pattern` occurs in `s`.
pub fn contains_str(s: &Vec<char>, pattern: &str) -> (r: bool)
    ensures
        r == has_infix(s@, pattern@),
{
    let p = chars_of(pattern);
    let n = s.len();
    let mut i: usize = 0;
    while i < n
        invariant
            n == s@.len(),
            i <= n,
            p@ == pattern@,
            forall|k: int| 0 <= k < i ==> !occurs_at(s@, pattern@, k),
        decreases n - i,
    {
        if matches_at(s, &p, i) {
            return true;
        }
        i = i + 1;
    }
    if matches_at(s, &p, n) {
        return true;
    }
    assert forall|k: int| !occurs_at(s@, pattern@, k) by {
        if 0 <= k && k < n {
            assert(k < i);
        }
    }
    false
}

/// ASCII letter.
pub open spec fn is_ascii_alpha(c: char) -> bool {
    ('a' <= c && c <= 'z') || ('A' <= c && c <= 'Z')
}

/// ASCII letter or digit.
pub open spec fn is_ascii_alnum(c: char) -> bool {
    is_ascii_alpha(c) || ('0' <= c && c <= '9')
}

/// The code of `c` after folding ASCII capitals to lower case.
pub open spec fn ascii_lower_code(c: char) -> u32 {
    if 'A' <= c && c <= 'Z' {
        (c as u32 + 32) as u32
    } else {
        c as u32
    }
}

/// `a` and `b` are equal once ASCII letters are compared without regard to case.
pub open spec fn ascii_case_insensitive_eq(a: Seq<char>, b: Seq<char>) -> bool {
    a.len() == b.len() && forall|i: int| 0 <= i < a.len() ==> ascii_lower_code(a[i])
        == ascii_lower_code(b[i])
}

fn lower_code(c: char) -> (r: u32)
    ensures
        r == ascii_lower_code(c),
{
    let v = c as u32;
    if 'A' <= c && c <= 'Z' {
        v + 32
    } else {
        v
    }
}

/// Whether `a` and `b` are equal ignoring ASCII case.
pub fn eq_ignore_ascii_case(a: &Vec<char>, b: &str) -> (r: bool)
    ensures
        r == ascii_case_insensitive_eq(a@, b@),
{
    let bc = chars_of(b);
    let n = a.len();
    if n != bc.len() {
        return false;
    }
    let mut i: usize = 0;
    while i < n
        invariant
            n == a@.len(),
            n == bc@.len(),
            bc@ == b@,
            i <= n,
            forall|k: int| 0 <= k < i ==> ascii_lower_code(a@[k]) == ascii_lower_code(b@[k]),
        decreases n - i,
    {
        if lower_code(a[i]) != lower_code(bc[i]) {
            return false;
        }
        i = i + 1;
    }
    true
}

} // verus!
