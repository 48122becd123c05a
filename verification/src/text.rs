//! Character-level helpers shared by the path, range and diff logic.
//!
//! Strings are modelled by their view, a `Seq<char>`. Executable code works on
//! `Vec<char>` so that every step is a constant-time index.

use vstd::prelude::*;

verus! {

/// `String::push` appends one character to the end of the string.
pub assume_specification[ String::push ](s: &mut String, c: char)
    ensures
        final(s)@ == old(s)@.push(c),
;

/// `p` occurs in `s` starting at index `i`.
pub open spec fn occurs_at(s: Seq<char>, p: Seq<char>, i: int) -> bool {
    0 <= i && i + p.len() <= s.len() && s.subrange(i, i + p.len()) == p
}

/// `p` occurs somewhere in `s`.
pub open spec fn contains(s: Seq<char>, p: Seq<char>) -> bool {
    exists|i: int| occurs_at(s, p, i)
}

/// `s` ends with `p`.
pub open spec fn ends_with(s: Seq<char>, p: Seq<char>) -> bool {
    p.len() <= s.len() && occurs_at(s, p, s.len() - p.len())
}

/// One past the index of the last `c` in `s`, or 0 when `s` holds none.
pub open spec fn after_last(s: Seq<char>, c: char) -> nat
    decreases s.len(),
{
    if s.len() == 0 {
        0
    } else if s.last() == c {
        s.len()
    } else {
        after_last(s.drop_last(), c)
    }
}

/// Index at which the last `/`-separated segment of `s` begins: one past the
/// last `/`, or 0 when `s` holds none.
pub open spec fn file_name_start(s: Seq<char>) -> nat {
    after_last(s, '/')
}

/// The last `/`-separated segment of a path.
pub open spec fn file_name(s: Seq<char>) -> Seq<char> {
    s.subrange(file_name_start(s) as int, s.len() as int)
}

/// Everything before the last `/` of a path; empty when the path holds none.
pub open spec fn dir_name(s: Seq<char>) -> Seq<char> {
    if file_name_start(s) == 0 {
        Seq::empty()
    } else {
        s.subrange(0, file_name_start(s) - 1)
    }
}

/// A position that follows a `c` (or is 0) and has no `c` after it is
/// `after_last`.
pub proof fn lemma_after_last_unique(s: Seq<char>, c: char, k: int)
    requires
        0 <= k <= s.len(),
        k > 0 ==> s[k - 1] == c,
        forall|j: int| k <= j < s.len() ==> s[j] != c,
    ensures
        after_last(s, c) == k,
    decreases s.len(),
{
    if s.len() > 0 && s.last() != c {
        lemma_after_last_unique(s.drop_last(), c, k);
    }
}

/// The decimal digit for `d < 10`.
pub open spec fn digit_char(d: nat) -> char {
    if d == 0 {
        '0'
    } else if d == 1 {
        '1'
    } else if d == 2 {
        '2'
    } else if d == 3 {
        '3'
    } else if d == 4 {
        '4'
    } else if d == 5 {
        '5'
    } else if d == 6 {
        '6'
    } else if d == 7 {
        '7'
    } else if d == 8 {
        '8'
    } else {
        '9'
    }
}

/// Decimal notation of `n`, most significant digit first, without leading
/// zeros.
pub open spec fn decimal(n: nat) -> Seq<char>
    decreases n,
{
    if n < 10 {
        seq![digit_char(n)]
    } else {
        decimal(n / 10).push(digit_char(n % 10))
    }
}

/// The characters of `s`, in order.
pub fn str_chars(s: &str) -> (res: Vec<char>)
    ensures
        res@ == s@,
{
    let mut out: Vec<char> = Vec::new();
    for c in it: s.chars()
        invariant
            out@ == it.seq().take(it.index()),
            it.seq() == s@,
    {
        out.push(c);
    }
    out
}

/// The string made of `chars[from..to]`.
pub fn chars_to_string(chars: &Vec<char>, from: usize, to: usize) -> (res: String)
    requires
        from <= to <= chars.len(),
    ensures
        res@ == chars@.subrange(from as int, to as int),
{
    let mut out = String::new();
    let mut i: usize = from;
    while i < to
        invariant
            from <= i <= to <= chars.len(),
            out@ == chars@.subrange(from as int, i as int),
        decreases to - i,
    {
        out.push(chars[i]);
        i += 1;
    }
    out
}

/// The characters `chars[from..to]`.
pub fn chars_slice(chars: &Vec<char>, from: usize, to: usize) -> (res: Vec<char>)
    requires
        from <= to <= chars.len(),
    ensures
        res@ == chars@.subrange(from as int, to as int),
{
    let mut out: Vec<char> = Vec::new();
    let mut i: usize = from;
    while i < to
        invariant
            from <= i <= to <= chars.len(),
            out@ == chars@.subrange(from as int, i as int),
        decreases to - i,
    {
        out.push(chars[i]);
        i += 1;
    }
    out
}

/// Whether `p` occurs in `s` at index `i`.
pub fn matches_at(s: &Vec<char>, p: &Vec<char>, i: usize) -> (res: bool)
    ensures
        res == occurs_at(s@, p@, i as int),
{
    if p.len() > s.len() || i > s.len() - p.len() {
        return false;
    }
    let mut k: usize = 0;
    while k < p.len()
        invariant
            k <= p.len(),
            i + p.len() <= s.len(),
            forall|j: int| 0 <= j < k ==> s@[i + j] == p@[j],
        decreases p.len() - k,
    {
        if s[i + k] != p[k] {
            proof {
                let sub = s@.subrange(i as int, i + p.len());
                assert(sub[k as int] == s@[i + k]);
            }
            return false;
        }
        k += 1;
    }
    assert(s@.subrange(i as int, i + p.len()) =~= p@);
    true
}

/// Index of the first occurrence of `p` in `s` at or after `start`.
pub fn find_from(s: &Vec<char>, p: &Vec<char>, start: usize) -> (res: Option<usize>)
    ensures
        match res {
            Some(i) => start <= i && occurs_at(s@, p@, i as int) && forall|j: int|
                start <= j < i ==> !occurs_at(s@, p@, j),
            None => forall|j: int| start <= j ==> !occurs_at(s@, p@, j),
        },
{
    if start > s.len() {
        return None;
    }
    let mut i: usize = start;
    loop
        invariant
            start <= i <= s.len(),
            forall|j: int| start <= j < i ==> !occurs_at(s@, p@, j),
        decreases s.len() - i,
    {
        if matches_at(s, p, i) {
            return Some(i);
        }
        if i == s.len() {
            return None;
        }
        i += 1;
    }
}

/// Whether `p` occurs anywhere in `s`.
pub fn chars_contain(s: &Vec<char>, p: &Vec<char>) -> (res: bool)
    ensures
        res == contains(s@, p@),
{
    find_from(s, p, 0).is_some()
}

/// Whether `s` ends with `p`.
pub fn chars_end_with(s: &Vec<char>, p: &Vec<char>) -> (res: bool)
    ensures
        res == ends_with(s@, p@),
{
    p.len() <= s.len() && matches_at(s, p, s.len() - p.len())
}

/// Whether two character vectors hold the same text.
pub fn chars_equal(a: &Vec<char>, b: &Vec<char>) -> (res: bool)
    ensures
        res == (a@ == b@),
{
    if a.len() != b.len() {
        return false;
    }
    let res = matches_at(a, b, 0);
    assert(a@.subrange(0, a@.len() as int) =~= a@);
    res
}

/// One past the index of the last `c` in `s`, or 0 when `s` holds none.
pub fn find_after_last(s: &Vec<char>, c: char) -> (res: usize)
    ensures
        res == after_last(s@, c),
        res <= s.len(),
{
    let mut k: usize = s.len();
    while k > 0 && s[k - 1] != c
        invariant
            k <= s.len(),
            forall|j: int| k <= j < s.len() ==> s@[j] != c,
        decreases k,
    {
        k -= 1;
    }
    proof {
        lemma_after_last_unique(s@, c, k as int);
    }
    k
}

/// Index at which the last `/`-separated segment of a path begins.
pub fn find_file_name_start(path: &Vec<char>) -> (res: usize)
    ensures
        res == file_name_start(path@),
        res <= path.len(),
{
    find_after_last(path, '/')
}

/// The decimal digit for `d < 10`.
fn digit(d: usize) -> (res: char)
    requires
        d < 10,
    ensures
        res == digit_char(d as nat),
{
    if d == 0 {
        '0'
    } else if d == 1 {
        '1'
    } else if d == 2 {
        '2'
    } else if d == 3 {
        '3'
    } else if d == 4 {
        '4'
    } else if d == 5 {
        '5'
    } else if d == 6 {
        '6'
    } else if d == 7 {
        '7'
    } else if d == 8 {
        '8'
    } else {
        '9'
    }
}

/// Appends the decimal notation of `n` to `out`.
pub fn push_decimal(out: &mut String, n: u128)
    ensures
        final(out)@ == old(out)@ + decimal(n as nat),
    decreases n,
{
    if n < 10 {
        out.push(digit(n as usize));
    } else {
        push_decimal(out, n / 10);
        out.push(digit((n % 10) as usize));
    }
}

/// Lexicographic order on texts by code point, as `str` orders: `a` comes
/// strictly before `b`.
pub open spec fn lex_less(a: Seq<char>, b: Seq<char>) -> bool
    decreases a.len(),
{
    if b.len() == 0 {
        false
    } else if a.len() == 0 {
        true
    } else if a[0] != b[0] {
        (a[0] as u32) < (b[0] as u32)
    } else {
        lex_less(a.drop_first(), b.drop_first())
    }
}

/// Of two texts exactly one holds: they are equal, the first comes before
/// the second, or the second before the first.
pub proof fn lemma_lex_trichotomy(a: Seq<char>, b: Seq<char>)
    ensures
        a == b || lex_less(a, b) || lex_less(b, a),
        !(lex_less(a, b) && lex_less(b, a)),
        a == b ==> !lex_less(a, b),
    decreases a.len(),
{
    if a.len() == 0 || b.len() == 0 {
        if a.len() == 0 && b.len() == 0 {
            assert(a =~= b);
        }
    } else if a[0] == b[0] {
        lemma_lex_trichotomy(a.drop_first(), b.drop_first());
        if a.drop_first() == b.drop_first() {
            assert(a =~= seq![a[0]] + a.drop_first());
            assert(b =~= seq![b[0]] + b.drop_first());
        }
    } else {
        vstd::utf8::char_u32_cast(a[0], a[0] as u32);
        vstd::utf8::char_u32_cast(b[0], b[0] as u32);
    }
}

/// The order is transitive.
pub proof fn lemma_lex_transitive(a: Seq<char>, b: Seq<char>, c: Seq<char>)
    requires
        lex_less(a, b),
        lex_less(b, c),
    ensures
        lex_less(a, c),
    decreases a.len(),
{
    if a.len() > 0 && a[0] == b[0] && b[0] == c[0] {
        lemma_lex_transitive(a.drop_first(), b.drop_first(), c.drop_first());
    }
}

proof fn lemma_lex_skip_common(a: Seq<char>, b: Seq<char>, n: int)
    requires
        0 <= n <= a.len(),
        n <= b.len(),
        forall|k: int| 0 <= k < n ==> a[k] == b[k],
    ensures
        lex_less(a, b) == lex_less(a.skip(n), b.skip(n)),
    decreases n,
{
    if n > 0 {
        let a1 = a.drop_first();
        let b1 = b.drop_first();
        assert forall|k: int| 0 <= k < n - 1 implies a1[k] == b1[k] by {
            assert(a1[k] == a[k + 1]);
            assert(b1[k] == b[k + 1]);
        }
        lemma_lex_skip_common(a1, b1, n - 1);
        assert(a1.skip(n - 1) =~= a.skip(n));
        assert(b1.skip(n - 1) =~= b.skip(n));
        assert(a[0] == b[0]);
    } else {
        assert(a.skip(0) =~= a);
        assert(b.skip(0) =~= b);
    }
}

/// Whether `a` comes strictly before `b` in lexicographic order.
pub fn chars_less(a: &Vec<char>, b: &Vec<char>) -> (res: bool)
    ensures
        res == lex_less(a@, b@),
{
    let mut i: usize = 0;
    while i < a.len() && i < b.len()
        invariant
            i <= a.len(),
            i <= b.len(),
            forall|k: int| 0 <= k < i ==> a@[k] == b@[k],
        decreases a.len() - i,
    {
        if a[i] != b[i] {
            proof {
                lemma_lex_skip_common(a@, b@, i as int);
            }
            return (a[i] as u32) < (b[i] as u32);
        }
        i += 1;
    }
    proof {
        lemma_lex_skip_common(a@, b@, i as int);
    }
    i < b.len()
}

/// Whether `c` has the Unicode property `White_Space`, as
/// `char::is_whitespace` decides it.
pub uninterp spec fn is_whitespace(c: char) -> bool;

/// Calls `char::is_whitespace`. Trusted: the answer depends on the character
/// alone.
#[verifier::external_body]
fn char_is_whitespace(c: char) -> (res: bool)
    ensures
        res == is_whitespace(c),
{
    c.is_whitespace()
}

/// Number of whitespace characters at the start of `s`.
pub open spec fn leading_space(s: Seq<char>) -> nat
    decreases s.len(),
{
    if s.len() > 0 && is_whitespace(s[0]) {
        1 + leading_space(s.drop_first())
    } else {
        0
    }
}

/// Number of whitespace characters at the end of `s`.
pub open spec fn trailing_space(s: Seq<char>) -> nat
    decreases s.len(),
{
    if s.len() > 0 && is_whitespace(s.last()) {
        1 + trailing_space(s.drop_last())
    } else {
        0
    }
}

/// `s` holds nothing but whitespace.
pub open spec fn is_blank(s: Seq<char>) -> bool {
    leading_space(s) == s.len()
}

/// `s` without its leading and trailing whitespace.
pub open spec fn trimmed(s: Seq<char>) -> Seq<char> {
    if is_blank(s) {
        Seq::empty()
    } else {
        s.subrange(leading_space(s) as int, s.len() - trailing_space(s))
    }
}

proof fn lemma_leading_space(s: Seq<char>, n: int)
    requires
        0 <= n <= s.len(),
        forall|k: int| 0 <= k < n ==> is_whitespace(s[k]),
        n < s.len() ==> !is_whitespace(s[n]),
    ensures
        leading_space(s) == n,
    decreases n,
{
    if n > 0 {
        let rest = s.drop_first();
        assert forall|k: int| 0 <= k < n - 1 implies is_whitespace(rest[k]) by {
            assert(rest[k] == s[k + 1]);
        }
        assert(is_whitespace(s[0]));
        lemma_leading_space(rest, n - 1);
    }
}

proof fn lemma_trailing_space(s: Seq<char>, n: int)
    requires
        0 <= n <= s.len(),
        forall|k: int| s.len() - n <= k < s.len() ==> is_whitespace(s[k]),
        n < s.len() ==> !is_whitespace(s[s.len() - n - 1]),
    ensures
        trailing_space(s) == n,
    decreases n,
{
    if n > 0 {
        let rest = s.drop_last();
        assert forall|k: int| rest.len() - (n - 1) <= k < rest.len() implies is_whitespace(
            rest[k],
        ) by {
            assert(rest[k] == s[k]);
        }
        assert(is_whitespace(s[s.len() - 1]));
        lemma_trailing_space(rest, n - 1);
    }
}

/// Number of whitespace characters at the start of `s`.
pub fn count_leading_space(s: &Vec<char>) -> (res: usize)
    ensures
        res == leading_space(s@),
        res <= s.len(),
        res < s.len() ==> !is_whitespace(s@[res as int]),
{
    let mut n: usize = 0;
    while n < s.len() && char_is_whitespace(s[n])
        invariant
            n <= s.len(),
            forall|k: int| 0 <= k < n ==> is_whitespace(s@[k]),
        decreases s.len() - n,
    {
        n += 1;
    }
    proof {
        lemma_leading_space(s@, n as int);
    }
    n
}

/// Removes leading and trailing whitespace.
pub fn trim(s: &str) -> (res: String)
    ensures
        res@ == trimmed(s@),
{
    let chars = str_chars(s);
    let start = count_leading_space(&chars);
    if start == chars.len() {
        return String::new();
    }
    let mut n: usize = 0;
    while n < chars.len() && char_is_whitespace(chars[chars.len() - 1 - n])
        invariant
            n <= chars.len(),
            forall|k: int| chars.len() - n <= k < chars.len() ==> is_whitespace(chars@[k]),
        decreases chars.len() - n,
    {
        n += 1;
    }
    proof {
        lemma_trailing_space(chars@, n as int);
        if start + n > chars.len() {
            assert(is_whitespace(chars@[start as int]));
        }
    }
    chars_to_string(&chars, start, chars.len() - n)
}

} // verus!
