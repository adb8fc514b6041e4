//! Text primitives: the grammar's building blocks, each an executable
//! function on `&str` proved against a spec function on `Seq<char>`.
use vstd::prelude::*;

verus! {

/// Whether `pat` occurs in `s` at index `i`.
pub open spec fn occurs_at(s: Seq<char>, pat: Seq<char>, i: int) -> bool {
    0 <= i && i + pat.len() <= s.len() && s.subrange(i, i + pat.len()) == pat
}

/// The first index at or after `i` where `pat` occurs in `s`.
pub open spec fn find_from(s: Seq<char>, pat: Seq<char>, i: int) -> Option<int>
    decreases s.len() + 1 - i,
{
    if i < 0 || i + pat.len() > s.len() {
        None
    } else if s.subrange(i, i + pat.len()) == pat {
        Some(i)
    } else {
        find_from(s, pat, i + 1)
    }
}

/// `s` without its prefix `lit`, if it starts with `lit`.
pub open spec fn tag(s: Seq<char>, lit: Seq<char>) -> Option<Seq<char>> {
    if lit.len() <= s.len() && s.take(lit.len() as int) == lit {
        Some(s.skip(lit.len() as int))
    } else {
        None
    }
}

/// The text before the first occurrence of `pat`, and the rest from there on.
pub open spec fn take_until(s: Seq<char>, pat: Seq<char>) -> Option<(Seq<char>, Seq<char>)> {
    match find_from(s, pat, 0) {
        Some(i) => Some((s.take(i), s.skip(i))),
        None => None,
    }
}

/// What lies between the delimiters `open` and `close` at the start of `s`
/// (the first `close` ends it), and what follows `close`.
pub open spec fn delimited(s: Seq<char>, open: Seq<char>, close: Seq<char>) -> Option<
    (Seq<char>, Seq<char>),
> {
    match tag(s, open) {
        Some(r) => match take_until(r, close) {
            Some((inner, r2)) => Some((inner, r2.skip(close.len() as int))),
            None => None,
        },
        None => None,
    }
}

/// `s` after one line ending, `\n` or `\r\n`.
pub open spec fn line_ending(s: Seq<char>) -> Option<Seq<char>> {
    if s.len() >= 1 && s[0] == '\n' {
        Some(s.skip(1))
    } else if s.len() >= 2 && s[0] == '\r' && s[1] == '\n' {
        Some(s.skip(2))
    } else {
        None
    }
}

pub open spec fn is_space(c: char) -> bool {
    c == ' ' || c == '\t'
}

/// The first index at or after `i` that holds no space or tab, or the length.
pub open spec fn space_end(s: Seq<char>, i: int) -> int
    decreases s.len() - i,
{
    if i < 0 || i >= s.len() {
        s.len() as int
    } else if !is_space(s[i]) {
        i
    } else {
        space_end(s, i + 1)
    }
}

/// `s` without its leading spaces and tabs.
pub open spec fn space0(s: Seq<char>) -> Seq<char> {
    s.skip(space_end(s, 0))
}

/// `s` without its leading spaces and tabs, of which there must be one at least.
pub open spec fn space1(s: Seq<char>) -> Option<Seq<char>> {
    if space_end(s, 0) == 0 {
        None
    } else {
        Some(s.skip(space_end(s, 0)))
    }
}

/// The first index at or after `i` that holds `a` or `b`, or the length.
pub open spec fn scan_to(s: Seq<char>, i: int, a: char, b: char) -> int
    decreases s.len() - i,
{
    if i < 0 || i >= s.len() {
        s.len() as int
    } else if s[i] == a || s[i] == b {
        i
    } else {
        scan_to(s, i + 1, a, b)
    }
}

/// How often `c` occurs in `s`.
pub open spec fn count_char(s: Seq<char>, c: char) -> nat
    decreases s.len(),
{
    if s.len() == 0 {
        0
    } else {
        count_char(s.drop_last(), c) + if s.last() == c {
            1nat
        } else {
            0nat
        }
    }
}

/// The last index of `c` in `s`, or -1.
pub open spec fn last_index(s: Seq<char>, c: char) -> int
    decreases s.len(),
{
    if s.len() == 0 {
        -1
    } else if s.last() == c {
        s.len() - 1
    } else {
        last_index(s.drop_last(), c)
    }
}

/// The suffix of `s` from character `i` on.
pub fn suffix(s: &str, i: usize) -> (r: &str)
    requires
        i <= s@.len(),
    ensures
        r@ == s@.skip(i as int),
{
    let n = s.unicode_len();
    let r = s.substring_char(i, n);
    assert(r@ =~= s@.skip(i as int));
    r
}

/// Whether `pat` occurs in `s` at index `i`.
pub fn occurs_at_exec(s: &str, n: usize, pat: &str, i: usize) -> (r: bool)
    requires
        n == s@.len(),
    ensures
        r == occurs_at(s@, pat@, i as int),
{
    let m = pat.unicode_len();
    if m > n || i > n - m {
        return false;
    }
    let mut k: usize = 0;
    while k < m
        invariant
            m == pat@.len(),
            n == s@.len(),
            i + m <= n,
            k <= m,
            forall|j: int| 0 <= j < k ==> s@[i + j] == pat@[j],
        decreases m - k,
    {
        if s.get_char(i + k) != pat.get_char(k) {
            assert(s@.subrange(i as int, i + m)[k as int] != pat@[k as int]);
            return false;
        }
        k = k + 1;
    }
    assert(s@.subrange(i as int, i + m) =~= pat@);
    true
}

/// The first index of `pat` in `s`.
pub fn find(s: &str, pat: &str) -> (r: Option<usize>)
    ensures
        match r {
            Some(i) => find_from(s@, pat@, 0) == Some(i as int) && i + pat@.len() <= s@.len(),
            None => find_from(s@, pat@, 0) is None,
        },
        s@.len() <= usize::MAX,
{
    let n = s.unicode_len();
    let mut i: usize = 0;
    while i < n
        invariant
            n == s@.len(),
            i <= n,
            find_from(s@, pat@, 0) == find_from(s@, pat@, i as int),
        decreases n - i,
    {
        if occurs_at_exec(s, n, pat, i) {
            return Some(i);
        }
        i = i + 1;
    }
    if occurs_at_exec(s, n, pat, n) {
        Some(n)
    } else {
        assert(find_from(s@, pat@, n + 1) is None);
        None
    }
}

/// `s` without its prefix `lit`, if it starts with `lit`.
pub fn parse_tag<'a>(s: &'a str, lit: &str) -> (r: Option<&'a str>)
    ensures
        match r {
            Some(rest) => tag(s@, lit@) == Some(rest@),
            None => tag(s@, lit@) is None,
        },
{
    let n = s.unicode_len();
    if occurs_at_exec(s, n, lit, 0) {
        assert(s@.subrange(0, lit@.len() as int) =~= s@.take(lit@.len() as int));
        Some(suffix(s, lit.unicode_len()))
    } else {
        assert(s@.subrange(0, lit@.len() as int) =~= s@.take(lit@.len() as int));
        None
    }
}

/// The text before the first occurrence of `pat`, and the rest from there on.
pub fn parse_take_until<'a>(s: &'a str, pat: &str) -> (r: Option<(&'a str, &'a str)>)
    ensures
        match r {
            Some((a, b)) => take_until(s@, pat@) == Some((a@, b@)),
            None => take_until(s@, pat@) is None,
        },
{
    match find(s, pat) {
        Some(i) => {
            let a = s.substring_char(0, i);
            assert(a@ =~= s@.take(i as int));
            Some((a, suffix(s, i)))
        },
        None => None,
    }
}

/// What lies between `open` and the first `close` after it, and what follows.
pub fn parse_delimited<'a>(s: &'a str, open: &str, close: &str) -> (r: Option<(&'a str, &'a str)>)
    ensures
        match r {
            Some((a, b)) => delimited(s@, open@, close@) == Some((a@, b@)),
            None => delimited(s@, open@, close@) is None,
        },
{
    let r = match parse_tag(s, open) {
        Some(r) => r,
        None => return None,
    };
    match find(r, close) {
        Some(i) => {
            let inner = r.substring_char(0, i);
            assert(inner@ =~= r@.take(i as int));
            let m = close.unicode_len();
            let rest = suffix(r, i + m);
            assert(rest@ =~= r@.skip(i as int).skip(close@.len() as int));
            Some((inner, rest))
        },
        None => None,
    }
}

/// `s` after one line ending, `\n` or `\r\n`.
pub fn parse_line_ending(s: &str) -> (r: Option<&str>)
    ensures
        match r {
            Some(rest) => line_ending(s@) == Some(rest@),
            None => line_ending(s@) is None,
        },
{
    let n = s.unicode_len();
    if n >= 1 && s.get_char(0) == '\n' {
        Some(suffix(s, 1))
    } else if n >= 2 && s.get_char(0) == '\r' && s.get_char(1) == '\n' {
        Some(suffix(s, 2))
    } else {
        None
    }
}

/// The first index that holds no space or tab, or the length.
pub fn find_space_end(s: &str) -> (r: usize)
    ensures
        r == space_end(s@, 0),
{
    let n = s.unicode_len();
    let mut i: usize = 0;
    while i < n
        invariant
            n == s@.len(),
            i <= n,
            space_end(s@, 0) == space_end(s@, i as int),
        decreases n - i,
    {
        let c = s.get_char(i);
        if c != ' ' && c != '\t' {
            return i;
        }
        i = i + 1;
    }
    i
}

/// `s` without its leading spaces and tabs.
pub fn parse_space0(s: &str) -> (r: &str)
    ensures
        r@ == space0(s@),
{
    let e = find_space_end(s);
    proof {
        lemma_space_end_bounds(s@, 0);
    }
    suffix(s, e)
}

/// `s` without its leading spaces and tabs, of which there must be one at least.
pub fn parse_space1(s: &str) -> (r: Option<&str>)
    ensures
        match r {
            Some(rest) => space1(s@) == Some(rest@),
            None => space1(s@) is None,
        },
{
    let e = find_space_end(s);
    proof {
        lemma_space_end_bounds(s@, 0);
    }
    if e == 0 {
        None
    } else {
        Some(suffix(s, e))
    }
}

/// The first index at or after `i` that holds `a` or `b`, or the length.
pub fn find_either(s: &str, i: usize, a: char, b: char) -> (r: usize)
    requires
        i <= s@.len(),
    ensures
        r == scan_to(s@, i as int, a, b),
        i <= r <= s@.len(),
{
    let n = s.unicode_len();
    let mut k: usize = i;
    while k < n
        invariant
            n == s@.len(),
            i <= k <= n,
            scan_to(s@, i as int, a, b) == scan_to(s@, k as int, a, b),
        decreases n - k,
    {
        let c = s.get_char(k);
        if c == a || c == b {
            return k;
        }
        k = k + 1;
    }
    k
}

/// How often `c` occurs in `s`.
pub fn count_of(s: &str, c: char) -> (r: usize)
    ensures
        r == count_char(s@, c),
{
    let n = s.unicode_len();
    let mut k: usize = 0;
    let mut cnt: usize = 0;
    while k < n
        invariant
            n == s@.len(),
            k <= n,
            cnt == count_char(s@.take(k as int), c),
            cnt <= k,
        decreases n - k,
    {
        assert(s@.take(k + 1).drop_last() =~= s@.take(k as int));
        if s.get_char(k) == c {
            cnt = cnt + 1;
        }
        k = k + 1;
    }
    assert(s@.take(n as int) =~= s@);
    cnt
}

/// The last index of `c` in `s`, or `None`.
pub fn last_index_of(s: &str, c: char) -> (r: Option<usize>)
    ensures
        match r {
            Some(i) => last_index(s@, c) == i && i < s@.len(),
            None => last_index(s@, c) == -1,
        },
{
    let n = s.unicode_len();
    let mut k: usize = n;
    assert(s@.take(n as int) =~= s@);
    while k > 0
        invariant
            n == s@.len(),
            k <= n,
            last_index(s@, c) == last_index(s@.take(k as int), c),
        decreases k,
    {
        assert(s@.take(k as int).drop_last() =~= s@.take(k - 1));
        if s.get_char(k - 1) == c {
            return Some(k - 1);
        }
        k = k - 1;
    }
    None
}

pub proof fn lemma_space_end_bounds(s: Seq<char>, i: int)
    requires
        0 <= i <= s.len(),
    ensures
        i <= space_end(s, i) <= s.len(),
    decreases s.len() - i,
{
    if i < s.len() && is_space(s[i]) {
        lemma_space_end_bounds(s, i + 1);
    }
}

/// Whether `a` and `b` hold the same characters.
pub fn same_text(a: &str, b: &str) -> (r: bool)
    ensures
        r == (a@ == b@),
{
    let n = a.unicode_len();
    let m = b.unicode_len();
    if n != m {
        return false;
    }
    let r = occurs_at_exec(a, n, b, 0);
    assert(a@.subrange(0, n as int) =~= a@);
    r
}

pub proof fn lemma_find_from_bounds(s: Seq<char>, pat: Seq<char>, i: int)
    ensures
        find_from(s, pat, i) matches Some(k) ==> i <= k && k + pat.len() <= s.len() && s.subrange(
            k,
            k + pat.len(),
        ) == pat,
    decreases s.len() + 1 - i,
{
    if !(i < 0 || i + pat.len() > s.len()) && s.subrange(i, i + pat.len()) != pat {
        lemma_find_from_bounds(s, pat, i + 1);
    }
}

/// `find_from` stops at the first occurrence.
pub proof fn lemma_find_first(s: Seq<char>, pat: Seq<char>, i: int, k: int)
    requires
        0 <= i <= k,
        occurs_at(s, pat, k),
        forall|j: int| i <= j < k ==> !occurs_at(s, pat, j),
    ensures
        find_from(s, pat, i) == Some(k),
    decreases k - i,
{
    if i < k {
        assert(!occurs_at(s, pat, i));
        lemma_find_first(s, pat, i + 1, k);
        assert(find_from(s, pat, i) == find_from(s, pat, i + 1));
    } else {
        assert(s.subrange(i, i + pat.len()) == pat);
    }
}

/// `scan_to` stops at the first `a` or `b`.
pub proof fn lemma_scan_to_first(s: Seq<char>, i: int, k: int, a: char, b: char)
    requires
        0 <= i <= k <= s.len(),
        forall|j: int| i <= j < k ==> s[j] != a && s[j] != b,
        k == s.len() || s[k] == a || s[k] == b,
    ensures
        scan_to(s, i, a, b) == k,
    decreases k - i,
{
    if i < k {
        lemma_scan_to_first(s, i + 1, k, a, b);
    }
}

/// `space_end` stops at the first character that is no space or tab.
pub proof fn lemma_space_end_first(s: Seq<char>, i: int, k: int)
    requires
        0 <= i <= k <= s.len(),
        forall|j: int| i <= j < k ==> is_space(s[j]),
        k == s.len() || !is_space(s[k]),
    ensures
        space_end(s, i) == k,
    decreases k - i,
{
    if i < k {
        lemma_space_end_first(s, i + 1, k);
    }
}

pub proof fn lemma_count_concat(x: Seq<char>, y: Seq<char>, c: char)
    ensures
        count_char(x + y, c) == count_char(x, c) + count_char(y, c),
    decreases y.len(),
{
    if y.len() == 0 {
        assert(x + y =~= x);
    } else {
        lemma_count_concat(x, y.drop_last(), c);
        assert((x + y).drop_last() =~= x + y.drop_last());
    }
}

pub proof fn lemma_count_absent(x: Seq<char>, c: char)
    requires
        forall|i: int| 0 <= i < x.len() ==> x[i] != c,
    ensures
        count_char(x, c) == 0,
    decreases x.len(),
{
    if x.len() > 0 {
        lemma_count_absent(x.drop_last(), c);
    }
}

/// The last `c` of `x + [c] + y`, where `y` holds no `c`, stands after `x`.
pub proof fn lemma_last_index_marker(x: Seq<char>, c: char, y: Seq<char>)
    requires
        forall|i: int| 0 <= i < y.len() ==> y[i] != c,
    ensures
        last_index(x + seq![c] + y, c) == x.len(),
    decreases y.len(),
{
    if y.len() == 0 {
        assert(x + seq![c] + y =~= x.push(c));
    } else {
        lemma_last_index_marker(x, c, y.drop_last());
        assert((x + seq![c] + y).drop_last() =~= x + seq![c] + y.drop_last());
    }
}

} // verus!
