//! Character-level helpers over strings, each proved against a spec function.
use vstd::prelude::*;
use vstd::string::*;

verus! {

/// Whitespace that separates words in a type specification.
pub open spec fn is_ws(c: char) -> bool {
    c == ' ' || c == '\t' || c == '\n' || c == '\r'
}

/// Index of the first non-whitespace character at or after `i`.
pub open spec fn skip_ws(s: Seq<char>, i: int) -> int
    decreases s.len() - i,
{
    if i < 0 || i >= s.len() {
        s.len() as int
    } else if is_ws(s[i]) {
        skip_ws(s, i + 1)
    } else {
        i
    }
}

/// Index of the first whitespace character at or after `i`.
pub open spec fn word_end(s: Seq<char>, i: int) -> int
    decreases s.len() - i,
{
    if i < 0 || i >= s.len() {
        s.len() as int
    } else if is_ws(s[i]) {
        i
    } else {
        word_end(s, i + 1)
    }
}

/// Start and end of the `k`-th whitespace-separated word of `s`.
pub open spec fn word_bounds(s: Seq<char>, k: nat) -> (int, int)
    decreases k,
{
    let from = if k == 0 {
        0
    } else {
        word_bounds(s, (k - 1) as nat).1
    };
    let start = skip_ws(s, from);
    (start, word_end(s, start))
}

/// The `k`-th whitespace-separated word of `s`, if `s` has that many words.
pub open spec fn word(s: Seq<char>, k: nat) -> Option<Seq<char>> {
    let (a, b) = word_bounds(s, k);
    if a < s.len() {
        Some(s.subrange(a, b))
    } else {
        None
    }
}

pub proof fn lemma_skip_ws_bounds(s: Seq<char>, i: int)
    requires
        0 <= i <= s.len(),
    ensures
        i <= skip_ws(s, i) <= s.len(),
    decreases s.len() - i,
{
    if i < s.len() && is_ws(s[i]) {
        lemma_skip_ws_bounds(s, i + 1);
    }
}

pub proof fn lemma_word_end_bounds(s: Seq<char>, i: int)
    requires
        0 <= i <= s.len(),
    ensures
        i <= word_end(s, i) <= s.len(),
    decreases s.len() - i,
{
    if i < s.len() && !is_ws(s[i]) {
        lemma_word_end_bounds(s, i + 1);
    }
}

pub proof fn lemma_word_bounds(s: Seq<char>, k: nat)
    ensures
        0 <= word_bounds(s, k).0 <= word_bounds(s, k).1 <= s.len(),
    decreases k,
{
    let from = if k == 0 {
        0
    } else {
        lemma_word_bounds(s, (k - 1) as nat);
        word_bounds(s, (k - 1) as nat).1
    };
    lemma_skip_ws_bounds(s, from);
    lemma_word_end_bounds(s, skip_ws(s, from));
}

fn is_ws_char(c: char) -> (r: bool)
    ensures
        r == is_ws(c),
{
    c == ' ' || c == '\t' || c == '\n' || c == '\r'
}

/// Character-wise equality of two strings.
pub fn str_eq(a: &str, b: &str) -> (r: bool)
    ensures
        r == (a@ == b@),
{
    let n = a.unicode_len();
    if n != b.unicode_len() {
        return false;
    }
    let mut i: usize = 0;
    while i < n
        invariant
            n == a@.len(),
            n == b@.len(),
            i <= n,
            a@.subrange(0, i as int) == b@.subrange(0, i as int),
        decreases n - i,
    {
        if a.get_char(i) != b.get_char(i) {
            return false;
        }
        assert(a@.subrange(0, i + 1) == a@.subrange(0, i as int).push(a@[i as int]));
        assert(b@.subrange(0, i + 1) == b@.subrange(0, i as int).push(b@[i as int]));
        i = i + 1;
    }
    assert(a@ == a@.subrange(0, n as int));
    assert(b@ == b@.subrange(0, n as int));
    true
}

/// Whether `s` begins with `prefix`.
pub fn starts_with(s: &str, prefix: &str) -> (r: bool)
    ensures
        r == (prefix@.len() <= s@.len() && s@.subrange(0, prefix@.len() as int) == prefix@),
{
    let n = prefix.unicode_len();
    if n > s.unicode_len() {
        return false;
    }
    let head = s.substring_char(0, n);
    str_eq(head, prefix)
}

fn skip_ws_exec(s: &str, n: usize, i: usize) -> (r: usize)
    requires
        n == s@.len(),
        i <= n,
    ensures
        r == skip_ws(s@, i as int),
        i <= r <= n,
{
    let mut j = i;
    while j < n && is_ws_char(s.get_char(j))
        invariant
            n == s@.len(),
            i <= j <= n,
            skip_ws(s@, j as int) == skip_ws(s@, i as int),
        decreases n - j,
    {
        j = j + 1;
    }
    j
}

fn word_end_exec(s: &str, n: usize, i: usize) -> (r: usize)
    requires
        n == s@.len(),
        i <= n,
    ensures
        r == word_end(s@, i as int),
        i <= r <= n,
{
    let mut j = i;
    while j < n && !is_ws_char(s.get_char(j))
        invariant
            n == s@.len(),
            i <= j <= n,
            word_end(s@, j as int) == word_end(s@, i as int),
        decreases n - j,
    {
        j = j + 1;
    }
    j
}

/// The `k`-th whitespace-separated word of `s`.
pub fn nth_word(s: &str, k: usize) -> (r: Option<String>)
    ensures
        r matches Some(w) ==> word(s@, k as nat) == Some(w@),
        r is None ==> word(s@, k as nat) is None,
{
    let n = s.unicode_len();
    let mut start = skip_ws_exec(s, n, 0);
    let mut end = word_end_exec(s, n, start);
    let mut j: usize = 0;
    while j < k
        invariant
            n == s@.len(),
            j <= k,
            word_bounds(s@, j as nat) == (start as int, end as int),
            start <= end <= n,
        decreases k - j,
    {
        start = skip_ws_exec(s, n, end);
        end = word_end_exec(s, n, start);
        j = j + 1;
    }
    if start < n {
        Some(String::from_str(s.substring_char(start, end)))
    } else {
        None
    }
}

} // verus!

verus! {

pub open spec fn is_digit(c: char) -> bool {
    '0' <= c && c <= '9'
}

pub open spec fn digit_value(c: char) -> int {
    (c as int) - ('0' as int)
}

pub open spec fn all_digits(s: Seq<char>) -> bool {
    forall|i: int| 0 <= i < s.len() ==> is_digit(#[trigger] s[i])
}

/// The number written in decimal by the digits `s`.
pub open spec fn digits_value(s: Seq<char>) -> int
    decreases s.len(),
{
    if s.len() == 0 {
        0
    } else {
        digits_value(s.drop_last()) * 10 + digit_value(s.last())
    }
}

/// The number that `s` writes in decimal, if `s` is a non-empty run of digits.
pub open spec fn natural_of(s: Seq<char>) -> Option<int> {
    if s.len() > 0 && all_digits(s) {
        Some(digits_value(s))
    } else {
        None
    }
}

/// The number that `s` writes in decimal, with an optional leading `-`.
pub open spec fn integer_of(s: Seq<char>) -> Option<int> {
    if s.len() > 0 && s[0] == '-' {
        match natural_of(s.drop_first()) {
            Some(v) => Some(-v),
            None => None,
        }
    } else {
        natural_of(s)
    }
}

pub proof fn lemma_digits_value_nonneg(s: Seq<char>)
    requires
        all_digits(s),
    ensures
        digits_value(s) >= 0,
    decreases s.len(),
{
    if s.len() > 0 {
        lemma_digits_value_nonneg(s.drop_last());
    }
}

/// Reads the digits of `s` from position `from` on as a number no greater
/// than `limit`.
fn natural_from(s: &str, from: usize, limit: u64) -> (r: Option<u64>)
    requires
        from <= s@.len(),
    ensures
        r matches Some(v) ==> natural_of(s@.subrange(from as int, s@.len() as int)) == Some(
            v as int,
        ) && v <= limit,
        r is None ==> match natural_of(s@.subrange(from as int, s@.len() as int)) {
            Some(v) => v > limit,
            None => true,
        },
{
    let n = s.unicode_len();
    if from >= n {
        return None;
    }
    let mut acc: u64 = 0;
    let mut over = false;
    let mut i = from;
    while i < n
        invariant
            n == s@.len(),
            from <= i <= n,
            all_digits(s@.subrange(from as int, i as int)),
            over ==> digits_value(s@.subrange(from as int, i as int)) > limit,
            !over ==> acc == digits_value(s@.subrange(from as int, i as int)) && acc <= limit,
        decreases n - i,
    {
        let c = s.get_char(i);
        if !('0' <= c && c <= '9') {
            assert(!all_digits(s@.subrange(from as int, n as int))) by {
                assert(s@.subrange(from as int, n as int)[i - from] == c);
            }
            return None;
        }
        let ghost prev = s@.subrange(from as int, i as int);
        let ghost next = s@.subrange(from as int, i + 1);
        assert(next.drop_last() == prev);
        assert(next.last() == c);
        assert(all_digits(next)) by {
            assert forall|k: int| 0 <= k < next.len() implies is_digit(#[trigger] next[k]) by {
                if k < prev.len() {
                    assert(next[k] == prev[k]);
                }
            }
        }
        let d = (c as u32 - '0' as u32) as u64;
        if !over {
            let step: u128 = acc as u128 * 10 + d as u128;
            if step > limit as u128 {
                over = true;
            } else {
                acc = step as u64;
            }
        }
        i = i + 1;
    }
    assert(s@.subrange(from as int, n as int).len() > 0);
    if over {
        None
    } else {
        Some(acc)
    }
}

/// Reads `s` as a decimal number no greater than `limit`.
pub fn parse_natural(s: &str, limit: u64) -> (r: Option<u64>)
    ensures
        r matches Some(v) ==> natural_of(s@) == Some(v as int) && v <= limit,
        r is None ==> match natural_of(s@) {
            Some(v) => v > limit,
            None => true,
        },
{
    assert(s@.subrange(0, s@.len() as int) == s@);
    natural_from(s, 0, limit)
}

/// Reads `s` as a decimal number with an optional leading `-`, whose
/// magnitude is no greater than `limit`.
pub fn parse_integer(s: &str, limit: u64) -> (r: Option<i128>)
    ensures
        r matches Some(v) ==> integer_of(s@) == Some(v as int) && -(limit as int) <= v <= limit,
        r is None ==> match integer_of(s@) {
            Some(v) => v > limit || v < -(limit as int),
            None => true,
        },
{
    let n = s.unicode_len();
    if n > 0 && s.get_char(0) == '-' {
        assert(s@.subrange(1, s@.len() as int) == s@.drop_first());
        match natural_from(s, 1, limit) {
            Some(v) => Some(-(v as i128)),
            None => None,
        }
    } else {
        match parse_natural(s, limit) {
            Some(v) => Some(v as i128),
            None => None,
        }
    }
}

} // verus!
