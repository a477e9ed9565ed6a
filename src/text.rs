use vstd::prelude::*;
use vstd::string::StrSliceExecFns;

verus! {

/// The Unicode `White_Space` set, which `char::is_whitespace` tests.
pub open spec fn is_space(c: char) -> bool {
    let u = c as u32;
    ||| 0x09 <= u <= 0x0d
    ||| u == 0x20
    ||| u == 0x85
    ||| u == 0xa0
    ||| u == 0x1680
    ||| 0x2000 <= u <= 0x200a
    ||| u == 0x2028
    ||| u == 0x2029
    ||| u == 0x202f
    ||| u == 0x205f
    ||| u == 0x3000
}

/// Whether `c` is whitespace.
pub fn is_space_char(c: char) -> (r: bool)
    ensures
        r == is_space(c),
{
    let u = c as u32;
    (0x09 <= u && u <= 0x0d) || u == 0x20 || u == 0x85 || u == 0xa0 || u == 0x1680 || (0x2000
        <= u && u <= 0x200a) || u == 0x2028 || u == 0x2029 || u == 0x202f || u == 0x205f || u
        == 0x3000
}

/// The first position at or after `i` that does not hold whitespace.
pub open spec fn space_end(s: Seq<char>, i: nat) -> nat
    decreases s.len() - i,
{
    if i >= s.len() || !is_space(s[i as int]) {
        i
    } else {
        space_end(s, i + 1)
    }
}

/// The first position at or after `i` that holds whitespace.
pub open spec fn word_end(s: Seq<char>, i: nat) -> nat
    decreases s.len() - i,
{
    if i >= s.len() || is_space(s[i as int]) {
        i
    } else {
        word_end(s, i + 1)
    }
}

/// Where the `k`-th whitespace-separated token of `s` starts, counting from
/// zero; `s.len()` when `s` has no such token.
pub open spec fn token_start(s: Seq<char>, k: nat) -> nat
    decreases k,
{
    if k == 0 {
        space_end(s, 0)
    } else {
        space_end(s, word_end(s, token_start(s, (k - 1) as nat)))
    }
}

/// Whether `s` has a `k`-th token.
pub open spec fn has_token(s: Seq<char>, k: nat) -> bool {
    token_start(s, k) < s.len()
}

/// The `k`-th whitespace-separated token of `s`.
pub open spec fn token(s: Seq<char>, k: nat) -> Seq<char> {
    s.subrange(token_start(s, k) as int, word_end(s, token_start(s, k)) as int)
}

pub proof fn lemma_space_end_bounds(s: Seq<char>, i: nat)
    ensures
        i <= s.len() ==> i <= space_end(s, i) <= s.len(),
        i > s.len() ==> space_end(s, i) == i,
    decreases s.len() - i,
{
    if i < s.len() && is_space(s[i as int]) {
        lemma_space_end_bounds(s, i + 1);
    }
}

pub proof fn lemma_word_end_bounds(s: Seq<char>, i: nat)
    ensures
        i <= s.len() ==> i <= word_end(s, i) <= s.len(),
        i > s.len() ==> word_end(s, i) == i,
    decreases s.len() - i,
{
    if i < s.len() && !is_space(s[i as int]) {
        lemma_word_end_bounds(s, i + 1);
    }
}

/// The characters of `s`, in order.
pub fn chars_of(s: &str) -> (r: Vec<char>)
    ensures
        r@ == s@,
{
    let n = s.unicode_len();
    let mut r: Vec<char> = Vec::new();
    let mut i: usize = 0;
    while i < n
        invariant
            n == s@.len(),
            i <= n,
            r@ == s@.take(i as int),
        decreases n - i,
    {
        r.push(s.get_char(i));
        i = i + 1;
        assert(r@ =~= s@.take(i as int));
    }
    assert(r@ =~= s@);
    r
}

/// The first position at or after `i` that does not hold whitespace.
pub fn skip_spaces(s: &Vec<char>, i: usize) -> (r: usize)
    requires
        i <= s@.len(),
    ensures
        r == space_end(s@, i as nat),
{
    let mut j = i;
    while j < s.len() && is_space_char(s[j])
        invariant
            i <= j <= s@.len(),
            space_end(s@, j as nat) == space_end(s@, i as nat),
        decreases s@.len() - j,
    {
        j = j + 1;
    }
    j
}

/// The first position at or after `i` that holds whitespace.
pub fn skip_word(s: &Vec<char>, i: usize) -> (r: usize)
    requires
        i <= s@.len(),
    ensures
        r == word_end(s@, i as nat),
{
    let mut j = i;
    while j < s.len() && !is_space_char(s[j])
        invariant
            i <= j <= s@.len(),
            word_end(s@, j as nat) == word_end(s@, i as nat),
        decreases s@.len() - j,
    {
        j = j + 1;
    }
    j
}

/// Whether `s` begins with `p`.
pub fn starts_with(s: &str, p: &str) -> (r: bool)
    ensures
        r == (p@.len() <= s@.len() && s@.take(p@.len() as int) == p@),
{
    let n = s.unicode_len();
    let m = p.unicode_len();
    if m > n {
        return false;
    }
    let mut i: usize = 0;
    while i < m
        invariant
            n == s@.len(),
            m == p@.len(),
            m <= n,
            i <= m,
            forall|j: int| 0 <= j < i ==> s@[j] == p@[j],
        decreases m - i,
    {
        if s.get_char(i) != p.get_char(i) {
            assert(s@.take(m as int)[i as int] != p@[i as int]);
            return false;
        }
        i = i + 1;
    }
    assert(s@.take(m as int) =~= p@);
    true
}

/// Whether `s` and `t` hold the same characters.
pub fn same_text(s: &str, t: &str) -> (r: bool)
    ensures
        r == (s@ == t@),
{
    let n = s.unicode_len();
    if n != t.unicode_len() {
        return false;
    }
    let b = starts_with(s, t);
    proof {
        if b {
            assert(s@ =~= s@.take(t@.len() as int));
        }
        if s@ == t@ {
            assert(s@.take(t@.len() as int) =~= t@);
        }
    }
    b
}

/// Whether `d` is a non-empty run of ASCII decimal digits.
pub open spec fn all_digits(d: Seq<char>) -> bool {
    d.len() > 0 && forall|i: int| 0 <= i < d.len() ==> '0' <= #[trigger] d[i] <= '9'
}

/// The value of a run of decimal digits.
pub open spec fn digits_value(d: Seq<char>) -> nat
    decreases d.len(),
{
    if d.len() == 0 {
        0
    } else {
        digits_value(d.drop_last()) * 10 + ((d.last() as u32) - ('0' as u32)) as nat
    }
}

/// The integer that `t` writes in decimal: an optional `+` or `-` sign and
/// then one or more digits, nothing else.
pub open spec fn decimal_value(t: Seq<char>) -> Option<int> {
    if t.len() > 0 && t[0] == '-' && all_digits(t.drop_first()) {
        Some(-digits_value(t.drop_first()))
    } else if t.len() > 0 && t[0] == '+' && all_digits(t.drop_first()) {
        Some(digits_value(t.drop_first()) as int)
    } else if all_digits(t) {
        Some(digits_value(t) as int)
    } else {
        None
    }
}

/// What `str::parse::<i32>` gives for `t`: the decimal value when it is one
/// and fits in an `i32`.
pub open spec fn i32_value(t: Seq<char>) -> Option<i32> {
    match decimal_value(t) {
        Some(v) => if i32::MIN <= v <= i32::MAX {
            Some(v as i32)
        } else {
            None
        },
        None => None,
    }
}

/// Relies on `<i32 as FromStr>::from_str`, which accepts an optional sign
/// followed by decimal digits and fails on anything else or on overflow.
#[verifier::external_body]
pub(crate) fn parse_i32(t: &str) -> (r: Option<i32>)
    ensures
        r == i32_value(t@),
{
    t.parse::<i32>().ok()
}

} // verus!
