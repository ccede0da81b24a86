//! Character-sequence scanning primitives shared by the route parser and the
//! response formatter: first/last occurrence of a character, prefix tests,
//! whitespace trimming, and decimal formatting of integers.

use vstd::prelude::*;

verus! {

/// Index of the first occurrence of `c` in `s`; `s.len()` when `c` is absent.
pub open spec fn first_pos(s: Seq<char>, c: char) -> int
    decreases s.len(),
{
    if s.len() == 0 {
        0
    } else if s[0] == c {
        0
    } else {
        1 + first_pos(s.drop_first(), c)
    }
}

/// One past the index of the last occurrence of `c` in `s`; 0 when `c` is absent.
pub open spec fn last_pos(s: Seq<char>, c: char) -> int
    decreases s.len(),
{
    if s.len() == 0 {
        0
    } else if s.last() == c {
        s.len() as int
    } else {
        last_pos(s.drop_last(), c)
    }
}

pub proof fn lemma_first_pos(s: Seq<char>, c: char)
    ensures
        0 <= first_pos(s, c) <= s.len(),
        forall|j: int| 0 <= j < first_pos(s, c) ==> s[j] != c,
        first_pos(s, c) < s.len() ==> s[first_pos(s, c)] == c,
    decreases s.len(),
{
    if s.len() == 0 {
    } else if s[0] == c {
    } else {
        lemma_first_pos(s.drop_first(), c);
        assert forall|j: int| 0 <= j < first_pos(s, c) implies s[j] != c by {
            if j > 0 {
                assert(s.drop_first()[j - 1] != c);
            }
        }
    }
}

pub proof fn lemma_last_pos(s: Seq<char>, c: char)
    ensures
        0 <= last_pos(s, c) <= s.len(),
        forall|j: int| last_pos(s, c) <= j < s.len() ==> s[j] != c,
        last_pos(s, c) > 0 ==> s[last_pos(s, c) - 1] == c,
    decreases s.len(),
{
    if s.len() == 0 {
    } else if s.last() == c {
    } else {
        lemma_last_pos(s.drop_last(), c);
        assert forall|j: int| last_pos(s, c) <= j < s.len() implies s[j] != c by {
            if j < s.len() - 1 {
                assert(s.drop_last()[j] != c);
            }
        }
    }
}

/// `first_pos` is pinned down by any witness index: everything before `i`
/// differs from `c`, and `i` either carries `c` or is the length.
pub proof fn lemma_first_pos_at(s: Seq<char>, c: char, i: int)
    requires
        0 <= i <= s.len(),
        forall|j: int| 0 <= j < i ==> s[j] != c,
        i < s.len() ==> s[i] == c,
    ensures
        first_pos(s, c) == i,
    decreases s.len(),
{
    if s.len() == 0 {
    } else if s[0] == c {
        assert(i == 0);
    } else {
        assert(i >= 1);
        lemma_first_pos_at(s.drop_first(), c, i - 1);
    }
}

/// Dual of `lemma_first_pos_at` for `last_pos`.
pub proof fn lemma_last_pos_at(s: Seq<char>, c: char, i: int)
    requires
        0 <= i <= s.len(),
        forall|j: int| i <= j < s.len() ==> s[j] != c,
        i > 0 ==> s[i - 1] == c,
    ensures
        last_pos(s, c) == i,
    decreases s.len(),
{
    if s.len() == 0 {
    } else if s.last() == c {
        assert(i == s.len());
    } else {
        assert(i < s.len());
        lemma_last_pos_at(s.drop_last(), c, i);
    }
}

/// First occurrence of `c` in `s`, as an executable scan.
pub fn find_char(s: &str, c: char) -> (i: usize)
    ensures
        i as int == first_pos(s@, c),
{
    let n: usize = s.unicode_len();
    let mut i: usize = 0;
    while i < n
        invariant
            n == s@.len(),
            0 <= i <= n,
            forall|j: int| 0 <= j < i ==> s@[j] != c,
        decreases n - i,
    {
        if s.get_char(i) == c {
            proof {
                lemma_first_pos_at(s@, c, i as int);
            }
            return i;
        }
        i = i + 1;
    }
    proof {
        lemma_first_pos_at(s@, c, n as int);
    }
    n
}

/// Last occurrence of `c` in `s` (one past it), as an executable backward scan.
pub fn rfind_char(s: &str, c: char) -> (i: usize)
    ensures
        i as int == last_pos(s@, c),
{
    let n: usize = s.unicode_len();
    let mut i: usize = n;
    while i > 0
        invariant
            n == s@.len(),
            0 <= i <= n,
            forall|j: int| i <= j < n ==> s@[j] != c,
        decreases i,
    {
        if s.get_char(i - 1) == c {
            proof {
                lemma_last_pos_at(s@, c, i as int);
            }
            return i;
        }
        i = i - 1;
    }
    proof {
        lemma_last_pos_at(s@, c, 0);
    }
    0
}

/// `c` occurs nowhere in `s`.
pub open spec fn no_char(s: Seq<char>, c: char) -> bool {
    forall|i: int| 0 <= i < s.len() ==> s[i] != c
}

pub proof fn lemma_concat_no_char(a: Seq<char>, b: Seq<char>, c: char)
    requires
        no_char(a, c),
        no_char(b, c),
    ensures
        no_char(a + b, c),
{
    assert forall|i: int| 0 <= i < (a + b).len() implies (a + b)[i] != c by {
        if i < a.len() {
            assert((a + b)[i] == a[i]);
        } else {
            assert((a + b)[i] == b[i - a.len()]);
        }
    }
}

pub proof fn lemma_no_char_first_pos(s: Seq<char>, c: char)
    requires
        no_char(s, c),
    ensures
        first_pos(s, c) == s.len(),
{
    lemma_first_pos_at(s, c, s.len() as int);
}

pub open spec fn starts_with_chars(s: Seq<char>, p: Seq<char>) -> bool {
    p.len() <= s.len() && s.take(p.len() as int) == p
}

pub fn starts_with_str(s: &str, p: &str) -> (b: bool)
    ensures
        b == starts_with_chars(s@, p@),
{
    let n: usize = s.unicode_len();
    let m: usize = p.unicode_len();
    if m > n {
        return false;
    }
    let mut i: usize = 0;
    while i < m
        invariant
            n == s@.len(),
            m == p@.len(),
            m <= n,
            0 <= i <= m,
            forall|j: int| 0 <= j < i ==> s@[j] == p@[j],
        decreases m - i,
    {
        if s.get_char(i) != p.get_char(i) {
            assert(s@.take(m as int)[i as int] != p@[i as int]);
            return false;
        }
        i = i + 1;
    }
    assert(s@.take(m as int) =~= p@);
    true
}

/// The whitespace characters stripped by `trimmed`: the ASCII blanks that can
/// surround a field value in the upload response.
pub open spec fn is_space(c: char) -> bool {
    c == ' ' || c == '\t' || c == '\r'
}

pub open spec fn lstrip(s: Seq<char>) -> Seq<char>
    decreases s.len(),
{
    if s.len() > 0 && is_space(s[0]) {
        lstrip(s.drop_first())
    } else {
        s
    }
}

pub open spec fn rstrip(s: Seq<char>) -> Seq<char>
    decreases s.len(),
{
    if s.len() > 0 && is_space(s.last()) {
        rstrip(s.drop_last())
    } else {
        s
    }
}

/// `s` with leading and trailing ASCII blanks removed.
pub open spec fn trimmed(s: Seq<char>) -> Seq<char> {
    rstrip(lstrip(s))
}

proof fn lemma_lstrip_subrange(s: Seq<char>, a: int)
    requires
        0 <= a <= s.len(),
        forall|j: int| 0 <= j < a ==> is_space(s[j]),
        a < s.len() ==> !is_space(s[a]),
    ensures
        lstrip(s) == s.subrange(a, s.len() as int),
    decreases s.len(),
{
    if a == 0 {
        assert(s.subrange(0, s.len() as int) =~= s);
    } else {
        lemma_lstrip_subrange(s.drop_first(), a - 1);
        assert(s.drop_first().subrange(a - 1, s.drop_first().len() as int) =~= s.subrange(
            a,
            s.len() as int,
        ));
    }
}

proof fn lemma_rstrip_take(s: Seq<char>, m: int)
    requires
        0 <= m <= s.len(),
        forall|j: int| m <= j < s.len() ==> is_space(s[j]),
        m > 0 ==> !is_space(s[m - 1]),
    ensures
        rstrip(s) == s.take(m),
    decreases s.len(),
{
    if m == s.len() {
        assert(s.take(m) =~= s);
    } else {
        lemma_rstrip_take(s.drop_last(), m);
        assert(s.drop_last().take(m) =~= s.take(m));
    }
}

/// Trimming a single leading blank off a value that neither starts nor ends
/// with one gives the value back.
pub proof fn lemma_trimmed_one_space(v: Seq<char>)
    requires
        v.len() > 0,
        !is_space(v[0]),
        !is_space(v.last()),
    ensures
        trimmed(seq![' '] + v) == v,
{
    let s = seq![' '] + v;
    lemma_lstrip_subrange(s, 1);
    assert(s.subrange(1, s.len() as int) =~= v);
    lemma_rstrip_take(v, v.len() as int);
    assert(v.take(v.len() as int) =~= v);
}

/// Removes leading and trailing ASCII blanks.
pub fn trim_spaces<'a>(s: &'a str) -> (r: &'a str)
    ensures
        r@ == trimmed(s@),
{
    let n: usize = s.unicode_len();
    let mut a: usize = 0;
    while a < n && is_space_char(s.get_char(a))
        invariant
            n == s@.len(),
            0 <= a <= n,
            forall|j: int| 0 <= j < a ==> is_space(s@[j]),
        decreases n - a,
    {
        a = a + 1;
    }
    proof {
        lemma_lstrip_subrange(s@, a as int);
    }
    let ghost t = s@.subrange(a as int, n as int);
    let mut b: usize = n;
    while b > a && is_space_char(s.get_char(b - 1))
        invariant
            n == s@.len(),
            a <= b <= n,
            forall|j: int| b <= j < n ==> is_space(s@[j]),
        decreases b,
    {
        b = b - 1;
    }
    proof {
        lemma_rstrip_take(t, b - a);
        assert(t.take(b - a) =~= s@.subrange(a as int, b as int));
    }
    s.substring_char(a, b)
}

/// Executable form of `is_space`.
pub fn is_space_char(c: char) -> (b: bool)
    ensures
        b == is_space(c),
{
    c == ' ' || c == '\t' || c == '\r'
}

/// The decimal digit character for `d` (0 through 9).
pub open spec fn dec_digit(d: int) -> char
    recommends
        0 <= d < 10,
{
    (48 + d) as char
}

/// The decimal numeral of `n`, most significant digit first, no leading zeros
/// (the numeral of 0 is "0").
pub open spec fn dec_str_of(n: nat) -> Seq<char>
    decreases n,
{
    if n < 10 {
        seq![dec_digit(n as int)]
    } else {
        dec_str_of(n / 10) + seq![dec_digit((n % 10) as int)]
    }
}

/// Every character of a decimal numeral is a digit, and a numeral is never
/// empty.
pub proof fn lemma_dec_str_digits(n: nat)
    ensures
        dec_str_of(n).len() >= 1,
        forall|i: int|
            0 <= i < dec_str_of(n).len() ==> 48 <= #[trigger] dec_str_of(n)[i] as int <= 57,
    decreases n,
{
    if n < 10 {
    } else {
        lemma_dec_str_digits(n / 10);
        assert forall|i: int| 0 <= i < dec_str_of(n).len() implies 48 <= #[trigger] dec_str_of(n)[i]
            as int <= 57 by {
            if i < dec_str_of(n / 10).len() {
                assert(dec_str_of(n)[i] == dec_str_of(n / 10)[i]);
            }
        }
    }
}

fn digit_str(d: u64) -> (r: &'static str)
    requires
        d < 10,
    ensures
        r@ == seq![dec_digit(d as int)],
{
    if d == 0 {
        proof {
            reveal_strlit("0");
        }
        "0"
    } else if d == 1 {
        proof {
            reveal_strlit("1");
        }
        "1"
    } else if d == 2 {
        proof {
            reveal_strlit("2");
        }
        "2"
    } else if d == 3 {
        proof {
            reveal_strlit("3");
        }
        "3"
    } else if d == 4 {
        proof {
            reveal_strlit("4");
        }
        "4"
    } else if d == 5 {
        proof {
            reveal_strlit("5");
        }
        "5"
    } else if d == 6 {
        proof {
            reveal_strlit("6");
        }
        "6"
    } else if d == 7 {
        proof {
            reveal_strlit("7");
        }
        "7"
    } else if d == 8 {
        proof {
            reveal_strlit("8");
        }
        "8"
    } else {
        proof {
            reveal_strlit("9");
        }
        "9"
    }
}

/// Formats `n` as its decimal numeral.
pub fn u64_to_string(n: u64) -> (r: String)
    ensures
        r@ == dec_str_of(n as nat),
    decreases n,
{
    if n < 10 {
        String::from_str(digit_str(n))
    } else {
        let q = u64_to_string(n / 10);
        q.concat(digit_str(n % 10))
    }
}

} // verus!
