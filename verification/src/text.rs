//! Character-sequence utilities used by the fact collector: trimming,
//! line splitting, prefix tests, splitting at a colon, parsing unsigned
//! decimal numbers, and rendering numbers back to decimal text.
//!
//! Every executable function is specified against a recursive spec function
//! over `Seq<char>`, so callers reason purely at the level of character
//! sequences.

use vstd::prelude::*;
use vstd::string::StrSliceExecFns;
use vstd::string::StringExecFns;

verus! {

/// A character that trimming treats as blank: the ASCII blanks (space,
/// tab, carriage return, newline). Other whitespace characters are kept.
pub open spec fn is_space(c: char) -> bool {
    c == ' ' || c == '\t' || c == '\r' || c == '\n'
}

/// `s` with its leading blank characters removed.
pub open spec fn trim_start_spec(s: Seq<char>) -> Seq<char>
    decreases s.len(),
{
    if s.len() == 0 {
        s
    } else if is_space(s[0]) {
        trim_start_spec(s.skip(1))
    } else {
        s
    }
}

/// `s` with its trailing blank characters removed.
pub open spec fn trim_end_spec(s: Seq<char>) -> Seq<char>
    decreases s.len(),
{
    if s.len() == 0 {
        s
    } else if is_space(s.last()) {
        trim_end_spec(s.drop_last())
    } else {
        s
    }
}

/// `s` with blank characters removed from both ends.
pub open spec fn trim_spec(s: Seq<char>) -> Seq<char> {
    trim_end_spec(trim_start_spec(s))
}

fn is_blank(c: char) -> (r: bool)
    ensures
        r == is_space(c),
{
    c == ' ' || c == '\t' || c == '\r' || c == '\n'
}

proof fn lemma_trim_start_at(s: Seq<char>, a: int)
    requires
        0 <= a <= s.len(),
        forall|k: int| 0 <= k < a ==> is_space(s[k]),
        a == s.len() || !is_space(s[a]),
    ensures
        trim_start_spec(s) == s.skip(a),
    decreases a,
{
    if a == 0 {
        assert(s.skip(0) =~= s);
    } else {
        assert(is_space(s[0]));
        lemma_trim_start_at(s.skip(1), a - 1);
        assert(s.skip(1).skip(a - 1) =~= s.skip(a));
    }
}

proof fn lemma_trim_end_at(s: Seq<char>, b: int)
    requires
        0 <= b <= s.len(),
        forall|k: int| b <= k < s.len() ==> is_space(s[k]),
        b == 0 || !is_space(s[b - 1]),
    ensures
        trim_end_spec(s) == s.take(b),
    decreases s.len() - b,
{
    if b == s.len() {
        if s.len() == 0 {
            assert(s.take(0) =~= s);
        } else {
            assert(!is_space(s.last()));
            assert(s.take(b) =~= s);
        }
    } else {
        assert(is_space(s.last()));
        lemma_trim_end_at(s.drop_last(), b);
        assert(s.drop_last().take(b) =~= s.take(b));
    }
}

/// Remove blank characters from both ends of `s`.
pub fn trim(s: &str) -> (r: String)
    ensures
        r@ == trim_spec(s@),
{
    let n = s.unicode_len();
    let mut a: usize = 0;
    while a < n && is_blank(s.get_char(a))
        invariant
            0 <= a <= n,
            n == s@.len(),
            forall|k: int| 0 <= k < a ==> is_space(s@[k]),
        decreases n - a,
    {
        a = a + 1;
    }
    let mut b: usize = n;
    while b > a && is_blank(s.get_char(b - 1))
        invariant
            a <= b <= n,
            n == s@.len(),
            forall|k: int| 0 <= k < a ==> is_space(s@[k]),
            forall|k: int| b <= k < n ==> is_space(s@[k]),
        decreases b,
    {
        b = b - 1;
    }
    proof {
        lemma_trim_start_at(s@, a as int);
        let t = s@.skip(a as int);
        assert(forall|k: int| b - a <= k < t.len() ==> is_space(#[trigger] t[k]));
        if b > a {
            assert(!is_space(t[b - a - 1]));
        }
        lemma_trim_end_at(t, b - a);
        assert(t.take(b - a) =~= s@.subrange(a as int, b as int));
    }
    let piece = s.substring_char(a, b);
    String::from_str(piece)
}

/// Does `s` begin with `p`?
pub open spec fn starts_with_spec(s: Seq<char>, p: Seq<char>) -> bool {
    p.len() <= s.len() && (forall|k: int| 0 <= k < p.len() ==> s[k] == p[k])
}

/// Test whether `s` begins with `p`.
pub fn starts_with(s: &str, p: &str) -> (r: bool)
    ensures
        r == starts_with_spec(s@, p@),
{
    let n = s.unicode_len();
    let m = p.unicode_len();
    if m > n {
        return false;
    }
    let mut i: usize = 0;
    while i < m
        invariant
            0 <= i <= m <= n,
            n == s@.len(),
            m == p@.len(),
            forall|k: int| 0 <= k < i ==> s@[k] == p@[k],
        decreases m - i,
    {
        if s.get_char(i) != p.get_char(i) {
            return false;
        }
        i = i + 1;
    }
    true
}

/// The index of the first occurrence of `c` in `s`, or `s.len()` if absent.
pub open spec fn find_char(s: Seq<char>, c: char) -> nat
    decreases s.len(),
{
    if s.len() == 0 {
        0
    } else if s[0] == c {
        0
    } else {
        1 + find_char(s.skip(1), c)
    }
}

proof fn lemma_find_char_at(s: Seq<char>, c: char, m: int)
    requires
        0 <= m <= s.len(),
        forall|k: int| 0 <= k < m ==> s[k] != c,
        m == s.len() || s[m] == c,
    ensures
        find_char(s, c) == m,
    decreases m,
{
    if m == 0 {
        if s.len() > 0 && s[0] != c {
            assert(false);
        }
    } else {
        assert(s[0] != c);
        lemma_find_char_at(s.skip(1), c, m - 1);
    }
}

/// `s` with one leading space removed, when it has one.
pub open spec fn drop_one_space(s: Seq<char>) -> Seq<char> {
    if s.len() > 0 && s[0] == ' ' {
        s.skip(1)
    } else {
        s
    }
}

/// Split `l` at its first colon: the part before it, and the remainder
/// after it with one leading space removed when present and nothing else
/// changed, so that writing `name: value` reproduces a `name: value` line
/// as its source wrote it. `None` when `l` holds no colon.
pub open spec fn colon_split_spec(l: Seq<char>) -> Option<(Seq<char>, Seq<char>)> {
    let k = find_char(l, ':') as int;
    if k == l.len() {
        None
    } else {
        Some((l.take(k), drop_one_space(l.skip(k + 1))))
    }
}

/// Split `l` at its first colon into a name and the raw remainder, less
/// one leading space.
pub fn split_colon(l: &str) -> (r: Option<(String, String)>)
    ensures
        r is Some <==> colon_split_spec(l@) is Some,
        r matches Some(p) ==> colon_split_spec(l@) matches Some(q) && p.0@ == q.0 && p.1@ == q.1,
{
    let n = l.unicode_len();
    let mut i: usize = 0;
    while i < n && l.get_char(i) != ':'
        invariant
            0 <= i <= n,
            n == l@.len(),
            forall|k: int| 0 <= k < i ==> l@[k] != ':',
        decreases n - i,
    {
        i = i + 1;
    }
    proof {
        lemma_find_char_at(l@, ':', i as int);
    }
    if i == n {
        None
    } else {
        let name = String::from_str(l.substring_char(0, i));
        let start = if i + 1 < n && l.get_char(i + 1) == ' ' {
            i + 2
        } else {
            i + 1
        };
        let value = String::from_str(l.substring_char(start, n));
        proof {
            assert(l@.subrange(0, i as int) =~= l@.take(i as int));
            let rest = l@.skip(i + 1);
            if i + 1 < n && l@[i + 1] == ' ' {
                assert(rest[0] == ' ');
                assert(l@.subrange(i + 2, n as int) =~= rest.skip(1));
            } else {
                assert(l@.subrange(i + 1, n as int) =~= rest);
                if rest.len() > 0 {
                    assert(rest[0] == l@[i + 1]);
                }
            }
        }
        Some((name, value))
    }
}

/// The lines of `s`, split at newline characters only: a carriage return
/// stays part of its line. `cur` is the partial line read so far. A
/// trailing newline does not add an empty final line.
pub open spec fn lines_rec(s: Seq<char>, cur: Seq<char>) -> Seq<Seq<char>>
    decreases s.len(),
{
    if s.len() == 0 {
        if cur.len() == 0 {
            Seq::empty()
        } else {
            seq![cur]
        }
    } else if s[0] == '\n' {
        seq![cur] + lines_rec(s.skip(1), Seq::empty())
    } else {
        lines_rec(s.skip(1), cur.push(s[0]))
    }
}

/// The lines of `s`, split at newline characters.
pub open spec fn lines_spec(s: Seq<char>) -> Seq<Seq<char>> {
    lines_rec(s, Seq::empty())
}

/// Split `s` into its lines.
pub fn split_lines(s: &str) -> (r: Vec<String>)
    ensures
        r.deep_view() == lines_spec(s@),
{
    let n = s.unicode_len();
    let mut acc: Vec<String> = Vec::new();
    let mut start: usize = 0;
    let mut i: usize = 0;
    proof {
        assert(s@.skip(0) =~= s@);
        assert(s@.subrange(0, 0) =~= Seq::<char>::empty());
        assert(acc.deep_view() + lines_rec(s@, Seq::empty()) =~= lines_spec(s@));
    }
    while i < n
        invariant
            0 <= start <= i <= n,
            n == s@.len(),
            lines_spec(s@) == acc.deep_view() + lines_rec(
                s@.skip(i as int),
                s@.subrange(start as int, i as int),
            ),
        decreases n - i,
    {
        let ghost pre = acc.deep_view();
        let ghost cur = s@.subrange(start as int, i as int);
        let ghost tail = s@.skip(i as int);
        let c = s.get_char(i);
        proof {
            assert(tail[0] == s@[i as int]);
            assert(tail.skip(1) =~= s@.skip(i + 1));
        }
        if c == '\n' {
            let line = String::from_str(s.substring_char(start, i));
            acc.push(line);
            proof {
                assert(lines_rec(tail, cur) == seq![cur] + lines_rec(s@.skip(i + 1), Seq::empty()));
                assert(acc.deep_view() =~= pre + seq![cur]);
                assert(s@.subrange(i + 1, i + 1) =~= Seq::<char>::empty());
                assert(acc.deep_view() + lines_rec(s@.skip(i + 1), s@.subrange(i + 1, i + 1))
                    =~= pre + lines_rec(tail, cur));
            }
            start = i + 1;
        } else {
            proof {
                assert(cur.push(s@[i as int]) =~= s@.subrange(start as int, i + 1));
                assert(lines_rec(tail, cur) == lines_rec(s@.skip(i + 1), s@.subrange(start as int, i + 1)));
            }
        }
        i = i + 1;
    }
    proof {
        assert(s@.skip(n as int).len() == 0);
    }
    if start < n {
        let line = String::from_str(s.substring_char(start, n));
        acc.push(line);
        proof {
            let ghost cur = s@.subrange(start as int, n as int);
            assert(lines_rec(s@.skip(n as int), cur) == seq![cur]);
            assert(acc.deep_view() =~= acc.deep_view().drop_last() + seq![cur]);
            assert(acc.deep_view() =~= lines_spec(s@));
        }
    } else {
        proof {
            let ghost cur = s@.subrange(start as int, n as int);
            assert(cur.len() == 0);
            assert(lines_rec(s@.skip(n as int), cur) =~= Seq::<Seq<char>>::empty());
            assert(acc.deep_view() =~= lines_spec(s@));
        }
    }
    acc
}

/// A decimal digit.
pub open spec fn is_digit(c: char) -> bool {
    48 <= c as int && c as int <= 57
}

/// The numeric value of a decimal digit.
pub open spec fn digit_val(c: char) -> nat {
    (c as int - 48) as nat
}

/// Every character of `s` is a decimal digit.
pub open spec fn all_digits(s: Seq<char>) -> bool {
    forall|k: int| 0 <= k < s.len() ==> is_digit(s[k])
}

/// The number that the digit sequence `s` denotes, most significant first.
pub open spec fn digits_val(s: Seq<char>) -> nat
    decreases s.len(),
{
    if s.len() == 0 {
        0
    } else {
        digits_val(s.drop_last()) * 10 + digit_val(s.last())
    }
}

/// The number that `s` denotes, when `s` is one or more decimal digits
/// denoting a value that fits in a `u64`; `None` otherwise.
pub open spec fn parse_u64_spec(s: Seq<char>) -> Option<u64> {
    if s.len() > 0 && all_digits(s) && digits_val(s) <= u64::MAX {
        Some(digits_val(s) as u64)
    } else {
        None
    }
}

proof fn lemma_digits_val_prefix_le(s: Seq<char>, j: int, k: int)
    requires
        0 <= j <= k <= s.len(),
    ensures
        digits_val(s.take(j)) <= digits_val(s.take(k)),
    decreases k - j,
{
    if j < k {
        lemma_digits_val_prefix_le(s, j, k - 1);
        assert(s.take(k).drop_last() =~= s.take(k - 1));
        assert(digits_val(s.take(k)) == digits_val(s.take(k - 1)) * 10 + digit_val(s.take(k).last()));
    }
}

/// Parse `s` as an unsigned decimal number.
pub fn parse_u64(s: &str) -> (r: Option<u64>)
    ensures
        r == parse_u64_spec(s@),
{
    let n = s.unicode_len();
    if n == 0 {
        return None;
    }
    let mut acc: u64 = 0;
    let mut i: usize = 0;
    proof {
        assert(s@.take(0) =~= Seq::<char>::empty());
    }
    while i < n
        invariant
            0 <= i <= n,
            n == s@.len(),
            all_digits(s@.take(i as int)),
            acc == digits_val(s@.take(i as int)),
        decreases n - i,
    {
        let c = s.get_char(i);
        let u = c as u32;
        proof {
            assert(s@.take(i + 1).drop_last() =~= s@.take(i as int));
            assert(s@.take(i + 1).last() == s@[i as int]);
        }
        if u < 48 || u > 57 {
            proof {
                assert(!is_digit(s@[i as int]));
                assert(!all_digits(s@));
            }
            return None;
        }
        let d = (u - 48) as u64;
        let step = match acc.checked_mul(10) {
            Some(t) => t.checked_add(d),
            None => None,
        };
        match step {
            Some(next) => {
                acc = next;
            },
            None => {
                proof {
                    assert(digits_val(s@.take(i + 1)) > u64::MAX);
                    lemma_digits_val_prefix_le(s@, i + 1, n as int);
                    assert(s@.take(n as int) =~= s@);
                    assert(digits_val(s@) > u64::MAX);
                }
                return None;
            },
        }
        i = i + 1;
    }
    proof {
        assert(s@.take(n as int) =~= s@);
    }
    Some(acc)
}

/// The decimal digit character for `d`.
pub open spec fn digit_char(d: int) -> char {
    if d == 0 {
        '0'
    } else if d == 1 {
        '1'
    } else if d == 2 {
        '2'
    } else if d == 3 {
        '3'
    } else if d == 4 {
        '4'
    } else if d == 5 {
        '5'
    } else if d == 6 {
        '6'
    } else if d == 7 {
        '7'
    } else if d == 8 {
        '8'
    } else {
        '9'
    }
}

/// The decimal rendering of `n`, most significant digit first.
pub open spec fn dec_spec(n: nat) -> Seq<char>
    decreases n,
{
    if n < 10 {
        seq![digit_char(n as int)]
    } else {
        dec_spec(n / 10).push(digit_char((n % 10) as int))
    }
}

fn digit_str(d: u64) -> (r: &'static str)
    requires
        d < 10,
    ensures
        r@ =~= seq![digit_char(d as int)],
{
    proof {
        reveal_strlit("0");
        reveal_strlit("1");
        reveal_strlit("2");
        reveal_strlit("3");
        reveal_strlit("4");
        reveal_strlit("5");
        reveal_strlit("6");
        reveal_strlit("7");
        reveal_strlit("8");
        reveal_strlit("9");
    }
    if d == 0 {
        "0"
    } else if d == 1 {
        "1"
    } else if d == 2 {
        "2"
    } else if d == 3 {
        "3"
    } else if d == 4 {
        "4"
    } else if d == 5 {
        "5"
    } else if d == 6 {
        "6"
    } else if d == 7 {
        "7"
    } else if d == 8 {
        "8"
    } else {
        "9"
    }
}

/// Render `n` in decimal.
pub fn to_decimal(n: u64) -> (r: String)
    ensures
        r@ == dec_spec(n as nat),
    decreases n,
{
    if n < 10 {
        String::from_str(digit_str(n))
    } else {
        let mut s = to_decimal(n / 10);
        s.append(digit_str(n % 10));
        proof {
            assert(s@ =~= dec_spec((n / 10) as nat).push(digit_char((n % 10) as int)));
        }
        s
    }
}

} // verus!
