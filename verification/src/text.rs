//! Text building blocks: decimal rendering, Unicode whitespace trimming and the quoted
//! (debug) rendering that refusal messages use to name a value.

use vstd::prelude::*;
use vstd::string::*;

verus! {

/// `char::is_whitespace`: the Unicode `White_Space` property.
pub open spec fn is_white(c: char) -> bool {
    ||| ('\u{9}' <= c && c <= '\u{d}')
    ||| c == ' '
    ||| c == '\u{85}'
    ||| c == '\u{a0}'
    ||| c == '\u{1680}'
    ||| ('\u{2000}' <= c && c <= '\u{200a}')
    ||| c == '\u{2028}'
    ||| c == '\u{2029}'
    ||| c == '\u{202f}'
    ||| c == '\u{205f}'
    ||| c == '\u{3000}'
}

/// The index of the first character that is not whitespace (the length when there is none).
pub open spec fn first_solid(s: Seq<char>) -> int
    decreases s.len(),
{
    if s.len() == 0 {
        0
    } else if is_white(s[0]) {
        1 + first_solid(s.drop_first())
    } else {
        0
    }
}

/// One past the index of the last character that is not whitespace (0 when there is none).
pub open spec fn end_solid(s: Seq<char>) -> int
    decreases s.len(),
{
    if s.len() == 0 {
        0
    } else if is_white(s.last()) {
        end_solid(s.drop_last())
    } else {
        s.len() as int
    }
}

/// `str::trim_end`.
pub open spec fn trim_end(s: Seq<char>) -> Seq<char> {
    s.subrange(0, end_solid(s))
}

/// `str::trim`: leading and trailing whitespace removed.
pub open spec fn trim(s: Seq<char>) -> Seq<char> {
    let t = s.subrange(first_solid(s), s.len() as int);
    trim_end(t)
}

pub proof fn lemma_first_solid(s: Seq<char>)
    ensures
        0 <= first_solid(s) <= s.len(),
        forall|i: int| 0 <= i < first_solid(s) ==> is_white(#[trigger] s[i]),
        first_solid(s) < s.len() ==> !is_white(s[first_solid(s)]),
    decreases s.len(),
{
    if s.len() > 0 && is_white(s[0]) {
        lemma_first_solid(s.drop_first());
        assert forall|i: int| 0 <= i < first_solid(s) implies is_white(#[trigger] s[i]) by {
            if i > 0 {
                assert(s[i] == s.drop_first()[i - 1]);
            }
        }
    }
}

pub proof fn lemma_end_solid(s: Seq<char>)
    ensures
        0 <= end_solid(s) <= s.len(),
        forall|i: int| end_solid(s) <= i < s.len() ==> is_white(#[trigger] s[i]),
        end_solid(s) > 0 ==> !is_white(s[end_solid(s) - 1]),
    decreases s.len(),
{
    if s.len() > 0 && is_white(s.last()) {
        lemma_end_solid(s.drop_last());
        assert forall|i: int| end_solid(s) <= i < s.len() implies is_white(#[trigger] s[i]) by {
            if i < s.len() - 1 {
                assert(s[i] == s.drop_last()[i]);
            }
        }
    }
}

/// Whitespace test of one character, `char::is_whitespace`.
pub fn char_is_white(c: char) -> (r: bool)
    ensures
        r == is_white(c),
{
    ('\u{9}' <= c && c <= '\u{d}') || c == ' ' || c == '\u{85}' || c == '\u{a0}' || c
        == '\u{1680}' || ('\u{2000}' <= c && c <= '\u{200a}') || c == '\u{2028}' || c
        == '\u{2029}' || c == '\u{202f}' || c == '\u{205f}' || c == '\u{3000}'
}

/// The characters of `s`, in order.
pub fn chars_of(s: &str) -> (r: Vec<char>)
    ensures
        r@ == s@,
{
    let n = s.unicode_len();
    let mut v: Vec<char> = Vec::new();
    let mut i: usize = 0;
    while i < n
        invariant
            n == s@.len(),
            i <= n,
            v@ == s@.subrange(0, i as int),
        decreases n - i,
    {
        let c = s.get_char(i);
        v.push(c);
        i = i + 1;
        assert(v@ =~= s@.subrange(0, i as int));
    }
    assert(v@ =~= s@);
    v
}

/// `str::trim`.
pub fn trimmed(s: &str) -> (r: &str)
    ensures
        r@ == trim(s@),
{
    let v = chars_of(s);
    let n = v.len();
    proof {
        lemma_first_solid(s@);
    }
    let mut a: usize = 0;
    while a < n && char_is_white(v[a])
        invariant
            n == v@.len(),
            v@ == s@,
            a <= n,
            a <= first_solid(s@),
            forall|i: int| 0 <= i < first_solid(s@) ==> is_white(#[trigger] s@[i]),
            first_solid(s@) < s@.len() ==> !is_white(s@[first_solid(s@)]),
        decreases n - a,
    {
        a = a + 1;
    }
    assert(a == first_solid(s@));
    let ghost t = s@.subrange(a as int, n as int);
    proof {
        lemma_end_solid(t);
    }
    let mut b: usize = n;
    while b > a && char_is_white(v[b - 1])
        invariant
            n == v@.len(),
            v@ == s@,
            a <= b <= n,
            t == s@.subrange(a as int, n as int),
            b - a >= end_solid(t),
            forall|i: int| end_solid(t) <= i < t.len() ==> is_white(#[trigger] t[i]),
            end_solid(t) > 0 ==> !is_white(t[end_solid(t) - 1]),
        decreases b,
    {
        assert(t[b - 1 - a] == v@[b - 1]);
        b = b - 1;
    }
    if b > a {
        assert(t[b - 1 - a] == v@[b - 1]);
    }
    assert(b - a == end_solid(t));
    let r = s.substring_char(a, b);
    assert(r@ =~= trim(s@));
    r
}

} // verus!

verus! {

/// The decimal digit character for `d` in `0..10`.
pub open spec fn digit_char(d: int) -> char {
    seq!['0', '1', '2', '3', '4', '5', '6', '7', '8', '9'][d]
}

/// The decimal rendering of a natural number, as `Display` writes it.
pub open spec fn decimal(n: nat) -> Seq<char>
    decreases n,
{
    if n < 10 {
        seq![digit_char(n as int)]
    } else {
        decimal(n / 10) + seq![digit_char((n % 10) as int)]
    }
}

/// The decimal rendering of an integer, with a leading `-` when it is negative.
pub open spec fn signed_decimal(n: int) -> Seq<char> {
    if n < 0 {
        seq!['-'] + decimal((-n) as nat)
    } else {
        decimal(n as nat)
    }
}

fn digit_str(d: u64) -> (r: &'static str)
    requires
        d < 10,
    ensures
        r@ == seq![digit_char(d as int)],
{
    proof {
        reveal_strlit("0");
        reveal_strlit("1");
        reveal_strlit("2");
        reveal_strlit("3");
        reveal_strlit("4");
        reveal_strlit("5");
        reveal_strlit("6");
        reveal_strlit("7");
        reveal_strlit("8");
        reveal_strlit("9");
    }
    if d == 0 {
        "0"
    } else if d == 1 {
        "1"
    } else if d == 2 {
        "2"
    } else if d == 3 {
        "3"
    } else if d == 4 {
        "4"
    } else if d == 5 {
        "5"
    } else if d == 6 {
        "6"
    } else if d == 7 {
        "7"
    } else if d == 8 {
        "8"
    } else {
        "9"
    }
}

/// Appends the decimal rendering of `n`.
pub fn push_decimal(out: &mut String, n: u64)
    ensures
        final(out)@ == old(out)@ + decimal(n as nat),
    decreases n,
{
    if n >= 10 {
        push_decimal(out, n / 10);
    }
    let d = digit_str(n % 10);
    out.append(d);
    proof {
        if n >= 10 {
            assert(final(out)@ =~= old(out)@ + decimal(n as nat));
        } else {
            assert(final(out)@ =~= old(out)@ + decimal(n as nat));
        }
    }
}

/// Appends the decimal rendering of a signed `n`.
pub fn push_signed_decimal(out: &mut String, n: i64)
    ensures
        final(out)@ == old(out)@ + signed_decimal(n as int),
{
    if n < 0 {
        proof {
            reveal_strlit("-");
        }
        out.append("-");
        let magnitude: u64 = ((-(n + 1)) as u64) + 1;
        push_decimal(out, magnitude);
        assert(final(out)@ =~= old(out)@ + signed_decimal(n as int));
    } else {
        push_decimal(out, n as u64);
    }
}

/// What `{:?}` (`<str as Debug>::fmt`) writes for a string: the string in double quotes, with
/// the string Debug escapes applied to its characters (a `'` is left as it is).
pub uninterp spec fn quoted(s: Seq<char>) -> Seq<char>;

/// Formats `s` with `{:?}` (`<str as Debug>::fmt`), the rendering refusals use to name a value.
/// Claimed: the result is `quoted` of exactly the text passed; the escaping rules themselves
/// are not stated.
#[verifier::external_body]
pub(crate) fn quote(s: &str) -> (r: String)
    ensures
        r@ == quoted(s@),
{
    format!("{:?}", s)
}

/// The index of the last `c` in `s`, or `-1`.
pub open spec fn last_index_of(s: Seq<char>, c: char) -> int
    decreases s.len(),
{
    if s.len() == 0 {
        -1
    } else if s.last() == c {
        s.len() - 1
    } else {
        last_index_of(s.drop_last(), c)
    }
}

pub proof fn lemma_last_index_of(s: Seq<char>, c: char)
    ensures
        -1 <= last_index_of(s, c) < s.len(),
        last_index_of(s, c) >= 0 ==> s[last_index_of(s, c)] == c,
        forall|i: int| last_index_of(s, c) < i < s.len() ==> #[trigger] s[i] != c,
    decreases s.len(),
{
    if s.len() > 0 && s.last() != c {
        lemma_last_index_of(s.drop_last(), c);
        assert forall|i: int| last_index_of(s, c) < i < s.len() implies #[trigger] s[i] != c by {
            if i < s.len() - 1 {
                assert(s[i] == s.drop_last()[i]);
            }
        }
    }
}

/// The last index below `end` holding `c`, if any.
pub fn last_index_below(v: &Vec<char>, end: usize, c: char) -> (r: Option<usize>)
    requires
        end <= v.len(),
    ensures
        last_index_of(v@.subrange(0, end as int), c) == match r {
            Some(i) => i as int,
            None => -1,
        },
        r matches Some(i) ==> i < end,
{
    let ghost s = v@.subrange(0, end as int);
    proof {
        lemma_last_index_of(s, c);
    }
    let mut i: usize = end;
    while i > 0
        invariant
            i <= end <= v.len(),
            s == v@.subrange(0, end as int),
            -1 <= last_index_of(s, c) < s.len(),
            last_index_of(s, c) >= 0 ==> s[last_index_of(s, c)] == c,
            forall|j: int| last_index_of(s, c) < j < s.len() ==> #[trigger] s[j] != c,
            last_index_of(s, c) < i,
        decreases i,
    {
        if v[i - 1] == c {
            assert(s[i - 1] == c);
            return Some(i - 1);
        }
        assert(s[i - 1] != c);
        i = i - 1;
    }
    None
}

/// The index of the first `c` in `s`, or `-1`.
pub open spec fn first_index_of(s: Seq<char>, c: char) -> int
    decreases s.len(),
{
    if s.len() == 0 {
        -1
    } else if s[0] == c {
        0
    } else if first_index_of(s.drop_first(), c) < 0 {
        -1
    } else {
        first_index_of(s.drop_first(), c) + 1
    }
}

pub proof fn lemma_first_index_of(s: Seq<char>, c: char)
    ensures
        -1 <= first_index_of(s, c) < s.len(),
        first_index_of(s, c) >= 0 ==> s[first_index_of(s, c)] == c,
        forall|i: int| 0 <= i < s.len() && (first_index_of(s, c) < 0 || i < first_index_of(s, c)) ==> #[trigger] s[i] != c,
    decreases s.len(),
{
    if s.len() > 0 && s[0] != c {
        lemma_first_index_of(s.drop_first(), c);
        assert forall|i: int| 0 <= i < s.len() && (first_index_of(s, c) < 0 || i < first_index_of(s, c)) implies #[trigger] s[i] != c by {
            if i > 0 {
                assert(s[i] == s.drop_first()[i - 1]);
            }
        }
    }
}

/// The first index in `start..end` holding `c`, if any.
pub fn first_index_in(v: &Vec<char>, start: usize, end: usize, c: char) -> (r: Option<usize>)
    requires
        start <= end <= v.len(),
    ensures
        first_index_of(v@.subrange(start as int, end as int), c) == match r {
            Some(i) => i - start,
            None => -1,
        },
        r matches Some(i) ==> start <= i < end,
{
    let ghost s = v@.subrange(start as int, end as int);
    proof {
        lemma_first_index_of(s, c);
    }
    let mut i: usize = start;
    while i < end
        invariant
            start <= i <= end <= v.len(),
            s == v@.subrange(start as int, end as int),
            -1 <= first_index_of(s, c) < s.len(),
            first_index_of(s, c) >= 0 ==> s[first_index_of(s, c)] == c,
            forall|k: int| 0 <= k < s.len() && (first_index_of(s, c) < 0 || k < first_index_of(s, c)) ==> #[trigger] s[k] != c,
            forall|k: int| 0 <= k < i - start ==> #[trigger] s[k] != c,
        decreases end - i,
    {
        if v[i] == c {
            assert(s[i - start] == c);
            return Some(i);
        }
        assert(s[i - start] != c);
        i = i + 1;
    }
    None
}

/// The first `c` in `a + [c] + b` is at `a.len()` when `a` holds no `c`.
pub proof fn lemma_first_index_after(a: Seq<char>, b: Seq<char>, c: char)
    requires
        forall|i: int| 0 <= i < a.len() ==> #[trigger] a[i] != c,
    ensures
        first_index_of(a + seq![c] + b, c) == a.len(),
{
    let s = a + seq![c] + b;
    lemma_first_index_of(s, c);
    assert(s[a.len() as int] == c);
    let f = first_index_of(s, c);
    if f >= 0 && f < a.len() {
        assert(s[f] == a[f]);
    }
}

/// The last `c` in `a + [c] + b` is at `a.len()` when `b` holds no `c`.
pub proof fn lemma_last_index_before(a: Seq<char>, b: Seq<char>, c: char)
    requires
        forall|i: int| 0 <= i < b.len() ==> #[trigger] b[i] != c,
    ensures
        last_index_of(a + seq![c] + b, c) == a.len(),
{
    let s = a + seq![c] + b;
    lemma_last_index_of(s, c);
    assert(s[a.len() as int] == c);
    let l = last_index_of(s, c);
    if l > a.len() {
        assert(s[l] == b[l - a.len() - 1]);
    }
}


/// `first_solid` is the index of the first character that is not whitespace.
pub proof fn lemma_first_solid_at(s: Seq<char>, k: int)
    requires
        0 <= k < s.len(),
        forall|i: int| 0 <= i < k ==> is_white(#[trigger] s[i]),
        !is_white(s[k]),
    ensures
        first_solid(s) == k,
{
    lemma_first_solid(s);
    let f = first_solid(s);
    if f < k {
        assert(is_white(s[f]));
    }
}

/// `end_solid` is one past the last character that is not whitespace.
pub proof fn lemma_end_solid_at(s: Seq<char>, k: int)
    requires
        0 < k <= s.len(),
        forall|i: int| k <= i < s.len() ==> is_white(#[trigger] s[i]),
        !is_white(s[k - 1]),
    ensures
        end_solid(s) == k,
{
    lemma_end_solid(s);
    let e = end_solid(s);
    if e > k {
        assert(is_white(s[e - 1]));
    }
}

} // verus!
