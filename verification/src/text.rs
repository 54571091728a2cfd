//! Decimal numbers written into text and read back out of it.
//!
//! The replayable command channel carries window sizes as text, so the number formatting and
//! the number reading on either side of it have to agree exactly. This module states both
//! sides as functions on character sequences and implements them once.

use vstd::prelude::*;

verus! {

// ---------------------------------------------------------------------------------------
// characters
// ---------------------------------------------------------------------------------------

/// A Unicode `White_Space` character: what `char::is_whitespace` accepts, and so what
/// `str::trim` and `str::split_whitespace` treat as a gap.
pub open spec fn is_white(c: char) -> bool {
    let u = c as u32;
    ||| 0x09 <= u <= 0x0D
    ||| u == 0x20
    ||| u == 0x85
    ||| u == 0xA0
    ||| u == 0x1680
    ||| 0x2000 <= u <= 0x200A
    ||| u == 0x2028
    ||| u == 0x2029
    ||| u == 0x202F
    ||| u == 0x205F
    ||| u == 0x3000
}

/// An ASCII decimal digit.
pub open spec fn is_digit(c: char) -> bool {
    48 <= (c as u32) <= 57
}

/// The value of an ASCII decimal digit.
pub open spec fn digit_value(c: char) -> int {
    (c as u32) - 48
}

/// The character that writes a digit `0..10`.
pub open spec fn digit_char(d: int) -> char {
    seq!['0', '1', '2', '3', '4', '5', '6', '7', '8', '9'][d]
}

/// Every character of `s` is a digit.
pub open spec fn all_digits(s: Seq<char>) -> bool {
    forall|i: int| 0 <= i < s.len() ==> is_digit(#[trigger] s[i])
}

/// The number a run of digits spells, most significant first.
pub open spec fn digits_value(s: Seq<char>) -> int
    decreases s.len(),
{
    if s.len() == 0 {
        0
    } else {
        digits_value(s.drop_last()) * 10 + digit_value(s.last())
    }
}

// ---------------------------------------------------------------------------------------
// writing
// ---------------------------------------------------------------------------------------

/// How `n` is written in decimal: no sign, no leading zeros, a single `0` for zero.
pub open spec fn decimal(n: nat) -> Seq<char>
    decreases n,
{
    if n < 10 {
        seq![digit_char(n as int)]
    } else {
        decimal(n / 10).push(digit_char((n % 10) as int))
    }
}

/// How a signed integer is written in decimal: a minus sign before a negative one.
pub open spec fn signed_decimal(i: int) -> Seq<char> {
    if i < 0 {
        seq!['-'] + decimal((-i) as nat)
    } else {
        decimal(i as nat)
    }
}

// ---------------------------------------------------------------------------------------
// reading
// ---------------------------------------------------------------------------------------

/// What `str::parse` makes of a decimal integer before the range of the type is checked: an
/// optional `+` or `-`, then one or more ASCII digits, and nothing else.
pub open spec fn integer_value(t: Seq<char>) -> Option<int> {
    if t.len() == 0 {
        None
    } else if t[0] == '+' || t[0] == '-' {
        let d = t.drop_first();
        if d.len() == 0 || !all_digits(d) {
            None
        } else if t[0] == '-' {
            Some(-digits_value(d))
        } else {
            Some(digits_value(d))
        }
    } else if all_digits(t) {
        Some(digits_value(t))
    } else {
        None
    }
}

/// What `t.parse::<i32>()` gives: the integer, when it is one and fits.
pub open spec fn parse_i32(t: Seq<char>) -> Option<i32> {
    match integer_value(t) {
        Some(v) => if i32::MIN <= v <= i32::MAX {
            Some(v as i32)
        } else {
            None
        },
        None => None,
    }
}

/// What `t.parse::<u32>()` gives. An unsigned integer takes a `+` but never a `-`, not even
/// in front of a zero.
pub open spec fn parse_u32(t: Seq<char>) -> Option<u32> {
    if t.len() > 0 && t[0] == '-' {
        None
    } else {
        match integer_value(t) {
            Some(v) => if 0 <= v <= u32::MAX {
                Some(v as u32)
            } else {
                None
            },
            None => None,
        }
    }
}

/// The first index at or after `i` holding something other than whitespace, or the length.
pub open spec fn skip_white(s: Seq<char>, i: int) -> int
    decreases s.len() - i,
{
    if i < 0 || i >= s.len() {
        if i < 0 { 0 } else { s.len() as int }
    } else if is_white(s[i]) {
        skip_white(s, i + 1)
    } else {
        i
    }
}

/// The end of `s` once trailing whitespace down to `low` is cut off.
pub open spec fn trim_end_at(s: Seq<char>, j: int, low: int) -> int
    decreases j - low,
{
    if j <= low {
        low
    } else if is_white(s[j - 1]) {
        trim_end_at(s, j - 1, low)
    } else {
        j
    }
}

/// `str::trim`: whitespace taken off both ends.
pub open spec fn trim(s: Seq<char>) -> Seq<char> {
    let start = skip_white(s, 0);
    s.subrange(start, trim_end_at(s, s.len() as int, start))
}

/// The first index at or after `i` holding `c`, or `-1` when there is none.
pub open spec fn find_from(s: Seq<char>, c: char, i: int) -> int
    decreases s.len() - i,
{
    if i < 0 || i >= s.len() {
        -1
    } else if s[i] == c {
        i
    } else {
        find_from(s, c, i + 1)
    }
}

/// The first index at or after `i` holding whitespace, or the length.
pub open spec fn token_end(s: Seq<char>, i: int) -> int
    decreases s.len() - i,
{
    if i < 0 || i >= s.len() {
        if i < 0 { 0 } else { s.len() as int }
    } else if is_white(s[i]) {
        i
    } else {
        token_end(s, i + 1)
    }
}

// ---------------------------------------------------------------------------------------
// lemmas
// ---------------------------------------------------------------------------------------

/// A decimal is a non-empty run of digits spelling the number it was written for.
pub proof fn lemma_decimal_digits(n: nat)
    ensures
        decimal(n).len() >= 1,
        all_digits(decimal(n)),
        digits_value(decimal(n)) == n,
    decreases n,
{
    lemma_digit_char((n % 10) as int);
    let s = decimal(n);
    if n < 10 {
        assert(s.drop_last() =~= Seq::<char>::empty());
        assert(digits_value(s) == digits_value(s.drop_last()) * 10 + digit_value(s.last()));
    } else {
        lemma_decimal_digits(n / 10);
        assert(s.drop_last() =~= decimal(n / 10));
        assert(s.last() == digit_char((n % 10) as int));
        assert(digits_value(s) == digits_value(s.drop_last()) * 10 + digit_value(s.last()));
        assert forall|i: int| 0 <= i < s.len() implies is_digit(#[trigger] s[i]) by {
            if i < s.len() - 1 {
                assert(s[i] == decimal(n / 10)[i]);
            }
        }
    }
}

/// The character for a digit is a digit, and has that value.
pub proof fn lemma_digit_char(d: int)
    requires
        0 <= d < 10,
    ensures
        is_digit(digit_char(d)),
        digit_value(digit_char(d)) == d,
{
    let digits = seq!['0', '1', '2', '3', '4', '5', '6', '7', '8', '9'];
    assert(digits[0] == '0' && digits[1] == '1' && digits[2] == '2' && digits[3] == '3'
        && digits[4] == '4' && digits[5] == '5' && digits[6] == '6' && digits[7] == '7'
        && digits[8] == '8' && digits[9] == '9');
}

/// A digit is neither whitespace nor a sign.
pub proof fn lemma_digit_is_plain(c: char)
    requires
        is_digit(c),
    ensures
        !is_white(c),
        c != '+',
        c != '-',
        c != ' ',
{
}

/// A written signed number has no whitespace anywhere in it and starts with a digit or a minus.
pub proof fn lemma_signed_decimal_plain(i: int)
    ensures
        signed_decimal(i).len() >= 1,
        forall|k: int| 0 <= k < signed_decimal(i).len() ==> !is_white(#[trigger] signed_decimal(i)[k]),
        signed_decimal(i)[0] != '+',
        i < 0 <==> signed_decimal(i)[0] == '-',
{
    let s = signed_decimal(i);
    if i < 0 {
        let d = decimal((-i) as nat);
        lemma_decimal_digits((-i) as nat);
        assert forall|k: int| 0 <= k < s.len() implies !is_white(#[trigger] s[k]) by {
            if k > 0 {
                assert(s[k] == d[k - 1]);
                lemma_digit_is_plain(d[k - 1]);
            }
        }
    } else {
        lemma_decimal_digits(i as nat);
        assert forall|k: int| 0 <= k < s.len() implies !is_white(#[trigger] s[k]) by {
            lemma_digit_is_plain(s[k]);
        }
        lemma_digit_is_plain(s[0]);
    }
}

/// A written signed number reads back as itself.
pub proof fn lemma_signed_decimal_reads_back(i: int)
    ensures
        integer_value(signed_decimal(i)) == Some(i),
{
    let s = signed_decimal(i);
    if i < 0 {
        let d = decimal((-i) as nat);
        lemma_decimal_digits((-i) as nat);
        assert(s.drop_first() =~= d);
    } else {
        lemma_decimal_digits(i as nat);
        lemma_digit_is_plain(s[0]);
    }
}

/// Nothing to trim from a sequence that starts and ends on something other than whitespace.
pub proof fn lemma_trim_plain(s: Seq<char>)
    requires
        s.len() >= 1,
        !is_white(s[0]),
        !is_white(s[s.len() - 1]),
    ensures
        trim(s) == s,
{
    assert(skip_white(s, 0) == 0);
    assert(trim_end_at(s, s.len() as int, 0) == s.len());
    assert(trim(s) =~= s);
}

/// The first `c` at or after `i` is at `k` when there is none between them.
pub proof fn lemma_find_from(s: Seq<char>, c: char, i: int, k: int)
    requires
        0 <= i <= k < s.len(),
        s[k] == c,
        forall|j: int| i <= j < k ==> s[j] != c,
    ensures
        find_from(s, c, i) == k,
    decreases k - i,
{
    if i < k {
        lemma_find_from(s, c, i + 1, k);
    }
}

/// Whitespace is skipped up to `k` when everything from `i` up to it is whitespace.
pub proof fn lemma_skip_white(s: Seq<char>, i: int, k: int)
    requires
        0 <= i <= k <= s.len(),
        k < s.len() ==> !is_white(s[k]),
        forall|j: int| i <= j < k ==> is_white(#[trigger] s[j]),
    ensures
        skip_white(s, i) == k,
    decreases k - i,
{
    if i < k {
        lemma_skip_white(s, i + 1, k);
    }
}

/// A token runs up to `k` when nothing from `i` up to it is whitespace.
pub proof fn lemma_token_end(s: Seq<char>, i: int, k: int)
    requires
        0 <= i <= k <= s.len(),
        k < s.len() ==> is_white(s[k]),
        forall|j: int| i <= j < k ==> !is_white(#[trigger] s[j]),
    ensures
        token_end(s, i) == k,
    decreases k - i,
{
    if i < k {
        lemma_token_end(s, i + 1, k);
    }
}

// ---------------------------------------------------------------------------------------
// the executable side
// ---------------------------------------------------------------------------------------

/// Whether a character is whitespace.
pub fn white(c: char) -> (b: bool)
    ensures
        b == is_white(c),
{
    let u = c as u32;
    (0x09 <= u && u <= 0x0D) || u == 0x20 || u == 0x85 || u == 0xA0 || u == 0x1680 || (0x2000
        <= u && u <= 0x200A) || u == 0x2028 || u == 0x2029 || u == 0x202F || u == 0x205F || u
        == 0x3000
}

/// The characters of a string, one to a slot.
pub fn chars_of(s: &str) -> (v: Vec<char>)
    ensures
        v@ == s@,
{
    let n = s.unicode_len();
    let mut v: Vec<char> = Vec::new();
    let mut i: usize = 0;
    while i < n
        invariant
            n == s@.len(),
            i <= n,
            v@ == s@.subrange(0, i as int),
        decreases n - i,
    {
        v.push(s.get_char(i));
        i = i + 1;
        assert(v@ =~= s@.subrange(0, i as int));
    }
    assert(v@ =~= s@);
    v
}

/// `x`, or `CAP` when `x` is at least that.
pub open spec fn capped(x: int) -> int {
    if x < CAP { x } else { CAP as int }
}

/// `s[from..to]` read as an optionally signed decimal integer: whether it was written with a
/// minus, and its magnitude capped at [`CAP`]. `None` unless it is one.
///
/// The cap keeps the arithmetic in range whatever the length of the run: a magnitude of at
/// least `CAP` comes back as exactly `CAP`, which is as good as its real value for any range
/// check below it.
fn read_integer(s: &Vec<char>, from: usize, to: usize) -> (r: Option<(bool, u64)>)
    requires
        from <= to <= s@.len(),
    ensures
        ({
            let t = s@.subrange(from as int, to as int);
            match integer_value(t) {
                None => r is None,
                Some(v) => r matches Some((minus, magnitude)) && (minus <==> t[0] == '-') && (
                minus ==> v <= 0) && (!minus ==> v >= 0) && magnitude as int == capped(
                    if v < 0 { -v } else { v },
                ),
            }
        }),
{
    let ghost t = s@.subrange(from as int, to as int);
    if from == to {
        return None;
    }
    let first = s[from];
    let signed = first == '+' || first == '-';
    let minus = first == '-';
    let start = if signed {
        from + 1
    } else {
        from
    };
    if start == to {
        return None;
    }
    let ghost d = s@.subrange(start as int, to as int);
    assert(t[0] == first);
    assert(signed ==> d =~= t.drop_first());
    assert(!signed ==> d =~= t);
    let mut value: u64 = 0;
    let mut i: usize = start;
    assert(s@.subrange(start as int, start as int) =~= Seq::<char>::empty());
    while i < to
        invariant
            from <= start < to <= s@.len(),
            start <= i <= to,
            d == s@.subrange(start as int, to as int),
            t == s@.subrange(from as int, to as int),
            t.len() > 0 && t[0] == first,
            signed == (first == '+' || first == '-'),
            signed ==> d == t.drop_first(),
            !signed ==> d == t,
            all_digits(s@.subrange(start as int, i as int)),
            value as int == capped(digits_value(s@.subrange(start as int, i as int))),
        decreases to - i,
    {
        let c = s[i];
        let u = c as u32;
        if !(48 <= u && u <= 57) {
            assert(!is_digit(c));
            assert(d[i - start] == c);
            assert(!all_digits(d));
            assert(integer_value(t) is None);
            return None;
        }
        let ghost before = s@.subrange(start as int, i as int);
        let ghost after = s@.subrange(start as int, i + 1);
        assert(after.drop_last() =~= before);
        assert(after.last() == c);
        assert(all_digits(after)) by {
            assert forall|k: int| 0 <= k < after.len() implies is_digit(#[trigger] after[k]) by {
                if k < before.len() {
                    assert(after[k] == before[k]);
                }
            }
        }
        proof {
            lemma_digits_nonneg(before);
        }
        let digit = (u - 48) as u64;
        let next = value * 10 + digit;
        value = if next < CAP {
            next
        } else {
            CAP
        };
        i = i + 1;
    }
    proof {
        lemma_digits_nonneg(d);
    }
    Some((minus, value))
}

/// The cap on a magnitude while it is read: past the range of every type read here.
pub const CAP: u64 = 0x1_0000_0000;

/// A run of digits never spells a negative number.
pub proof fn lemma_digits_nonneg(s: Seq<char>)
    requires
        all_digits(s),
    ensures
        digits_value(s) >= 0,
    decreases s.len(),
{
    if s.len() > 0 {
        assert(all_digits(s.drop_last())) by {
            assert forall|k: int| 0 <= k < s.drop_last().len() implies is_digit(
                #[trigger] s.drop_last()[k],
            ) by {
                assert(s.drop_last()[k] == s[k]);
            }
        }
        lemma_digits_nonneg(s.drop_last());
        assert(is_digit(s[s.len() - 1]));
    }
}

/// `s[from..to].parse::<i32>()`.
pub fn read_i32(s: &Vec<char>, from: usize, to: usize) -> (r: Option<i32>)
    requires
        from <= to <= s@.len(),
    ensures
        r == parse_i32(s@.subrange(from as int, to as int)),
{
    match read_integer(s, from, to) {
        None => None,
        Some((negative, magnitude)) => {
            if negative {
                if magnitude <= 0x8000_0000 {
                    Some((0 - (magnitude as i64)) as i32)
                } else {
                    None
                }
            } else {
                if magnitude <= 0x7fff_ffff {
                    Some(magnitude as i32)
                } else {
                    None
                }
            }
        },
    }
}

/// `s[from..to].parse::<u32>()`.
pub fn read_u32(s: &Vec<char>, from: usize, to: usize) -> (r: Option<u32>)
    requires
        from <= to <= s@.len(),
    ensures
        r == parse_u32(s@.subrange(from as int, to as int)),
{
    let ghost t = s@.subrange(from as int, to as int);
    if from < to && s[from] == '-' {
        assert(t[0] == s@[from as int]);
        return None;
    }
    match read_integer(s, from, to) {
        None => None,
        Some((negative, magnitude)) => {
            if !negative && magnitude <= 0xffff_ffff {
                Some(magnitude as u32)
            } else {
                None
            }
        },
    }
}

/// Where `s[from..to]` starts and ends once whitespace is trimmed off both ends.
pub fn trimmed(s: &Vec<char>, from: usize, to: usize) -> (r: (usize, usize))
    requires
        from <= to <= s@.len(),
    ensures
        from <= r.0 <= r.1 <= to,
        s@.subrange(r.0 as int, r.1 as int) == trim(s@.subrange(from as int, to as int)),
{
    let ghost t = s@.subrange(from as int, to as int);
    let mut a = from;
    while a < to && white(s[a])
        invariant
            from <= a <= to <= s@.len(),
            t == s@.subrange(from as int, to as int),
            forall|j: int| from <= j < a ==> is_white(#[trigger] s@[j]),
        decreases to - a,
    {
        a = a + 1;
    }
    proof {
        lemma_skip_white(t, 0, a - from);
    }
    let mut b = to;
    while b > a && white(s[b - 1])
        invariant
            from <= a <= b <= to <= s@.len(),
            t == s@.subrange(from as int, to as int),
            forall|j: int| b <= j < to ==> is_white(#[trigger] s@[j]),
        decreases b - a,
    {
        b = b - 1;
    }
    proof {
        lemma_trim_end(t, a - from, b - from);
    }
    assert(s@.subrange(a as int, b as int) =~= t.subrange(a - from, b - from));
    (a, b)
}

/// Trailing whitespace down to `low` ends at `k` when everything from `k` on is whitespace and
/// the character before it is not.
pub proof fn lemma_trim_end(s: Seq<char>, low: int, k: int)
    requires
        0 <= low <= k <= s.len(),
        k > low ==> !is_white(s[k - 1]),
        forall|j: int| k <= j < s.len() ==> is_white(#[trigger] s[j]),
    ensures
        trim_end_at(s, s.len() as int, low) == k,
    decreases s.len() - k,
{
    lemma_trim_end_from(s, s.len() as int, low, k);
}

proof fn lemma_trim_end_from(s: Seq<char>, j: int, low: int, k: int)
    requires
        0 <= low <= k <= j <= s.len(),
        k > low ==> !is_white(s[k - 1]),
        forall|m: int| k <= m < j ==> is_white(#[trigger] s[m]),
    ensures
        trim_end_at(s, j, low) == k,
    decreases j - k,
{
    if j > k {
        lemma_trim_end_from(s, j - 1, low, k);
    }
}

/// Append the decimal digits of `n` to `out`.
pub fn write_decimal(out: &mut String, n: u64)
    ensures
        final(out)@ == old(out)@ + decimal(n as nat),
    decreases n,
{
    if n >= 10 {
        write_decimal(out, n / 10);
    }
    let d = n % 10;
    let piece = digit_str(d);
    out.append(piece);
    assert(decimal(n as nat) =~= if n < 10 {
        seq![digit_char(n as int)]
    } else {
        decimal((n / 10) as nat).push(digit_char((n % 10) as int))
    });
}

/// Append a signed integer in decimal to `out`.
pub fn write_signed(out: &mut String, n: i32)
    ensures
        final(out)@ == old(out)@ + signed_decimal(n as int),
{
    if n < 0 {
        proof {
            reveal_strlit("-");
        }
        out.append("-");
        let magnitude = (0 - (n as i64)) as u64;
        let ghost mid = out@;
        write_decimal(out, magnitude);
        assert(out@ =~= old(out)@ + signed_decimal(n as int));
    } else {
        write_decimal(out, n as u64);
    }
}

/// The one-character string for a digit.
fn digit_str(d: u64) -> (s: &'static str)
    requires
        d < 10,
    ensures
        s@ == seq![digit_char(d as int)],
{
    proof {
        reveal_strlit("0");
        reveal_strlit("1");
        reveal_strlit("2");
        reveal_strlit("3");
        reveal_strlit("4");
        reveal_strlit("5");
        reveal_strlit("6");
        reveal_strlit("7");
        reveal_strlit("8");
        reveal_strlit("9");
    }
    if d == 0 {
        "0"
    } else if d == 1 {
        "1"
    } else if d == 2 {
        "2"
    } else if d == 3 {
        "3"
    } else if d == 4 {
        "4"
    } else if d == 5 {
        "5"
    } else if d == 6 {
        "6"
    } else if d == 7 {
        "7"
    } else if d == 8 {
        "8"
    } else {
        "9"
    }
}

} // verus!
