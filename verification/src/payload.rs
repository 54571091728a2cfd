//! Window sizes on the replayable command channel.
//!
//! A piece is told how big its window is by a command carrying the size as text, never by
//! reading renderer state, so that a headless run reshapes the piece exactly as a windowed one
//! does and a replay reshapes it again. Two spellings are in use:
//!
//! - a **size**, `"width height"` in whole units, signed, split at the first space and trimmed
//!   on either side (the pond, the court and the fireworks field);
//! - a **window**, `"width height"` in whole pixels, unsigned, split on any run of whitespace
//!   (the thunderhead sky).
//!
//! Each is written so that it reads back exactly, and both readers refuse anything degenerate.

use vstd::prelude::*;
use crate::text::{
    chars_of, decimal, find_from, is_white, lemma_find_from, lemma_signed_decimal_plain,
    lemma_signed_decimal_reads_back, lemma_skip_white, lemma_token_end, lemma_trim_plain,
    parse_i32, parse_u32, read_i32, read_u32, signed_decimal, skip_white, token_end, trim,
    trimmed, white, write_decimal, write_signed,
};

verus! {

/// How a size is written: both numbers in decimal, a space between them.
pub open spec fn size_text(width: i32, height: i32) -> Seq<char> {
    signed_decimal(width as int) + seq![' '] + signed_decimal(height as int)
}

/// What a size reads as: the text is split at its first space, each side is trimmed and read
/// as an `i32`, and the pair is kept only when both are at least one.
pub open spec fn size_from_text(s: Seq<char>) -> Option<(i32, i32)> {
    let k = find_from(s, ' ', 0);
    if k < 0 {
        None
    } else {
        match (
            parse_i32(trim(s.subrange(0, k))),
            parse_i32(trim(s.subrange(k + 1, s.len() as int))),
        ) {
            (Some(width), Some(height)) => if width >= 1 && height >= 1 {
                Some((width, height))
            } else {
                None
            },
            _ => None,
        }
    }
}

/// How a window is written: both numbers in decimal, a space between them.
pub open spec fn window_text(width: u32, height: u32) -> Seq<char> {
    decimal(width as nat) + seq![' '] + decimal(height as nat)
}

/// What a window reads as: exactly two whitespace-separated words, each an unsigned number,
/// neither of them zero.
pub open spec fn window_from_text(s: Seq<char>) -> Option<(u32, u32)> {
    let a0 = skip_white(s, 0);
    let a1 = token_end(s, a0);
    let b0 = skip_white(s, a1);
    let b1 = token_end(s, b0);
    if a0 >= s.len() || b0 >= s.len() || skip_white(s, b1) < s.len() {
        None
    } else {
        match (parse_u32(s.subrange(a0, a1)), parse_u32(s.subrange(b0, b1))) {
            (Some(width), Some(height)) => if width > 0 && height > 0 {
                Some((width, height))
            } else {
                None
            },
            _ => None,
        }
    }
}

/// Write a size for the command channel.
pub fn size_payload(width: i32, height: i32) -> (text: String)
    ensures
        text@ == size_text(width, height),
{
    let mut out = String::new();
    write_signed(&mut out, width);
    proof {
        reveal_strlit(" ");
    }
    out.append(" ");
    write_signed(&mut out, height);
    assert(out@ =~= size_text(width, height));
    out
}

/// Read a size off the command channel. `None` for anything malformed or degenerate.
pub fn parse_size(payload: &str) -> (size: Option<(i32, i32)>)
    ensures
        size == size_from_text(payload@),
{
    let v = chars_of(payload);
    let n = v.len();
    let mut k: usize = 0;
    while k < n && v[k] != ' '
        invariant
            n == v@.len(),
            k <= n,
            forall|j: int| 0 <= j < k ==> v@[j] != ' ',
        decreases n - k,
    {
        k = k + 1;
    }
    if k == n {
        proof {
            lemma_find_none(v@, ' ', 0);
        }
        return None;
    }
    proof {
        lemma_find_from(v@, ' ', 0, k as int);
    }
    let (a, b) = trimmed(&v, 0, k);
    let (c, d) = trimmed(&v, k + 1, n);
    let width = read_i32(&v, a, b);
    let height = read_i32(&v, c, d);
    match (width, height) {
        (Some(w), Some(h)) => {
            if w >= 1 && h >= 1 {
                Some((w, h))
            } else {
                None
            }
        },
        _ => None,
    }
}

/// No `c` at or after `i` means there is nothing to find.
pub proof fn lemma_find_none(s: Seq<char>, c: char, i: int)
    requires
        0 <= i <= s.len(),
        forall|j: int| i <= j < s.len() ==> s[j] != c,
    ensures
        find_from(s, c, i) == -1,
    decreases s.len() - i,
{
    if i < s.len() {
        lemma_find_none(s, c, i + 1);
    }
}

/// Write a window size for the command channel.
pub fn window_payload(width: u32, height: u32) -> (text: String)
    ensures
        text@ == window_text(width, height),
{
    let mut out = String::new();
    write_decimal(&mut out, width as u64);
    proof {
        reveal_strlit(" ");
    }
    out.append(" ");
    write_decimal(&mut out, height as u64);
    assert(out@ =~= window_text(width, height));
    out
}

/// The first index at or after `i` holding something other than whitespace.
fn skip(v: &Vec<char>, i: usize) -> (k: usize)
    requires
        i <= v@.len(),
    ensures
        i <= k <= v@.len(),
        k as int == skip_white(v@, i as int),
{
    let mut k = i;
    while k < v.len() && white(v[k])
        invariant
            i <= k <= v@.len(),
            forall|j: int| i <= j < k ==> is_white(#[trigger] v@[j]),
        decreases v@.len() - k,
    {
        k = k + 1;
    }
    proof {
        lemma_skip_white(v@, i as int, k as int);
    }
    k
}

/// The first index at or after `i` holding whitespace.
fn word_end(v: &Vec<char>, i: usize) -> (k: usize)
    requires
        i <= v@.len(),
    ensures
        i <= k <= v@.len(),
        k as int == token_end(v@, i as int),
{
    let mut k = i;
    while k < v.len() && !white(v[k])
        invariant
            i <= k <= v@.len(),
            forall|j: int| i <= j < k ==> !is_white(#[trigger] v@[j]),
        decreases v@.len() - k,
    {
        k = k + 1;
    }
    proof {
        lemma_token_end(v@, i as int, k as int);
    }
    k
}

/// Read a window size off the command channel. `None` for anything malformed or degenerate.
pub fn parse_window_size(payload: &str) -> (size: Option<(u32, u32)>)
    ensures
        size == window_from_text(payload@),
{
    let v = chars_of(payload);
    let n = v.len();
    let a0 = skip(&v, 0);
    let a1 = word_end(&v, a0);
    let b0 = skip(&v, a1);
    let b1 = word_end(&v, b0);
    let c0 = skip(&v, b1);
    if a0 >= n || b0 >= n || c0 < n {
        return None;
    }
    match (read_u32(&v, a0, a1), read_u32(&v, b0, b1)) {
        (Some(w), Some(h)) => {
            if w > 0 && h > 0 {
                Some((w, h))
            } else {
                None
            }
        },
        _ => None,
    }
}

/// Only a real size is ever read back: both sides at least one, and nothing at all from text
/// without the space that separates the two numbers, or from empty text.
pub proof fn only_real_sizes_are_read(s: Seq<char>)
    ensures
        size_from_text(s) matches Some((w, h)) ==> w >= 1 && h >= 1,
        !s.contains(' ') ==> size_from_text(s) is None,
        window_from_text(s) matches Some((w, h)) ==> w >= 1 && h >= 1,
        s.len() == 0 ==> window_from_text(s) is None,
{
    if !s.contains(' ') {
        assert forall|j: int| 0 <= j < s.len() implies s[j] != ' ' by {
            if s[j] == ' ' {
                assert(s.contains(' '));
            }
        }
        lemma_find_none(s, ' ', 0);
    }
}

/// A size reads back as what was written, and is refused exactly when either side is below one.
pub proof fn size_round_trip(width: i32, height: i32)
    ensures
        size_from_text(size_text(width, height)) == if width >= 1 && height >= 1 {
            Some((width, height))
        } else {
            None
        },
{
    let a = signed_decimal(width as int);
    let b = signed_decimal(height as int);
    let s = size_text(width, height);
    lemma_signed_decimal_plain(width as int);
    lemma_signed_decimal_plain(height as int);
    lemma_signed_decimal_reads_back(width as int);
    lemma_signed_decimal_reads_back(height as int);
    assert forall|j: int| 0 <= j < a.len() implies s[j] != ' ' by {
        assert(s[j] == a[j]);
        assert(!is_white(a[j]));
    }
    assert(s[a.len() as int] == ' ');
    lemma_find_from(s, ' ', 0, a.len() as int);
    assert(s.subrange(0, a.len() as int) =~= a);
    assert(s.subrange(a.len() as int + 1, s.len() as int) =~= b);
    lemma_trim_plain(a);
    lemma_trim_plain(b);
}

/// A window reads back as what was written, and is refused exactly when either side is zero.
pub proof fn window_round_trip(width: u32, height: u32)
    ensures
        window_from_text(window_text(width, height)) == if width > 0 && height > 0 {
            Some((width, height))
        } else {
            None
        },
{
    let a = decimal(width as nat);
    let b = decimal(height as nat);
    let s = window_text(width, height);
    lemma_signed_decimal_plain(width as int);
    lemma_signed_decimal_plain(height as int);
    lemma_signed_decimal_reads_back(width as int);
    lemma_signed_decimal_reads_back(height as int);
    assert(signed_decimal(width as int) == a);
    assert(signed_decimal(height as int) == b);
    let k = a.len() as int;
    assert forall|j: int| 0 <= j < k implies !is_white(#[trigger] s[j]) by {
        assert(s[j] == a[j]);
    }
    assert forall|j: int| k + 1 <= j < s.len() implies !is_white(#[trigger] s[j]) by {
        assert(s[j] == b[j - k - 1]);
    }
    assert(s[k] == ' ');
    assert(s[k + 1] == b[0]);
    lemma_skip_white(s, 0, 0);
    lemma_token_end(s, 0, k);
    lemma_skip_white(s, k, k + 1);
    lemma_token_end(s, k + 1, s.len() as int);
    lemma_skip_white(s, s.len() as int, s.len() as int);
    assert(s.subrange(0, k) =~= a);
    assert(s.subrange(k + 1, s.len() as int) =~= b);
}

} // verus!
