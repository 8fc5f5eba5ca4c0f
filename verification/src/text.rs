//! Byte-level text handling.
//!
//! Query result words carry identification strings as packed little-endian
//! bytes, and the OS fallback sources are small text files. This module
//! decodes such bytes into strings, trims noise (whitespace and control
//! bytes) from the ends, and renders unsigned numbers as text.

use vstd::prelude::*;

verus! {

/// Noise at the ends of a hardware identification string: ASCII control
/// bytes (NUL padding included), whitespace, and DEL.
pub open spec fn is_noise_byte(b: u8) -> bool {
    b <= 0x20 || b == 0x7F
}

/// How one byte of a hardware string decodes: ASCII bytes stand for
/// themselves, anything else becomes the Unicode replacement character.
pub open spec fn decode_byte(b: u8) -> char {
    if b < 0x80 {
        b as char
    } else {
        '\u{FFFD}'
    }
}

pub open spec fn decode_bytes(s: Seq<u8>) -> Seq<char> {
    s.map_values(|b: u8| decode_byte(b))
}

/// The noise predicate as a value, so that every mention is one term.
pub open spec fn noise_pred() -> spec_fn(u8) -> bool {
    |b: u8| is_noise_byte(b)
}

/// `s` with leading bytes removed while they satisfy `noise`.
pub open spec fn trim_start(s: Seq<u8>, noise: spec_fn(u8) -> bool) -> Seq<u8>
    decreases s.len(),
{
    if s.len() > 0 && noise(s[0]) {
        trim_start(s.drop_first(), noise)
    } else {
        s
    }
}

/// `s` with trailing bytes removed while they satisfy `noise`.
pub open spec fn trim_end(s: Seq<u8>, noise: spec_fn(u8) -> bool) -> Seq<u8>
    decreases s.len(),
{
    if s.len() > 0 && noise(s.last()) {
        trim_end(s.drop_last(), noise)
    } else {
        s
    }
}

pub open spec fn trim_bytes(s: Seq<u8>, noise: spec_fn(u8) -> bool) -> Seq<u8> {
    trim_end(trim_start(s, noise), noise)
}

/// The text that a packed byte string stands for: noise trimmed from both
/// ends, the rest decoded byte by byte.
pub open spec fn decoded_text(s: Seq<u8>) -> Seq<char> {
    decode_bytes(trim_bytes(s, noise_pred()))
}

/// The little-endian bytes of one 32-bit result word.
pub open spec fn word_bytes(w: u32) -> Seq<u8> {
    seq![
        (w & 0xFF) as u8,
        ((w >> 8) & 0xFF) as u8,
        ((w >> 16) & 0xFF) as u8,
        ((w >> 24) & 0xFF) as u8,
    ]
}

/// Relies on `String::push` of std: appends the given character to the end
/// of the string.
#[verifier::external_body]
pub(crate) fn push_char(s: &mut String, c: char)
    ensures
        final(s)@ == old(s)@.push(c),
{
    s.push(c);
}

fn is_noise_byte_exec(b: u8) -> (r: bool)
    ensures
        r == is_noise_byte(b),
{
    b <= 0x20 || b == 0x7F
}

fn decode_byte_exec(b: u8) -> (c: char)
    ensures
        c == decode_byte(b),
{
    if b < 0x80 {
        b as char
    } else {
        '\u{FFFD}'
    }
}

/// If everything before `i` is noise and `i` is not (or is the end),
/// trimming from the start leaves exactly the suffix from `i`.
pub proof fn lemma_trim_start_at(s: Seq<u8>, noise: spec_fn(u8) -> bool, i: int)
    requires
        0 <= i <= s.len(),
        forall|j: int| 0 <= j < i ==> noise(s[j]),
        i < s.len() ==> !noise(s[i]),
    ensures
        trim_start(s, noise) =~= s.subrange(i, s.len() as int),
    decreases i,
{
    if i == 0 {
        assert(trim_start(s, noise) =~= s.subrange(0, s.len() as int));
    } else {
        assert(noise(s[0]));
        lemma_trim_start_at(s.drop_first(), noise, i - 1);
        assert(s.drop_first().subrange(i - 1, s.drop_first().len() as int) =~= s.subrange(
            i,
            s.len() as int,
        ));
    }
}

/// If everything from `e` on is noise and `e - 1` is not (or `e` is zero),
/// trimming from the end leaves exactly the prefix up to `e`.
pub proof fn lemma_trim_end_at(s: Seq<u8>, noise: spec_fn(u8) -> bool, e: int)
    requires
        0 <= e <= s.len(),
        forall|j: int| e <= j < s.len() ==> noise(s[j]),
        e > 0 ==> !noise(s[e - 1]),
    ensures
        trim_end(s, noise) =~= s.subrange(0, e),
    decreases s.len(),
{
    if e == s.len() {
        assert(trim_end(s, noise) =~= s.subrange(0, e));
    } else {
        assert(noise(s.last()));
        lemma_trim_end_at(s.drop_last(), noise, e);
        assert(s.drop_last().subrange(0, e) =~= s.subrange(0, e));
    }
}

/// Decodes a packed byte string: noise trimmed from both ends, every
/// remaining byte decoded to one character.
pub fn decode_trimmed(bytes: &Vec<u8>) -> (r: String)
    ensures
        r@ == decoded_text(bytes@),
{
    let n: usize = bytes.len();
    let mut start: usize = 0;
    while start < n && is_noise_byte_exec(bytes[start])
        invariant
            0 <= start <= n,
            n == bytes@.len(),
            forall|j: int| 0 <= j < start ==> is_noise_byte(bytes@[j]),
        decreases n - start,
    {
        start = start + 1;
    }
    let mut end: usize = n;
    while end > start && is_noise_byte_exec(bytes[end - 1])
        invariant
            start <= end <= n,
            n == bytes@.len(),
            forall|j: int| 0 <= j < start ==> is_noise_byte(bytes@[j]),
            start < n ==> !is_noise_byte(bytes@[start as int]),
            forall|j: int| end <= j < n ==> is_noise_byte(bytes@[j]),
        decreases end,
    {
        end = end - 1;
    }
    proof {
        assert(forall|j: int| 0 <= j < start ==> noise_pred()(bytes@[j]));
        assert(start < n ==> !noise_pred()(bytes@[start as int]));
        lemma_trim_start_at(bytes@, noise_pred(), start as int);
        let t = bytes@.subrange(start as int, n as int);
        assert(forall|j: int| end - start <= j < t.len() ==> noise_pred()(t[j]));
        assert(end - start > 0 ==> !noise_pred()(t[end - start - 1]));
        lemma_trim_end_at(t, noise_pred(), end - start);
        assert(t.subrange(0, end - start) =~= bytes@.subrange(start as int, end as int));
    }
    let mut r = String::new();
    let mut k: usize = start;
    while k < end
        invariant
            start <= k <= end <= n,
            n == bytes@.len(),
            r@ =~= decode_bytes(bytes@.subrange(start as int, k as int)),
        decreases end - k,
    {
        let c = decode_byte_exec(bytes[k]);
        push_char(&mut r, c);
        proof {
            assert(bytes@.subrange(start as int, k + 1int) =~= bytes@.subrange(
                start as int,
                k as int,
            ).push(bytes@[k as int]));
            assert(decode_bytes(bytes@.subrange(start as int, k + 1int)) =~= decode_bytes(
                bytes@.subrange(start as int, k as int),
            ).push(decode_byte(bytes@[k as int])));
        }
        k = k + 1;
    }
    proof {
        assert(r@ =~= decoded_text(bytes@));
    }
    r
}

/// Appends the four little-endian bytes of one result word.
pub fn push_word_bytes(v: &mut Vec<u8>, w: u32)
    ensures
        final(v)@ =~= old(v)@ + word_bytes(w),
{
    proof {
        assert((w & 0xFF) < 0x100 && ((w >> 8) & 0xFF) < 0x100 && ((w >> 16) & 0xFF) < 0x100 && ((w
            >> 24) & 0xFF) < 0x100) by (bit_vector);
    }
    v.push((w & 0xFF) as u8);
    v.push(((w >> 8) & 0xFF) as u8);
    v.push(((w >> 16) & 0xFF) as u8);
    v.push(((w >> 24) & 0xFF) as u8);
}

/// The decimal digit character for `d`.
pub open spec fn dec_digit(d: nat) -> char {
    (0x30 + (d % 10)) as char
}

/// The decimal rendering of `n`, most significant digit first.
pub open spec fn dec_chars(n: nat) -> Seq<char>
    decreases n,
{
    if n < 10 {
        seq![dec_digit(n)]
    } else {
        dec_chars(n / 10).push(dec_digit(n % 10))
    }
}

/// Appends the decimal rendering of `n`.
pub fn push_decimal(s: &mut String, n: u128)
    ensures
        final(s)@ == old(s)@ + dec_chars(n as nat),
    decreases n,
{
    if n < 10 {
        let d: u8 = (n as u8) % 10;
        proof {
            assert(0x30 + d < 0x80);
        }
        push_char(s, (0x30 + d) as char);
        proof {
            assert(old(s)@.push((0x30 + d) as char) =~= old(s)@ + seq![dec_digit(n as nat)]);
        }
    } else {
        push_decimal(s, n / 10);
        let d: u8 = (n % 10) as u8;
        push_char(s, (0x30 + d) as char);
        proof {
            assert((old(s)@ + dec_chars((n / 10) as nat)).push(dec_digit(n as nat % 10)) =~= old(
                s,
            )@ + dec_chars(n as nat));
        }
    }
}

/// The uptime rendering: hours and minutes only once they are nonzero,
/// seconds always, as in "1h 2m 3s".
pub open spec fn seconds_text(s: nat) -> Seq<char> {
    let hh = s / 3600;
    let mm = (s % 3600) / 60;
    let ss = s % 60;
    (if hh > 0 {
        dec_chars(hh) + seq!['h', ' ']
    } else {
        Seq::<char>::empty()
    }) + (if hh > 0 || mm > 0 {
        dec_chars(mm) + seq!['m', ' ']
    } else {
        Seq::<char>::empty()
    }) + dec_chars(ss) + seq!['s']
}

/// Renders a duration in whole seconds as hours, minutes and seconds.
pub fn seconds_to_string(seconds: u128) -> (r: String)
    ensures
        r@ == seconds_text(seconds as nat),
{
    let hh: u128 = seconds / 3600;
    let rem: u128 = seconds % 3600;
    let mm: u128 = rem / 60;
    let ss: u128 = rem % 60;
    proof {
        vstd::arithmetic::div_mod::lemma_fundamental_div_mod(seconds as int, 3600);
        vstd::arithmetic::div_mod::lemma_fundamental_div_mod(rem as int, 60);
    }
    let mut r = String::new();
    if hh > 0 {
        push_decimal(&mut r, hh);
        push_char(&mut r, 'h');
        push_char(&mut r, ' ');
    }
    if hh > 0 || mm > 0 {
        push_decimal(&mut r, mm);
        push_char(&mut r, 'm');
        push_char(&mut r, ' ');
    }
    push_decimal(&mut r, ss);
    push_char(&mut r, 's');
    proof {
        assert(r@ =~= seconds_text(seconds as nat));
    }
    r
}

} // verus!
