//! Parsing of the OS text sources.
//!
//! The fallback sources are small text files: a frequency in kHz on a line
//! of its own, or a colon-separated field on a prefixed line. Everything
//! here works on plain bytes; a value that does not parse is reported as
//! absent, never as an error.

use vstd::prelude::*;

use crate::text::{lemma_trim_end_at, lemma_trim_start_at, trim_bytes};

verus! {

/// ASCII whitespace, the class a plain-text trim removes.
pub open spec fn is_space_byte(b: u8) -> bool {
    b == 0x20 || (0x09 <= b && b <= 0x0D)
}

/// The whitespace predicate as a value, so that every mention is one term.
pub open spec fn space_pred() -> spec_fn(u8) -> bool {
    |b: u8| is_space_byte(b)
}

/// `s` with ASCII whitespace removed from both ends.
pub open spec fn trimmed_ws(s: Seq<u8>) -> Seq<u8> {
    trim_bytes(s, space_pred())
}

fn is_space_byte_exec(b: u8) -> (r: bool)
    ensures
        r == is_space_byte(b),
{
    b == 0x20 || (0x09 <= b && b <= 0x0D)
}

/// Copies the given range of `v` with ASCII whitespace trimmed from both
/// ends.
pub fn trim_ws_copy(v: &Vec<u8>, from: usize, to: usize) -> (r: Vec<u8>)
    requires
        from <= to <= v@.len(),
    ensures
        r@ == trimmed_ws(v@.subrange(from as int, to as int)),
{
    let ghost whole = v@.subrange(from as int, to as int);
    let mut start: usize = from;
    while start < to && is_space_byte_exec(v[start])
        invariant
            from <= start <= to <= v@.len(),
            forall|j: int| from <= j < start ==> is_space_byte(v@[j]),
        decreases to - start,
    {
        start = start + 1;
    }
    let mut end: usize = to;
    while end > start && is_space_byte_exec(v[end - 1])
        invariant
            start <= end <= to,
            from <= start,
            to <= v@.len(),
            forall|j: int| from <= j < start ==> is_space_byte(v@[j]),
            start < to ==> !is_space_byte(v@[start as int]),
            forall|j: int| end <= j < to ==> is_space_byte(v@[j]),
        decreases end,
    {
        end = end - 1;
    }
    proof {
        assert(forall|j: int| 0 <= j < start - from ==> space_pred()(whole[j]));
        assert(start - from < whole.len() ==> !space_pred()(whole[start - from]));
        lemma_trim_start_at(whole, space_pred(), start - from);
        let t = whole.subrange(start - from, whole.len() as int);
        assert(forall|j: int| end - start <= j < t.len() ==> space_pred()(t[j]));
        assert(end - start > 0 ==> !space_pred()(t[end - start - 1]));
        lemma_trim_end_at(t, space_pred(), end - start);
        assert(t.subrange(0, end - start) =~= v@.subrange(start as int, end as int));
    }
    let mut r: Vec<u8> = Vec::new();
    let mut k: usize = start;
    while k < end
        invariant
            start <= k <= end <= v@.len(),
            r@ =~= v@.subrange(start as int, k as int),
        decreases end - k,
    {
        r.push(v[k]);
        proof {
            assert(v@.subrange(start as int, k + 1int) =~= v@.subrange(
                start as int,
                k as int,
            ).push(v@[k as int]));
        }
        k = k + 1;
    }
    proof {
        assert(r@ =~= trimmed_ws(whole));
    }
    r
}

pub open spec fn is_dec_digit(b: u8) -> bool {
    0x30 <= b && b <= 0x39
}

pub open spec fn all_dec_digits(s: Seq<u8>) -> bool {
    forall|i: int| 0 <= i < s.len() ==> is_dec_digit(#[trigger] s[i])
}

/// The number a run of decimal digits denotes.
pub open spec fn dec_value(s: Seq<u8>) -> int
    decreases s.len(),
{
    if s.len() == 0 {
        0
    } else {
        dec_value(s.drop_last()) * 10 + (s.last() - 0x30)
    }
}

/// A longer digit run never denotes a smaller number.
proof fn lemma_dec_value_mono(s: Seq<u8>, i: int)
    requires
        all_dec_digits(s),
        0 <= i <= s.len(),
    ensures
        0 <= dec_value(s.subrange(0, i)),
        dec_value(s.subrange(0, i)) <= dec_value(s),
    decreases s.len() - i,
{
    if i == s.len() {
        assert(s.subrange(0, i) =~= s);
        lemma_dec_value_nonneg(s);
    } else {
        lemma_dec_value_mono(s, i + 1);
        let t = s.subrange(0, i + 1);
        assert(t.drop_last() =~= s.subrange(0, i));
        assert(all_dec_digits(s.subrange(0, i))) by {
            assert(forall|j: int|
                0 <= j < i ==> s.subrange(0, i)[j] == #[trigger] s[j] && is_dec_digit(s[j]));
        }
        lemma_dec_value_nonneg(s.subrange(0, i));
        assert(dec_value(t) == dec_value(s.subrange(0, i)) * 10 + (t.last() - 0x30));
        assert(dec_value(s.subrange(0, i)) * 10 >= dec_value(s.subrange(0, i))) by (nonlinear_arith)
            requires
                dec_value(s.subrange(0, i)) >= 0,
        ;
    }
}

pub proof fn lemma_dec_value_nonneg(s: Seq<u8>)
    requires
        all_dec_digits(s),
    ensures
        dec_value(s) >= 0,
    decreases s.len(),
{
    if s.len() > 0 {
        assert(all_dec_digits(s.drop_last())) by {
            assert(forall|j: int|
                0 <= j < s.len() - 1 ==> s.drop_last()[j] == #[trigger] s[j] && is_dec_digit(
                    s[j],
                ));
        }
        lemma_dec_value_nonneg(s.drop_last());
    }
}

/// What a plain decimal parse of `s` yields: its value, provided `s` is a
/// nonempty run of decimal digits whose value fits in 32 bits.
pub open spec fn parse_u32_dec(s: Seq<u8>) -> Option<u32> {
    if s.len() > 0 && all_dec_digits(s) && dec_value(s) <= u32::MAX {
        Some(dec_value(s) as u32)
    } else {
        None
    }
}

/// Parses a nonempty run of decimal digits into a 32-bit value.
pub fn parse_u32_dec_exec(v: &Vec<u8>) -> (r: Option<u32>)
    ensures
        r == parse_u32_dec(v@),
{
    let n: usize = v.len();
    if n == 0 {
        return None;
    }
    let mut acc: u64 = 0;
    let mut i: usize = 0;
    while i < n
        invariant
            0 <= i <= n,
            n == v@.len(),
            n > 0,
            all_dec_digits(v@.subrange(0, i as int)),
            acc == dec_value(v@.subrange(0, i as int)),
            acc <= u32::MAX,
        decreases n - i,
    {
        let b = v[i];
        if b < 0x30 || b > 0x39 {
            return None;
        }
        proof {
            assert(v@.subrange(0, i + 1int).drop_last() =~= v@.subrange(0, i as int));
            assert(forall|j: int|
                0 <= j < i + 1 ==> v@.subrange(0, i + 1int)[j] == #[trigger] v@[j]);
        }
        let d: u64 = (b - 0x30) as u64;
        let next: u64 = acc * 10 + d;
        if next > u32::MAX as u64 {
            proof {
                if all_dec_digits(v@) {
                    lemma_dec_value_mono(v@, i + 1);
                    assert(v@.subrange(0, v@.len() as int) =~= v@);
                }
            }
            return None;
        }
        acc = next;
        i = i + 1;
    }
    proof {
        assert(v@.subrange(0, n as int) =~= v@);
    }
    Some(acc as u32)
}

pub open spec fn is_hex_digit(b: u8) -> bool {
    (0x30 <= b && b <= 0x39) || (0x41 <= b && b <= 0x46) || (0x61 <= b && b <= 0x66)
}

pub open spec fn hex_digit_value(b: u8) -> int {
    if 0x30 <= b && b <= 0x39 {
        b - 0x30
    } else if 0x41 <= b && b <= 0x46 {
        b - 0x41 + 10
    } else {
        b - 0x61 + 10
    }
}

pub open spec fn all_hex_digits(s: Seq<u8>) -> bool {
    forall|i: int| 0 <= i < s.len() ==> is_hex_digit(#[trigger] s[i])
}

/// The number a run of hexadecimal digits denotes.
pub open spec fn hex_value(s: Seq<u8>) -> int
    decreases s.len(),
{
    if s.len() == 0 {
        0
    } else {
        hex_value(s.drop_last()) * 16 + hex_digit_value(s.last())
    }
}

proof fn lemma_hex_value_nonneg(s: Seq<u8>)
    requires
        all_hex_digits(s),
    ensures
        hex_value(s) >= 0,
    decreases s.len(),
{
    if s.len() > 0 {
        assert(all_hex_digits(s.drop_last())) by {
            assert(forall|j: int|
                0 <= j < s.len() - 1 ==> s.drop_last()[j] == #[trigger] s[j] && is_hex_digit(
                    s[j],
                ));
        }
        lemma_hex_value_nonneg(s.drop_last());
    }
}

proof fn lemma_hex_value_mono(s: Seq<u8>, i: int)
    requires
        all_hex_digits(s),
        0 <= i <= s.len(),
    ensures
        0 <= hex_value(s.subrange(0, i)),
        hex_value(s.subrange(0, i)) <= hex_value(s),
    decreases s.len() - i,
{
    if i == s.len() {
        assert(s.subrange(0, i) =~= s);
        lemma_hex_value_nonneg(s);
    } else {
        lemma_hex_value_mono(s, i + 1);
        let t = s.subrange(0, i + 1);
        assert(t.drop_last() =~= s.subrange(0, i));
        assert(all_hex_digits(s.subrange(0, i))) by {
            assert(forall|j: int|
                0 <= j < i ==> s.subrange(0, i)[j] == #[trigger] s[j] && is_hex_digit(s[j]));
        }
        lemma_hex_value_nonneg(s.subrange(0, i));
        assert(hex_value(t) == hex_value(s.subrange(0, i)) * 16 + hex_digit_value(t.last()));
        assert(hex_value(s.subrange(0, i)) * 16 >= hex_value(s.subrange(0, i))) by (nonlinear_arith)
            requires
                hex_value(s.subrange(0, i)) >= 0,
        ;
    }
}

/// What a hexadecimal parse of `s` yields: its value, provided `s` is a
/// nonempty run of hexadecimal digits whose value fits in 32 bits.
pub open spec fn parse_u32_hex(s: Seq<u8>) -> Option<u32> {
    if s.len() > 0 && all_hex_digits(s) && hex_value(s) <= u32::MAX {
        Some(hex_value(s) as u32)
    } else {
        None
    }
}

/// Parses a nonempty run of hexadecimal digits into a 32-bit value.
pub fn parse_u32_hex_exec(v: &Vec<u8>, from: usize) -> (r: Option<u32>)
    requires
        from <= v@.len(),
    ensures
        r == parse_u32_hex(v@.subrange(from as int, v@.len() as int)),
{
    let ghost s = v@.subrange(from as int, v@.len() as int);
    let n: usize = v.len();
    if from == n {
        return None;
    }
    let mut acc: u64 = 0;
    let mut i: usize = from;
    while i < n
        invariant
            from <= i <= n,
            n == v@.len(),
            s == v@.subrange(from as int, n as int),
            all_hex_digits(s.subrange(0, i - from)),
            acc == hex_value(s.subrange(0, i - from)),
            acc <= u32::MAX,
        decreases n - i,
    {
        let b = v[i];
        proof {
            assert(s[i - from] == v@[i as int]);
            assert(s.subrange(0, i - from + 1).drop_last() =~= s.subrange(0, i - from));
            assert(forall|j: int|
                0 <= j < i - from + 1 ==> s.subrange(0, i - from + 1)[j] == #[trigger] s[j]);
        }
        let d: u64 = if 0x30 <= b && b <= 0x39 {
            (b - 0x30) as u64
        } else if 0x41 <= b && b <= 0x46 {
            (b - 0x41 + 10) as u64
        } else if 0x61 <= b && b <= 0x66 {
            (b - 0x61 + 10) as u64
        } else {
            proof {
                assert(!is_hex_digit(s[i - from]));
            }
            return None;
        };
        let next: u64 = acc * 16 + d;
        if next > u32::MAX as u64 {
            proof {
                if all_hex_digits(s) {
                    lemma_hex_value_mono(s, i - from + 1);
                    assert(s.subrange(0, s.len() as int) =~= s);
                }
            }
            return None;
        }
        acc = next;
        i = i + 1;
    }
    proof {
        assert(s.subrange(0, n - from) =~= s);
    }
    Some(acc as u32)
}

/// The first index where `b` occurs, or the length of `s`.
pub open spec fn find_byte(s: Seq<u8>, b: u8) -> nat
    decreases s.len(),
{
    if s.len() == 0 {
        0
    } else if s[0] == b {
        0
    } else {
        (1 + find_byte(s.drop_first(), b)) as nat
    }
}

/// Where the first occurrence of `b` is known, `find_byte` returns it.
pub proof fn lemma_find_byte_is(s: Seq<u8>, b: u8, k: int)
    requires
        0 <= k <= s.len(),
        forall|j: int| 0 <= j < k ==> s[j] != b,
        k < s.len() ==> s[k] == b,
    ensures
        find_byte(s, b) == k,
    decreases k,
{
    if k == 0 {
    } else {
        assert(s[0] != b);
        lemma_find_byte_is(s.drop_first(), b, k - 1);
        assert(forall|j: int| 0 <= j < k - 1 ==> s.drop_first()[j] == s[j + 1]);
        if k - 1 < s.drop_first().len() {
            assert(s.drop_first()[k - 1] == s[k]);
        }
    }
}

/// A line with its trailing carriage return removed.
pub open spec fn strip_cr(l: Seq<u8>) -> Seq<u8> {
    if l.len() > 0 && l.last() == 0x0D {
        l.drop_last()
    } else {
        l
    }
}

/// The lines of a text: split at each line feed, a trailing carriage return
/// removed from each line, and no empty line after a final line feed.
pub open spec fn lines_of(s: Seq<u8>) -> Seq<Seq<u8>>
    decreases s.len(),
{
    if s.len() == 0 {
        Seq::<Seq<u8>>::empty()
    } else {
        let k = vstd::math::min(find_byte(s, 0x0A) as int, s.len() as int);
        if k == s.len() {
            seq![strip_cr(s.subrange(0, k))]
        } else {
            seq![strip_cr(s.subrange(0, k))] + lines_of(s.subrange(k + 1, s.len() as int))
        }
    }
}

/// Splits a text into its lines.
pub fn split_lines(v: &Vec<u8>) -> (r: Vec<Vec<u8>>)
    ensures
        r.deep_view() == lines_of(v@),
{
    let n: usize = v.len();
    let mut r: Vec<Vec<u8>> = Vec::new();
    let mut pos: usize = 0;
    proof {
        assert(r.deep_view() =~= Seq::<Seq<u8>>::empty());
        assert(v@.subrange(0, n as int) =~= v@);
        assert(r.deep_view() + lines_of(v@.subrange(0, n as int)) =~= lines_of(v@));
    }
    while pos < n
        invariant
            0 <= pos <= n,
            n == v@.len(),
            lines_of(v@) == r.deep_view() + lines_of(v@.subrange(pos as int, n as int)),
        decreases n - pos,
    {
        let ghost suffix = v@.subrange(pos as int, n as int);
        let ghost dv0 = r.deep_view();
        let mut k: usize = pos;
        while k < n && v[k] != 0x0A
            invariant
                pos <= k <= n,
                n == v@.len(),
                forall|j: int| pos <= j < k ==> v@[j] != 0x0A,
            decreases n - k,
        {
            k = k + 1;
        }
        proof {
            assert(forall|j: int| 0 <= j < k - pos ==> suffix[j] == v@[pos + j] && v@[pos + j]
                != 0x0A);
            if k < n {
                assert(suffix[k - pos] == v@[k as int]);
            }
            lemma_find_byte_is(suffix, 0x0A, k - pos);
        }
        let line_end: usize = if k > pos && v[k - 1] == 0x0D {
            k - 1
        } else {
            k
        };
        let mut line: Vec<u8> = Vec::new();
        let mut m: usize = pos;
        while m < line_end
            invariant
                pos <= m <= line_end <= n,
                n == v@.len(),
                line@ =~= v@.subrange(pos as int, m as int),
            decreases line_end - m,
        {
            line.push(v[m]);
            proof {
                assert(v@.subrange(pos as int, m + 1int) =~= v@.subrange(
                    pos as int,
                    m as int,
                ).push(v@[m as int]));
            }
            m = m + 1;
        }
        proof {
            let raw = suffix.subrange(0, k - pos);
            assert(raw =~= v@.subrange(pos as int, k as int));
            if k > pos && v@[k - 1] == 0x0D {
                assert(raw.last() == v@[k - 1]);
                assert(strip_cr(raw) =~= v@.subrange(pos as int, line_end as int));
            } else {
                assert(strip_cr(raw) =~= v@.subrange(pos as int, line_end as int));
            }
            assert(line@ == strip_cr(raw));
        }
        r.push(line);
        proof {
            assert(r.deep_view() =~~= dv0.push(line@));
            assert(dv0.push(line@) =~= dv0 + seq![line@]);
        }
        let ghost kk = k - pos;
        proof {
            assert(suffix.len() > 0);
            assert(vstd::math::min(find_byte(suffix, 0x0A) as int, suffix.len() as int) == kk);
            assert(strip_cr(suffix.subrange(0, kk)) == line@);
        }
        if k == n {
            pos = n;
            proof {
                assert(lines_of(suffix) == seq![line@]);
                assert(lines_of(v@.subrange(n as int, n as int)) =~= Seq::<Seq<u8>>::empty());
                assert(dv0 + seq![line@] + Seq::<Seq<u8>>::empty() =~= dv0 + seq![line@]);
                assert(lines_of(v@) == r.deep_view() + lines_of(
                    v@.subrange(pos as int, n as int),
                ));
            }
        } else {
            proof {
                assert(suffix.subrange(kk + 1, suffix.len() as int) =~= v@.subrange(
                    k + 1int,
                    n as int,
                ));
                assert(lines_of(suffix) == seq![line@] + lines_of(
                    v@.subrange(k + 1int, n as int),
                ));
                assert(dv0 + (seq![line@] + lines_of(v@.subrange(k + 1int, n as int))) =~= (dv0
                    + seq![line@]) + lines_of(v@.subrange(k + 1int, n as int)));
                assert(lines_of(v@) == (dv0 + seq![line@]) + lines_of(
                    v@.subrange(k + 1int, n as int),
                ));
            }
            pos = k + 1;
        }
    }
    proof {
        assert(lines_of(v@.subrange(n as int, n as int)) =~= Seq::<Seq<u8>>::empty());
        assert(r.deep_view() + Seq::<Seq<u8>>::empty() =~= r.deep_view());
    }
    r
}

/// True when `s` begins with `prefix`.
pub open spec fn starts_with(s: Seq<u8>, prefix: Seq<u8>) -> bool {
    s.len() >= prefix.len() && s.subrange(0, prefix.len() as int) == prefix
}

/// The second colon-separated field of `s`: the text between the first
/// colon and the next colon or the end; absent where `s` has no colon.
pub open spec fn second_field(s: Seq<u8>) -> Option<Seq<u8>> {
    let i = vstd::math::min(find_byte(s, 0x3A) as int, s.len() as int);
    if i == s.len() {
        None
    } else {
        let rest = s.subrange(i + 1, s.len() as int);
        let j = vstd::math::min(find_byte(rest, 0x3A) as int, rest.len() as int);
        Some(rest.subrange(0, j))
    }
}

/// Extracts the second colon-separated field of `line` from `start` on.
pub fn second_field_exec(line: &Vec<u8>, start: usize) -> (r: Option<Vec<u8>>)
    requires
        start <= line@.len(),
    ensures
        r.deep_view() == second_field(line@.subrange(start as int, line@.len() as int)),
{
    let ghost s = line@.subrange(start as int, line@.len() as int);
    let n: usize = line.len();
    let mut i: usize = start;
    while i < n && line[i] != 0x3A
        invariant
            start <= i <= n,
            n == line@.len(),
            forall|j: int| start <= j < i ==> line@[j] != 0x3A,
        decreases n - i,
    {
        i = i + 1;
    }
    proof {
        assert(forall|j: int| 0 <= j < i - start ==> s[j] == line@[start + j] && line@[start + j]
            != 0x3A);
        if i < n {
            assert(s[i - start] == line@[i as int]);
        }
        lemma_find_byte_is(s, 0x3A, i - start);
    }
    if i == n {
        return None;
    }
    let ghost rest = s.subrange(i - start + 1, s.len() as int);
    let mut j: usize = i + 1;
    while j < n && line[j] != 0x3A
        invariant
            i + 1 <= j <= n,
            i < n,
            n == line@.len(),
            forall|q: int| i + 1 <= q < j ==> line@[q] != 0x3A,
        decreases n - j,
    {
        j = j + 1;
    }
    proof {
        assert(rest =~= line@.subrange(i + 1int, n as int));
        assert(forall|q: int| 0 <= q < j - i - 1 ==> rest[q] == line@[i + 1 + q] && line@[i + 1 + q]
            != 0x3A);
        if j < n {
            assert(rest[j - i - 1] == line@[j as int]);
        }
        lemma_find_byte_is(rest, 0x3A, j - i - 1);
    }
    let mut field: Vec<u8> = Vec::new();
    let mut m: usize = i + 1;
    while m < j
        invariant
            i + 1 <= m <= j <= n,
            n == line@.len(),
            field@ =~= line@.subrange(i + 1int, m as int),
        decreases j - m,
    {
        field.push(line[m]);
        proof {
            assert(line@.subrange(i + 1int, m + 1int) =~= line@.subrange(
                i + 1int,
                m as int,
            ).push(line@[m as int]));
        }
        m = m + 1;
    }
    proof {
        assert(field@ =~= rest.subrange(0, j - i - 1));
    }
    Some(field)
}


} // verus!
