//! Clock and microcode resolution.
//!
//! The dedicated frequency query reports base and turbo MHz directly; when
//! its first word is zero the resolver walks the OS text sources in a fixed
//! priority order: a base-frequency file in kHz, a maximum-frequency file in
//! kHz, then the first processor-information line that carries a decimal
//! MHz value. The first source that parses wins and nothing after it is
//! consulted. The microcode revision comes from a processor-information
//! line or a registry value and is rendered as 0x followed by eight
//! uppercase hexadecimal digits.

use vstd::prelude::*;

use crate::parse::{
    all_dec_digits, dec_value, find_byte, lines_of, parse_u32_dec, parse_u32_dec_exec,
    parse_u32_hex, parse_u32_hex_exec, second_field, second_field_exec, split_lines, starts_with,
    trim_ws_copy, trimmed_ws,
};
use crate::text::push_char;

verus! {

/// The bytes of "cpu MHz", the prefix of the MHz line.
pub open spec fn cpu_mhz_prefix() -> Seq<u8> {
    seq![0x63u8, 0x70, 0x75, 0x20, 0x4D, 0x48, 0x7A]
}

/// The bytes of "microcode", the prefix of the microcode line.
pub open spec fn microcode_prefix() -> Seq<u8> {
    seq![0x6Du8, 0x69, 0x63, 0x72, 0x6F, 0x63, 0x6F, 0x64, 0x65]
}

/// The bytes of "0x", the marker of a hexadecimal field.
pub open spec fn hex_marker() -> Seq<u8> {
    seq![0x30u8, 0x78]
}

fn has_cpu_mhz_prefix(line: &Vec<u8>) -> (r: bool)
    ensures
        r == starts_with(line@, cpu_mhz_prefix()),
{
    let r = line.len() >= 7 && line[0] == 0x63 && line[1] == 0x70 && line[2] == 0x75 && line[3]
        == 0x20 && line[4] == 0x4D && line[5] == 0x48 && line[6] == 0x7A;
    proof {
        if line@.len() >= 7 {
            if r {
                assert(line@.subrange(0, 7) =~= cpu_mhz_prefix());
            } else {
                if line@.subrange(0, 7) == cpu_mhz_prefix() {
                    assert(forall|j: int|
                        0 <= j < 7 ==> line@.subrange(0, 7)[j] == #[trigger] line@[j]);
                }
            }
        }
    }
    r
}

fn has_microcode_prefix(line: &Vec<u8>) -> (r: bool)
    ensures
        r == starts_with(line@, microcode_prefix()),
{
    let r = line.len() >= 9 && line[0] == 0x6D && line[1] == 0x69 && line[2] == 0x63 && line[3]
        == 0x72 && line[4] == 0x6F && line[5] == 0x63 && line[6] == 0x6F && line[7] == 0x64
        && line[8] == 0x65;
    proof {
        if line@.len() >= 9 {
            if r {
                assert(line@.subrange(0, 9) =~= microcode_prefix());
            } else {
                if line@.subrange(0, 9) == microcode_prefix() {
                    assert(forall|j: int|
                        0 <= j < 9 ==> line@.subrange(0, 9)[j] == #[trigger] line@[j]);
                }
            }
        }
    }
    r
}

fn has_hex_marker(t: &Vec<u8>) -> (r: bool)
    ensures
        r == starts_with(t@, hex_marker()),
{
    let r = t.len() >= 2 && t[0] == 0x30 && t[1] == 0x78;
    proof {
        if t@.len() >= 2 {
            if r {
                assert(t@.subrange(0, 2) =~= hex_marker());
            } else {
                if t@.subrange(0, 2) == hex_marker() {
                    assert(forall|j: int| 0 <= j < 2 ==> t@.subrange(0, 2)[j] == #[trigger] t@[j]);
                }
            }
        }
    }
    r
}

/// What a decimal MHz field denotes after trimming: an integer part, an
/// optional fraction after one point, at least one digit in all, rounded to
/// the nearest integer (half away from zero) and capped at 32 bits.
pub open spec fn mhz_of_field(field: Seq<u8>) -> Option<u32> {
    let t = trimmed_ws(field);
    let dot = vstd::math::min(find_byte(t, 0x2E) as int, t.len() as int);
    let int_part = t.subrange(0, dot);
    let frac = if dot == t.len() {
        Seq::<u8>::empty()
    } else {
        t.subrange(dot + 1, t.len() as int)
    };
    if all_dec_digits(int_part) && all_dec_digits(frac) && int_part.len() + frac.len() > 0 {
        let carry: int = if frac.len() > 0 && frac[0] >= 0x35 {
            1
        } else {
            0
        };
        let val = dec_value(int_part) + carry;
        Some(
            (if val > u32::MAX {
                u32::MAX as int
            } else {
                val
            }) as u32,
        )
    } else {
        None
    }
}

/// Parses a decimal MHz field, rounding to the nearest whole MHz.
fn mhz_of_field_exec(field: &Vec<u8>) -> (r: Option<u32>)
    ensures
        r == mhz_of_field(field@),
{
    let t = trim_ws_copy(field, 0, field.len());
    proof {
        assert(field@.subrange(0, field@.len() as int) =~= field@);
    }
    let n: usize = t.len();
    let mut dot: usize = 0;
    while dot < n && t[dot] != 0x2E
        invariant
            0 <= dot <= n,
            n == t@.len(),
            forall|j: int| 0 <= j < dot ==> t@[j] != 0x2E,
        decreases n - dot,
    {
        dot = dot + 1;
    }
    proof {
        crate::parse::lemma_find_byte_is(t@, 0x2E, dot as int);
    }
    let ghost int_part = t@.subrange(0, dot as int);
    let ghost frac = if dot == n {
        Seq::<u8>::empty()
    } else {
        t@.subrange(dot + 1int, n as int)
    };
    let mut acc: u64 = 0;
    let mut q: usize = 0;
    while q < dot
        invariant
            0 <= q <= dot <= n,
            n == t@.len(),
            t@ == trimmed_ws(field@),
            dot == vstd::math::min(find_byte(t@, 0x2E) as int, t@.len() as int),
            int_part == t@.subrange(0, dot as int),
            all_dec_digits(int_part.subrange(0, q as int)),
            dec_value(int_part.subrange(0, q as int)) <= u32::MAX ==> acc == dec_value(
                int_part.subrange(0, q as int),
            ),
            dec_value(int_part.subrange(0, q as int)) > u32::MAX ==> acc == (u32::MAX as u64) + 1,
            acc <= (u32::MAX as u64) + 1,
        decreases dot - q,
    {
        let b = t[q];
        proof {
            assert(int_part[q as int] == t@[q as int]);
        }
        if b < 0x30 || b > 0x39 {
            proof {
                assert(!crate::parse::is_dec_digit(int_part[q as int]));
            }
            return None;
        }
        let ghost prefix = int_part.subrange(0, q as int);
        let ghost prefix2 = int_part.subrange(0, q + 1int);
        proof {
            assert(prefix2.drop_last() =~= prefix);
            assert(forall|j: int| 0 <= j < q + 1 ==> prefix2[j] == #[trigger] int_part[j]);
            crate::parse::lemma_dec_value_nonneg(prefix);
        }
        let d: u64 = (b - 0x30) as u64;
        proof {
            assert(prefix2.last() == int_part[q as int]);
            assert(prefix2.last() == b);
            assert(all_dec_digits(prefix2));
            assert(dec_value(prefix2) == dec_value(prefix) * 10 + (b - 0x30));
        }
        if acc <= u32::MAX as u64 {
            proof {
                assert(dec_value(prefix) <= u32::MAX);
                assert(acc == dec_value(prefix));
            }
            let nx: u64 = acc * 10 + d;
            proof {
                assert(nx == dec_value(prefix2));
            }
            if nx > u32::MAX as u64 {
                acc = (u32::MAX as u64) + 1;
            } else {
                acc = nx;
            }
        } else {
            proof {
                assert(acc == (u32::MAX as u64) + 1);
                assert(dec_value(prefix) > u32::MAX);
                assert(dec_value(prefix) * 10 + (b - 0x30) > u32::MAX) by (nonlinear_arith)
                    requires
                        dec_value(prefix) > u32::MAX && b >= 0x30,
                ;
                assert(dec_value(prefix2) > u32::MAX);
            }
        }
        proof {
            assert(dec_value(prefix2) > u32::MAX ==> acc == (u32::MAX as u64) + 1);
            assert(dec_value(prefix2) <= u32::MAX ==> acc == dec_value(prefix2));
            assert(int_part.subrange(0, q + 1int) == prefix2);
        }
        q = q + 1;
    }
    proof {
        assert(int_part.subrange(0, dot as int) =~= int_part);
    }
    let mut carry: u64 = 0;
    if dot < n {
        let mut w: usize = dot + 1;
        while w < n
            invariant
                dot + 1 <= w <= n,
                dot < n,
                n == t@.len(),
                t@ == trimmed_ws(field@),
                dot == vstd::math::min(find_byte(t@, 0x2E) as int, t@.len() as int),
                frac == t@.subrange(dot + 1int, n as int),
                all_dec_digits(frac.subrange(0, w - dot - 1)),
            decreases n - w,
        {
            let b = t[w];
            proof {
                assert(frac[w - dot - 1] == t@[w as int]);
            }
            if b < 0x30 || b > 0x39 {
                proof {
                    assert(!crate::parse::is_dec_digit(frac[w - dot - 1]));
                }
                return None;
            }
            proof {
                assert(forall|j: int|
                    0 <= j < w - dot ==> frac.subrange(0, w - dot)[j] == #[trigger] frac[j]);
            }
            w = w + 1;
        }
        proof {
            assert(frac.subrange(0, n - dot - 1) =~= frac);
        }
        if dot + 1 < n && t[dot + 1] >= 0x35 {
            carry = 1;
        }
    }
    proof {
        if frac.len() > 0 {
            assert(frac[0] == t@[dot + 1int]);
        }
    }
    let frac_len: usize = if dot < n {
        n - dot - 1
    } else {
        0
    };
    if dot == 0 && frac_len == 0 {
        return None;
    }
    if acc > u32::MAX as u64 {
        Some(u32::MAX)
    } else {
        let v2: u64 = acc + carry;
        if v2 > u32::MAX as u64 {
            Some(u32::MAX)
        } else {
            Some(v2 as u32)
        }
    }
}

/// What the processor-information text yields for the MHz line: the first
/// line with the MHz prefix whose second colon field parses; any line that
/// fails is skipped.
pub open spec fn mhz_scan(lines: Seq<Seq<u8>>) -> Option<u32>
    decreases lines.len(),
{
    if lines.len() == 0 {
        None
    } else {
        let l = lines[0];
        let here = if starts_with(l, cpu_mhz_prefix()) {
            match second_field(l.subrange(7, l.len() as int)) {
                Some(f) => mhz_of_field(f),
                None => None,
            }
        } else {
            None
        };
        match here {
            Some(x) => Some(x),
            None => mhz_scan(lines.drop_first()),
        }
    }
}

/// Scans processor-information lines for the first parsable MHz value.
fn scan_mhz_lines(lines: &Vec<Vec<u8>>) -> (r: Option<u32>)
    ensures
        r == mhz_scan(lines.deep_view()),
{
    let ghost dv = lines.deep_view();
    let n: usize = lines.len();
    let mut i: usize = 0;
    proof {
        assert(dv.subrange(0, n as int) =~= dv);
    }
    while i < n
        invariant
            0 <= i <= n,
            n == dv.len(),
            dv == lines.deep_view(),
            mhz_scan(dv) == mhz_scan(dv.subrange(i as int, n as int)),
        decreases n - i,
    {
        let ghost suffix = dv.subrange(i as int, n as int);
        proof {
            assert(suffix[0] == dv[i as int]);
            assert(dv[i as int] =~= lines@[i as int]@);
            assert(suffix.drop_first() =~= dv.subrange(i + 1int, n as int));
        }
        let line = &lines[i];
        if has_cpu_mhz_prefix(line) {
            match second_field_exec(line, 7) {
                Some(f) => {
                    proof {
                        assert(line@.subrange(7, line@.len() as int) =~= dv[i as int].subrange(
                            7,
                            dv[i as int].len() as int,
                        ));
                        assert(f.deep_view() =~= f@);
                    }
                    match mhz_of_field_exec(&f) {
                        Some(x) => {
                            return Some(x);
                        },
                        None => {
                        },
                    }
                },
                None => {
                },
            }
        }
        i = i + 1;
    }
    None
}

/// What one kHz source yields: its trimmed decimal value divided by 1000.
pub open spec fn khz_source(s: Seq<u8>) -> Option<u32> {
    match parse_u32_dec(trimmed_ws(s)) {
        Some(k) => Some(k / 1000),
        None => None,
    }
}

/// Parses one kHz source into whole MHz.
fn parse_khz(src: &Vec<u8>) -> (r: Option<u32>)
    ensures
        r == khz_source(src@),
{
    let t = trim_ws_copy(src, 0, src.len());
    proof {
        assert(src@.subrange(0, src@.len() as int) =~= src@);
    }
    match parse_u32_dec_exec(&t) {
        Some(k) => Some(k / 1000),
        None => None,
    }
}

/// What the OS sources yield for the base clock, in strict priority order:
/// the base-frequency file, then the maximum-frequency file, then the
/// processor-information text; the first source that parses wins.
pub open spec fn base_mhz_sources(
    base_khz: Option<Seq<u8>>,
    max_khz: Option<Seq<u8>>,
    cpuinfo: Option<Seq<u8>>,
) -> Option<u32> {
    if base_khz is Some && khz_source(base_khz->0) is Some {
        khz_source(base_khz->0)
    } else if max_khz is Some && khz_source(max_khz->0) is Some {
        khz_source(max_khz->0)
    } else if cpuinfo is Some && mhz_scan(lines_of(cpuinfo->0)) is Some {
        mhz_scan(lines_of(cpuinfo->0))
    } else {
        None
    }
}

/// Walks the OS sources for the base clock in priority order and stops at
/// the first that parses.
pub fn base_clock_from_sources(
    base_khz: &Option<Vec<u8>>,
    max_khz: &Option<Vec<u8>>,
    cpuinfo: &Option<Vec<u8>>,
) -> (r: Option<u32>)
    ensures
        r == base_mhz_sources(base_khz.deep_view(), max_khz.deep_view(), cpuinfo.deep_view()),
{
    match base_khz {
        Some(src) => {
            proof {
                assert(src.deep_view() =~= src@);
            }
            match parse_khz(src) {
                Some(v) => {
                    return Some(v);
                },
                None => {
                },
            }
        },
        None => {
        },
    }
    match max_khz {
        Some(src) => {
            proof {
                assert(src.deep_view() =~= src@);
            }
            match parse_khz(src) {
                Some(v) => {
                    return Some(v);
                },
                None => {
                },
            }
        },
        None => {
        },
    }
    match cpuinfo {
        Some(src) => {
            proof {
                assert(src.deep_view() =~= src@);
            }
            let lines = split_lines(src);
            scan_mhz_lines(&lines)
        },
        None => None,
    }
}

/// The resolved base clock: the dedicated frequency query's first word when
/// it is nonzero, else the first OS source that parses, else zero.
pub open spec fn base_clock_spec(
    freq_eax: u32,
    base_khz: Option<Seq<u8>>,
    max_khz: Option<Seq<u8>>,
    cpuinfo: Option<Seq<u8>>,
) -> u32 {
    if freq_eax != 0 {
        freq_eax
    } else {
        match base_mhz_sources(base_khz, max_khz, cpuinfo) {
            Some(v) => v,
            None => 0,
        }
    }
}

/// Resolves the base clock: the dedicated query wins when it reports
/// anything; otherwise the OS sources are tried strictly in order and the
/// first successful parse is taken.
pub fn resolve_base_clock(
    freq_eax: u32,
    base_khz: &Option<Vec<u8>>,
    max_khz: &Option<Vec<u8>>,
    cpuinfo: &Option<Vec<u8>>,
) -> (r: u32)
    ensures
        r == base_clock_spec(
            freq_eax,
            base_khz.deep_view(),
            max_khz.deep_view(),
            cpuinfo.deep_view(),
        ),
{
    if freq_eax != 0 {
        return freq_eax;
    }
    match base_clock_from_sources(base_khz, max_khz, cpuinfo) {
        Some(v) => v,
        None => 0,
    }
}

/// What the processor-information text yields for the microcode line: the
/// first line with the microcode prefix and a second colon field decides. A
/// field marked 0x is taken as hexadecimal, and one that fails that parse
/// ends the whole scan with nothing; a bare field is taken as decimal, and
/// one that fails is skipped.
pub open spec fn microcode_scan(lines: Seq<Seq<u8>>) -> Option<u32>
    decreases lines.len(),
{
    if lines.len() == 0 {
        None
    } else {
        let l = lines[0];
        if starts_with(l, microcode_prefix()) {
            match second_field(l.subrange(9, l.len() as int)) {
                Some(f) => {
                    let t = trimmed_ws(f);
                    if starts_with(t, hex_marker()) {
                        parse_u32_hex(t.subrange(2, t.len() as int))
                    } else {
                        match parse_u32_dec(t) {
                            Some(x) => Some(x),
                            None => microcode_scan(lines.drop_first()),
                        }
                    }
                },
                None => microcode_scan(lines.drop_first()),
            }
        } else {
            microcode_scan(lines.drop_first())
        }
    }
}

/// Scans processor-information lines for the microcode revision.
fn scan_microcode_lines(lines: &Vec<Vec<u8>>) -> (r: Option<u32>)
    ensures
        r == microcode_scan(lines.deep_view()),
{
    let ghost dv = lines.deep_view();
    let n: usize = lines.len();
    let mut i: usize = 0;
    proof {
        assert(dv.subrange(0, n as int) =~= dv);
    }
    while i < n
        invariant
            0 <= i <= n,
            n == dv.len(),
            dv == lines.deep_view(),
            microcode_scan(dv) == microcode_scan(dv.subrange(i as int, n as int)),
        decreases n - i,
    {
        let ghost suffix = dv.subrange(i as int, n as int);
        proof {
            assert(suffix[0] == dv[i as int]);
            assert(dv[i as int] =~= lines@[i as int]@);
            assert(suffix.drop_first() =~= dv.subrange(i + 1int, n as int));
        }
        let line = &lines[i];
        if has_microcode_prefix(line) {
            match second_field_exec(line, 9) {
                Some(f) => {
                    proof {
                        assert(line@.subrange(9, line@.len() as int) =~= dv[i as int].subrange(
                            9,
                            dv[i as int].len() as int,
                        ));
                        assert(f.deep_view() =~= f@);
                    }
                    let t = trim_ws_copy(&f, 0, f.len());
                    proof {
                        assert(f@.subrange(0, f@.len() as int) =~= f@);
                    }
                    if has_hex_marker(&t) {
                        return parse_u32_hex_exec(&t, 2);
                    }
                    match parse_u32_dec_exec(&t) {
                        Some(x) => {
                            return Some(x);
                        },
                        None => {
                        },
                    }
                },
                None => {
                },
            }
        }
        i = i + 1;
    }
    None
}

/// The character of one hexadecimal digit, upper case.
pub open spec fn hex_digit_char(d: u32) -> char {
    if d < 10 {
        ((0x30 + d) as u8) as char
    } else {
        ((0x37 + d) as u8) as char
    }
}

/// The rendering of a microcode revision: 0x and eight uppercase
/// hexadecimal digits, zero padded.
pub open spec fn microcode_chars(v: u32) -> Seq<char> {
    seq![
        '0',
        'x',
        hex_digit_char((v >> 28) & 0xF),
        hex_digit_char((v >> 24) & 0xF),
        hex_digit_char((v >> 20) & 0xF),
        hex_digit_char((v >> 16) & 0xF),
        hex_digit_char((v >> 12) & 0xF),
        hex_digit_char((v >> 8) & 0xF),
        hex_digit_char((v >> 4) & 0xF),
        hex_digit_char(v & 0xF),
    ]
}

fn hex_digit_char_exec(d: u32) -> (c: char)
    requires
        d < 16,
    ensures
        c == hex_digit_char(d),
{
    if d < 10 {
        (0x30 + (d as u8)) as char
    } else {
        (0x37 + (d as u8)) as char
    }
}

/// Renders a microcode revision as 0x and eight uppercase hexadecimal
/// digits.
pub fn format_microcode(v: u32) -> (r: String)
    ensures
        r@ == microcode_chars(v),
{
    proof {
        assert((v >> 28) & 0xF < 16 && (v >> 24) & 0xF < 16 && (v >> 20) & 0xF < 16 && (v >> 16)
            & 0xF < 16 && (v >> 12) & 0xF < 16 && (v >> 8) & 0xF < 16 && (v >> 4) & 0xF < 16 && v
            & 0xF < 16) by (bit_vector);
    }
    let mut r = String::new();
    push_char(&mut r, '0');
    push_char(&mut r, 'x');
    push_char(&mut r, hex_digit_char_exec((v >> 28) & 0xF));
    push_char(&mut r, hex_digit_char_exec((v >> 24) & 0xF));
    push_char(&mut r, hex_digit_char_exec((v >> 20) & 0xF));
    push_char(&mut r, hex_digit_char_exec((v >> 16) & 0xF));
    push_char(&mut r, hex_digit_char_exec((v >> 12) & 0xF));
    push_char(&mut r, hex_digit_char_exec((v >> 8) & 0xF));
    push_char(&mut r, hex_digit_char_exec((v >> 4) & 0xF));
    push_char(&mut r, hex_digit_char_exec(v & 0xF));
    proof {
        assert(r@ =~= microcode_chars(v));
    }
    r
}

/// What the processor-information text yields for the microcode string: the
/// rendered revision, or the empty string where no source yields one.
pub open spec fn microcode_text(cpuinfo: Option<Seq<u8>>) -> Seq<char> {
    match cpuinfo {
        Some(s) => match microcode_scan(lines_of(s)) {
            Some(v) => microcode_chars(v),
            None => Seq::<char>::empty(),
        },
        None => Seq::<char>::empty(),
    }
}

/// Reads the microcode revision out of the processor-information text and
/// renders it; absence of a readable value yields the empty string.
pub fn microcode_from_cpuinfo(cpuinfo: &Option<Vec<u8>>) -> (r: String)
    ensures
        r@ == microcode_text(cpuinfo.deep_view()),
{
    match cpuinfo {
        Some(src) => {
            proof {
                assert(src.deep_view() =~= src@);
            }
            let lines = split_lines(src);
            match scan_microcode_lines(&lines) {
                Some(v) => format_microcode(v),
                None => String::new(),
            }
        },
        None => String::new(),
    }
}

} // verus!
