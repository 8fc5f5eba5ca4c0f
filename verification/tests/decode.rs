use cpu_probe::clock::{format_microcode, microcode_from_cpuinfo, resolve_base_clock};
use cpu_probe::features::detect_flags;
use cpu_probe::identity::{brand_string, family_of, model_of, stepping_of, vendor_string};
use cpu_probe::text::seconds_to_string;
use cpu_probe::Leaf;

fn leaf(eax: u32, ebx: u32, ecx: u32, edx: u32) -> Leaf {
    Leaf { eax, ebx, ecx, edx }
}

fn word(bytes: &[u8]) -> u32 {
    u32::from_le_bytes([bytes[0], bytes[1], bytes[2], bytes[3]])
}

#[test]
fn family_composes_extended_family_only_at_base_f() {
    // base family 0xF, extended family 0x3: effective family 0xF + 0x3 = 18
    let eax = (0x3u32 << 20) | (0xFu32 << 8);
    assert_eq!(family_of(eax), 18);
    // base family 0x6 ignores the extended family
    let eax = (0x3u32 << 20) | (0x6u32 << 8);
    assert_eq!(family_of(eax), 0x6);
}

#[test]
fn model_composes_extended_model_at_base_6_and_f() {
    // base family 0x6, extended model 0x2, base model 0x5: model 0x25
    let eax = (0x2u32 << 16) | (0x6u32 << 8) | (0x5u32 << 4);
    assert_eq!(model_of(eax), 0x25);
    // base family 0xF composes too
    let eax = (0x2u32 << 16) | (0xFu32 << 8) | (0x5u32 << 4);
    assert_eq!(model_of(eax), 0x25);
    // any other base family takes the base model alone
    let eax = (0x2u32 << 16) | (0x5u32 << 8) | (0x5u32 << 4);
    assert_eq!(model_of(eax), 0x5);
}

#[test]
fn family_sum_wraps_into_its_eight_bit_field() {
    // base family 0xF with the largest extended family: 0xF + 0xFF = 0x10E,
    // reduced modulo 256 to fit the field
    let eax = (0xFFu32 << 20) | (0xFu32 << 8);
    assert_eq!(family_of(eax), 0x0E);
}

#[test]
fn stepping_is_low_nibble() {
    assert_eq!(stepping_of(0xABCD_E7u32), 0x7);
}

#[test]
fn vendor_round_trips_known_string() {
    let v = b"AuthenticAMD";
    let l0 = leaf(0xD, word(&v[0..4]), word(&v[8..12]), word(&v[4..8]));
    assert_eq!(vendor_string(&l0), "AuthenticAMD");

    let v = b"GenuineIntel";
    let l0 = leaf(0, word(&v[0..4]), word(&v[8..12]), word(&v[4..8]));
    assert_eq!(vendor_string(&l0), "GenuineIntel");
}

#[test]
fn vendor_of_all_zero_result_is_empty() {
    let l0 = leaf(0, 0, 0, 0);
    assert_eq!(vendor_string(&l0), "");
}

#[test]
fn brand_concatenates_three_leaves_and_trims() {
    // "  Model X  \0\0..." across twelve words, NUL padded
    let text = b"  CPU Model X 3000  \0\0\0\0\0\0\0\0\0\0\0\0\0\0\0\0\0\0\0\0\0\0\0\0\0\0\0\0";
    let b0 = leaf(
        word(&text[0..4]),
        word(&text[4..8]),
        word(&text[8..12]),
        word(&text[12..16]),
    );
    let b1 = leaf(
        word(&text[16..20]),
        word(&text[20..24]),
        word(&text[24..28]),
        word(&text[28..32]),
    );
    let b2 = leaf(
        word(&text[32..36]),
        word(&text[36..40]),
        word(&text[40..44]),
        word(&text[44..48]),
    );
    assert_eq!(brand_string(0x8000_0004, &b0, &b1, &b2), "CPU Model X 3000");
}

#[test]
fn brand_is_empty_without_extended_range() {
    let z = leaf(0, 0, 0, 0);
    assert_eq!(brand_string(0, &z, &z, &z), "");
    assert_eq!(brand_string(0x8000_0003, &z, &z, &z), "");
}

#[test]
fn flags_follow_canonical_order_without_duplicates() {
    // POP_CNT (ecx 23), SSE3 (ecx 0), SSE (edx 25), AVX2 (ebx7 5)
    let l1 = leaf(0, 0, (1 << 23) | 1, 1 << 25);
    let l7 = leaf(0, 1 << 5, 0, 0);
    let flags = detect_flags(&l1, &l7);
    assert_eq!(flags, vec!["POP_CNT", "SSE", "SSE3", "AVX2"]);
}

#[test]
fn no_flag_bits_yield_no_flags() {
    let z = leaf(0, 0, 0, 0);
    assert!(detect_flags(&z, &z).is_empty());
}

#[test]
fn all_flag_bits_yield_the_full_table() {
    let l1 = leaf(0, 0, u32::MAX, u32::MAX);
    let l7 = leaf(0, u32::MAX, 0, 0);
    let flags = detect_flags(&l1, &l7);
    assert_eq!(
        flags,
        vec![
            "POP_CNT", "SSE", "SSE2", "SSE3", "SSSE3", "SSE4.1", "SSE4.2", "AES", "AVX", "AVX2",
            "BMI2", "AVX512F", "AVX512BW", "AVX512V1",
        ]
    );
    for i in 0..flags.len() {
        for j in 0..flags.len() {
            if i != j {
                assert_ne!(flags[i], flags[j]);
            }
        }
    }
}

#[test]
fn dedicated_frequency_query_wins_when_nonzero() {
    let r = resolve_base_clock(3000, &Some(b"9999000".to_vec()), &None, &None);
    assert_eq!(r, 3000);
}

#[test]
fn khz_sources_are_tried_in_order() {
    // first source parses: 3500000 kHz -> 3500 MHz, second never consulted
    let r = resolve_base_clock(
        0,
        &Some(b"3500000\n".to_vec()),
        &Some(b"9999000".to_vec()),
        &None,
    );
    assert_eq!(r, 3500);
    // first unreadable, second parses
    let r = resolve_base_clock(0, &None, &Some(b"2200000".to_vec()), &None);
    assert_eq!(r, 2200);
    // first malformed, second parses
    let r = resolve_base_clock(0, &Some(b"n/a".to_vec()), &Some(b"1800000".to_vec()), &None);
    assert_eq!(r, 1800);
}

#[test]
fn cpuinfo_mhz_is_the_last_resort_and_rounds() {
    let cpuinfo = b"processor\t: 0\ncpu MHz\t\t: 2400.40\nmodel name\t: X\n".to_vec();
    let r = resolve_base_clock(0, &Some(b"bad".to_vec()), &Some(b"".to_vec()), &Some(cpuinfo));
    assert_eq!(r, 2400);
    let cpuinfo = b"cpu MHz\t\t: 2400.50\n".to_vec();
    let r = resolve_base_clock(0, &None, &None, &Some(cpuinfo));
    assert_eq!(r, 2401);
}

#[test]
fn mhz_field_grammar_edges() {
    // a bare integer, a trailing point, and a bare fraction all parse
    let r = resolve_base_clock(0, &None, &None, &Some(b"cpu MHz : 2400\n".to_vec()));
    assert_eq!(r, 2400);
    let r = resolve_base_clock(0, &None, &None, &Some(b"cpu MHz : 2400.\n".to_vec()));
    assert_eq!(r, 2400);
    let r = resolve_base_clock(0, &None, &None, &Some(b"cpu MHz : .6\n".to_vec()));
    assert_eq!(r, 1);
    // a lone point or trailing junk is malformed and skipped
    let r = resolve_base_clock(0, &None, &None, &Some(b"cpu MHz : .\ncpu MHz : 7\n".to_vec()));
    assert_eq!(r, 7);
    let r = resolve_base_clock(0, &None, &None, &Some(b"cpu MHz : 12x\n".to_vec()));
    assert_eq!(r, 0);
}

#[test]
fn malformed_mhz_lines_are_skipped_for_later_ones() {
    let cpuinfo = b"cpu MHz\t\t: what\ncpu MHz\t\t: 1234\n".to_vec();
    let r = resolve_base_clock(0, &None, &None, &Some(cpuinfo));
    assert_eq!(r, 1234);
}

#[test]
fn no_source_leaves_the_clock_at_zero() {
    assert_eq!(resolve_base_clock(0, &None, &None, &None), 0);
    assert_eq!(resolve_base_clock(0, &Some(b"junk".to_vec()), &None, &None), 0);
}

#[test]
fn microcode_parses_hex_field() {
    let cpuinfo = b"processor : 0\nmicrocode\t: 0xde\n".to_vec();
    assert_eq!(microcode_from_cpuinfo(&Some(cpuinfo)), "0x000000DE");
}

#[test]
fn microcode_parses_decimal_field() {
    let cpuinfo = b"microcode\t: 222\n".to_vec();
    assert_eq!(microcode_from_cpuinfo(&Some(cpuinfo)), "0x000000DE");
}

#[test]
fn bad_hex_microcode_ends_the_scan_empty() {
    let cpuinfo = b"microcode\t: 0xZZ\nmicrocode\t: 0x1\n".to_vec();
    assert_eq!(microcode_from_cpuinfo(&Some(cpuinfo)), "");
}

#[test]
fn absent_microcode_source_yields_empty_string() {
    assert_eq!(microcode_from_cpuinfo(&None), "");
    assert_eq!(microcode_from_cpuinfo(&Some(b"nothing here\n".to_vec())), "");
}

#[test]
fn microcode_formats_as_eight_upper_hex_digits() {
    assert_eq!(format_microcode(0xDE), "0x000000DE");
    assert_eq!(format_microcode(0), "0x00000000");
    assert_eq!(format_microcode(0xFFFF_FFFF), "0xFFFFFFFF");
    assert_eq!(format_microcode(0x0A0B_0C0D), "0x0A0B0C0D");
}

#[test]
fn seconds_render_with_units_appearing_as_needed() {
    assert_eq!(seconds_to_string(0), "0s");
    assert_eq!(seconds_to_string(59), "59s");
    assert_eq!(seconds_to_string(60), "1m 0s");
    assert_eq!(seconds_to_string(3600), "1h 0m 0s");
    assert_eq!(seconds_to_string(3723), "1h 2m 3s");
}
