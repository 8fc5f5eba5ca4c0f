//! Identity decoding: vendor string, brand string, family, model, stepping.
//!
//! Layout of the first result word of query(1, 0):
//! bits 3..0 stepping, bits 7..4 base model, bits 11..8 base family,
//! bits 19..16 extended model, bits 27..20 extended family.

use vstd::prelude::*;

use crate::query::Leaf;
use crate::text::{decode_trimmed, decoded_text, push_word_bytes, word_bytes};

verus! {

/// The vendor string of query(0, 0): the second, fourth and third result
/// words, each as little-endian bytes.
pub open spec fn vendor_bytes(l0: Leaf) -> Seq<u8> {
    word_bytes(l0.ebx) + word_bytes(l0.edx) + word_bytes(l0.ecx)
}

pub open spec fn vendor_text(l0: Leaf) -> Seq<char> {
    decoded_text(vendor_bytes(l0))
}

/// The brand string of the three extended leaves: all four result words of
/// each, as little-endian bytes.
pub open spec fn brand_bytes(b0: Leaf, b1: Leaf, b2: Leaf) -> Seq<u8> {
    word_bytes(b0.eax) + word_bytes(b0.ebx) + word_bytes(b0.ecx) + word_bytes(b0.edx) + word_bytes(
        b1.eax,
    ) + word_bytes(b1.ebx) + word_bytes(b1.ecx) + word_bytes(b1.edx) + word_bytes(b2.eax)
        + word_bytes(b2.ebx) + word_bytes(b2.ecx) + word_bytes(b2.edx)
}

/// The brand is only decoded when the extended query range reaches the last
/// brand leaf; otherwise it is empty, never an error.
pub open spec fn brand_text(max_ext: u32, b0: Leaf, b1: Leaf, b2: Leaf) -> Seq<char> {
    if max_ext >= 0x8000_0004 {
        decoded_text(brand_bytes(b0, b1, b2))
    } else {
        Seq::<char>::empty()
    }
}

pub open spec fn stepping_field(eax: u32) -> u32 {
    eax & 0xF
}

pub open spec fn base_model(eax: u32) -> u32 {
    (eax >> 4) & 0xF
}

pub open spec fn base_family(eax: u32) -> u32 {
    (eax >> 8) & 0xF
}

pub open spec fn ext_model_field(eax: u32) -> u32 {
    (eax >> 16) & 0xF
}

pub open spec fn ext_family_field(eax: u32) -> u32 {
    (eax >> 20) & 0xFF
}

/// The displayed family adds the extended family exactly when the base
/// family is 0xF; the sum is reduced modulo 256 to fit the 8-bit field.
pub open spec fn effective_family(eax: u32) -> u8 {
    if base_family(eax) == 0xF {
        ((base_family(eax) + ext_family_field(eax)) % 0x100) as u8
    } else {
        base_family(eax) as u8
    }
}

/// The displayed model prepends the extended model exactly when the base
/// family is 0x6 or 0xF.
pub open spec fn effective_model(eax: u32) -> u8 {
    if base_family(eax) == 0x6 || base_family(eax) == 0xF {
        (ext_model_field(eax) * 0x10 + base_model(eax)) as u8
    } else {
        base_model(eax) as u8
    }
}

/// Decodes the vendor identification string from query(0, 0).
pub fn vendor_string(l0: &Leaf) -> (r: String)
    ensures
        r@ == vendor_text(*l0),
{
    let mut bytes: Vec<u8> = Vec::new();
    push_word_bytes(&mut bytes, l0.ebx);
    push_word_bytes(&mut bytes, l0.edx);
    push_word_bytes(&mut bytes, l0.ecx);
    proof {
        assert(bytes@ =~= vendor_bytes(*l0));
    }
    decode_trimmed(&bytes)
}

/// Decodes the human-readable brand string, or yields the empty string when
/// the extended query range does not reach the brand leaves.
pub fn brand_string(max_ext: u32, b0: &Leaf, b1: &Leaf, b2: &Leaf) -> (r: String)
    ensures
        r@ == brand_text(max_ext, *b0, *b1, *b2),
{
    if max_ext >= 0x8000_0004 {
        let mut bytes: Vec<u8> = Vec::new();
        push_word_bytes(&mut bytes, b0.eax);
        push_word_bytes(&mut bytes, b0.ebx);
        push_word_bytes(&mut bytes, b0.ecx);
        push_word_bytes(&mut bytes, b0.edx);
        push_word_bytes(&mut bytes, b1.eax);
        push_word_bytes(&mut bytes, b1.ebx);
        push_word_bytes(&mut bytes, b1.ecx);
        push_word_bytes(&mut bytes, b1.edx);
        push_word_bytes(&mut bytes, b2.eax);
        push_word_bytes(&mut bytes, b2.ebx);
        push_word_bytes(&mut bytes, b2.ecx);
        push_word_bytes(&mut bytes, b2.edx);
        proof {
            assert(bytes@ =~= brand_bytes(*b0, *b1, *b2));
        }
        decode_trimmed(&bytes)
    } else {
        String::new()
    }
}

/// Extracts the stepping from the first result word of query(1, 0).
pub fn stepping_of(eax: u32) -> (r: u8)
    ensures
        r == stepping_field(eax),
{
    proof {
        assert(eax & 0xF < 0x100) by (bit_vector);
    }
    (eax & 0xF) as u8
}

/// Composes the effective family from the first result word of query(1, 0).
pub fn family_of(eax: u32) -> (r: u8)
    ensures
        r == effective_family(eax),
{
    let bf: u32 = (eax >> 8) & 0xF;
    let ef: u32 = (eax >> 20) & 0xFF;
    proof {
        assert((eax >> 8) & 0xF < 0x10 && (eax >> 20) & 0xFF < 0x100) by (bit_vector);
    }
    if bf == 0xF {
        ((bf + ef) % 0x100) as u8
    } else {
        bf as u8
    }
}

/// Composes the effective model from the first result word of query(1, 0).
pub fn model_of(eax: u32) -> (r: u8)
    ensures
        r == effective_model(eax),
{
    let bf: u32 = (eax >> 8) & 0xF;
    let bm: u32 = (eax >> 4) & 0xF;
    let em: u32 = (eax >> 16) & 0xF;
    proof {
        assert(((eax >> 8) & 0xF) < 0x10 && ((eax >> 4) & 0xF) < 0x10 && ((eax >> 16) & 0xF)
            < 0x10) by (bit_vector);
    }
    if bf == 0x6 || bf == 0xF {
        (em * 0x10 + bm) as u8
    } else {
        bm as u8
    }
}

/// The closed set of vendor variants the topology and cache fallbacks
/// distinguish; every unrecognized vendor string maps to `Other`.
#[derive(Clone, Copy, Debug, PartialEq, Eq, Structural)]
pub enum Vendor {
    Intel,
    Amd,
    Other,
}

pub open spec fn vendor_of(v: Seq<char>) -> Vendor {
    if v == "AuthenticAMD"@ {
        Vendor::Amd
    } else if v == "GenuineIntel"@ {
        Vendor::Intel
    } else {
        Vendor::Other
    }
}

/// Classifies a decoded vendor string once; the fallback strategies branch
/// on the variant instead of re-matching the string.
pub fn classify_vendor(v: &String) -> (r: Vendor)
    ensures
        r == vendor_of(v@),
{
    let amd: String = "AuthenticAMD".to_owned();
    if v.eq(&amd) {
        Vendor::Amd
    } else {
        let intel: String = "GenuineIntel".to_owned();
        if v.eq(&intel) {
            Vendor::Intel
        } else {
            Vendor::Other
        }
    }
}

/// The three vendor words that encode a 12-character string, in the order
/// they appear in the result of query(0, 0): (second, fourth, third word).
pub open spec fn vendor_words(s: Seq<char>) -> (u32, u32, u32) {
    (le_word(s[0] as u8, s[1] as u8, s[2] as u8, s[3] as u8), le_word(
        s[4] as u8,
        s[5] as u8,
        s[6] as u8,
        s[7] as u8,
    ), le_word(s[8] as u8, s[9] as u8, s[10] as u8, s[11] as u8))
}

/// Four bytes packed into one 32-bit word, little endian.
pub open spec fn le_word(b0: u8, b1: u8, b2: u8, b3: u8) -> u32 {
    (b0 as u32) | ((b1 as u32) << 8) | ((b2 as u32) << 16) | ((b3 as u32) << 24)
}

/// An ASCII character survives the byte round trip.
proof fn lemma_decode_ascii(c: char)
    requires
        (c as u32) < 0x80,
    ensures
        crate::text::decode_byte(c as u8) == c,
{
    assert(c as u8 == (c as u32) as u8);
    assert((c as u8) < 0x80);
    vstd::utf8::char_u32_cast(c, c as u32);
    assert(((c as u8) as char) as u32 == c as u32);
    vstd::utf8::char_u32_cast((c as u8) as char, c as u32);
}

proof fn lemma_le_word_bytes(b0: u8, b1: u8, b2: u8, b3: u8)
    ensures
        word_bytes(le_word(b0, b1, b2, b3)) =~= seq![b0, b1, b2, b3],
{
    let x0 = b0 as u32;
    let x1 = b1 as u32;
    let x2 = b2 as u32;
    let x3 = b3 as u32;
    let w: u32 = x0 | (x1 << 8) | (x2 << 16) | (x3 << 24);
    assert(w & 0xFF == x0 && (w >> 8) & 0xFF == x1 && (w >> 16) & 0xFF == x2 && (w >> 24) & 0xFF
        == x3) by (bit_vector)
        requires
            x0 < 0x100 && x1 < 0x100 && x2 < 0x100 && x3 < 0x100 && w == (x0 | (x1 << 8) | (x2
                << 16) | (x3 << 24)),
    ;
    assert((x0 as u8) == b0 && (x1 as u8) == b1 && (x2 as u8) == b2 && (x3 as u8) == b3);
}

/// Vendor decoding round-trip: the four-byte words that encode a
/// 12-character ASCII vendor string decode back to exactly that string,
/// provided its first and last characters are not trimmable noise.
pub proof fn lemma_vendor_round_trip(s: Seq<char>, l0: Leaf)
    requires
        s.len() == 12,
        forall|i: int| 0 <= i < 12 ==> (s[i] as u32) < 0x80,
        !crate::text::is_noise_byte(s[0] as u8),
        !crate::text::is_noise_byte(s[11] as u8),
        l0.ebx == vendor_words(s).0,
        l0.edx == vendor_words(s).1,
        l0.ecx == vendor_words(s).2,
    ensures
        vendor_text(l0) == s,
{
    lemma_le_word_bytes(s[0] as u8, s[1] as u8, s[2] as u8, s[3] as u8);
    lemma_le_word_bytes(s[4] as u8, s[5] as u8, s[6] as u8, s[7] as u8);
    lemma_le_word_bytes(s[8] as u8, s[9] as u8, s[10] as u8, s[11] as u8);
    let bytes = vendor_bytes(l0);
    assert(bytes =~= s.map_values(|c: char| c as u8));
    assert(!crate::text::is_noise_byte(bytes[0]));
    assert(!crate::text::is_noise_byte(bytes.last()));
    assert(crate::text::trim_start(bytes, crate::text::noise_pred()) == bytes);
    assert(crate::text::trim_end(bytes, crate::text::noise_pred()) == bytes);
    assert forall|i: int| 0 <= i < 12 implies crate::text::decode_byte(bytes[i]) == s[i] by {
        assert((s[i] as u32) < 0x80);
        lemma_decode_ascii(s[i]);
        assert(bytes[i] == s[i] as u8);
    }
    assert(vendor_text(l0) =~= s);
}

} // verus!
