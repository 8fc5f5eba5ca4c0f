//! Capability flags: fixed bit positions of query(1, 0)'s third and fourth
//! result words and query(7, 0)'s second result word, scanned in one
//! canonical order. A flag whose bit is clear is omitted; no flag is ever
//! inserted twice.

use vstd::prelude::*;

use crate::query::Leaf;

verus! {

/// True when the given mask bits are set in the result word.
pub open spec fn has_bit(w: u32, mask: u32) -> bool {
    w & mask != 0
}

/// One step of the canonical scan: the name is appended exactly when its
/// bit was set.
pub open spec fn flag_step(s: Seq<Seq<char>>, cond: bool, x: Seq<char>) -> Seq<Seq<char>> {
    if cond {
        s.push(x)
    } else {
        s
    }
}

/// The capability names in canonical scan order: first the leaf-1 table,
/// then the leaf-7 table. A name is present exactly when its bit is set.
pub open spec fn flags_spec(l1: Leaf, l7: Leaf) -> Seq<Seq<char>> {
    let s = Seq::<Seq<char>>::empty();
    let s = flag_step(s, has_bit(l1.ecx, 1u32 << 23), "POP_CNT"@);
    let s = flag_step(s, has_bit(l1.edx, 1u32 << 25), "SSE"@);
    let s = flag_step(s, has_bit(l1.edx, 1u32 << 26), "SSE2"@);
    let s = flag_step(s, has_bit(l1.ecx, 1u32 << 0), "SSE3"@);
    let s = flag_step(s, has_bit(l1.ecx, 1u32 << 9), "SSSE3"@);
    let s = flag_step(s, has_bit(l1.ecx, 1u32 << 19), "SSE4.1"@);
    let s = flag_step(s, has_bit(l1.ecx, 1u32 << 20), "SSE4.2"@);
    let s = flag_step(s, has_bit(l1.ecx, 1u32 << 25), "AES"@);
    let s = flag_step(s, has_bit(l1.ecx, 1u32 << 28), "AVX"@);
    let s = flag_step(s, has_bit(l7.ebx, 1u32 << 5), "AVX2"@);
    let s = flag_step(s, has_bit(l7.ebx, 1u32 << 8), "BMI2"@);
    let s = flag_step(s, has_bit(l7.ebx, 1u32 << 16), "AVX512F"@);
    let s = flag_step(s, has_bit(l7.ebx, 1u32 << 30), "AVX512BW"@);
    let s = flag_step(s, has_bit(l7.ebx, 1u32 << 31), "AVX512V1"@);
    s
}

/// No capability name occurs twice.
pub open spec fn distinct_flags(s: Seq<Seq<char>>) -> bool {
    forall|i: int, j: int| 0 <= i < j < s.len() ==> s[i] != s[j]
}

/// The position of a capability name in the canonical scan order; zero for
/// anything that is not a capability name.
pub open spec fn flag_rank(x: Seq<char>) -> int {
    if x == "POP_CNT"@ {
        1
    } else if x == "SSE"@ {
        2
    } else if x == "SSE2"@ {
        3
    } else if x == "SSE3"@ {
        4
    } else if x == "SSSE3"@ {
        5
    } else if x == "SSE4.1"@ {
        6
    } else if x == "SSE4.2"@ {
        7
    } else if x == "AES"@ {
        8
    } else if x == "AVX"@ {
        9
    } else if x == "AVX2"@ {
        10
    } else if x == "BMI2"@ {
        11
    } else if x == "AVX512F"@ {
        12
    } else if x == "AVX512BW"@ {
        13
    } else if x == "AVX512V1"@ {
        14
    } else {
        0
    }
}

fn push_flag(v: &mut Vec<String>, name: &str)
    ensures
        final(v).deep_view() == old(v).deep_view().push(name@),
{
    v.push(name.to_owned());
    proof {
        assert(final(v).deep_view() =~= old(v).deep_view().push(name@));
    }
}

/// Scans the flag words and appends the detected capability names in the
/// canonical order, each at most once.
pub fn detect_flags(l1: &Leaf, l7: &Leaf) -> (r: Vec<String>)
    ensures
        r.deep_view() == flags_spec(*l1, *l7),
        distinct_flags(r.deep_view()),
{
    let mut v: Vec<String> = Vec::new();
    proof {
        assert(v.deep_view() =~= Seq::<Seq<char>>::empty());
    }
    if l1.ecx & (1u32 << 23) != 0 {
        push_flag(&mut v, "POP_CNT");
    }
    if l1.edx & (1u32 << 25) != 0 {
        push_flag(&mut v, "SSE");
    }
    if l1.edx & (1u32 << 26) != 0 {
        push_flag(&mut v, "SSE2");
    }
    if l1.ecx & (1u32 << 0) != 0 {
        push_flag(&mut v, "SSE3");
    }
    if l1.ecx & (1u32 << 9) != 0 {
        push_flag(&mut v, "SSSE3");
    }
    if l1.ecx & (1u32 << 19) != 0 {
        push_flag(&mut v, "SSE4.1");
    }
    if l1.ecx & (1u32 << 20) != 0 {
        push_flag(&mut v, "SSE4.2");
    }
    if l1.ecx & (1u32 << 25) != 0 {
        push_flag(&mut v, "AES");
    }
    if l1.ecx & (1u32 << 28) != 0 {
        push_flag(&mut v, "AVX");
    }
    if l7.ebx & (1u32 << 5) != 0 {
        push_flag(&mut v, "AVX2");
    }
    if l7.ebx & (1u32 << 8) != 0 {
        push_flag(&mut v, "BMI2");
    }
    if l7.ebx & (1u32 << 16) != 0 {
        push_flag(&mut v, "AVX512F");
    }
    if l7.ebx & (1u32 << 30) != 0 {
        push_flag(&mut v, "AVX512BW");
    }
    if l7.ebx & (1u32 << 31) != 0 {
        push_flag(&mut v, "AVX512V1");
    }
    proof {
        assert(v.deep_view() == flags_spec(*l1, *l7));
        lemma_flags_distinct(*l1, *l7);
    }
    v
}

/// Each capability name evaluates to its own position in the scan order.
#[verifier::rlimit(100)]
#[verifier::spinoff_prover]
proof fn lemma_flag_ranks()
    ensures
        flag_rank("POP_CNT"@) == 1,
        flag_rank("SSE"@) == 2,
        flag_rank("SSE2"@) == 3,
        flag_rank("SSE3"@) == 4,
        flag_rank("SSSE3"@) == 5,
        flag_rank("SSE4.1"@) == 6,
        flag_rank("SSE4.2"@) == 7,
        flag_rank("AES"@) == 8,
        flag_rank("AVX"@) == 9,
        flag_rank("AVX2"@) == 10,
        flag_rank("BMI2"@) == 11,
        flag_rank("AVX512F"@) == 12,
        flag_rank("AVX512BW"@) == 13,
        flag_rank("AVX512V1"@) == 14,
{
    reveal_strlit("POP_CNT");
    reveal_strlit("SSE");
    reveal_strlit("SSE2");
    reveal_strlit("SSE3");
    reveal_strlit("SSSE3");
    reveal_strlit("SSE4.1");
    reveal_strlit("SSE4.2");
    reveal_strlit("AES");
    reveal_strlit("AVX");
    reveal_strlit("AVX2");
    reveal_strlit("BMI2");
    reveal_strlit("AVX512F");
    reveal_strlit("AVX512BW");
    reveal_strlit("AVX512V1");
    assert("POP_CNT"@.len() == 7 && "SSE"@.len() == 3 && "SSE2"@.len() == 4 && "SSE3"@.len() == 4
        && "SSSE3"@.len() == 5 && "SSE4.1"@.len() == 6 && "SSE4.2"@.len() == 6 && "AES"@.len() == 3
        && "AVX"@.len() == 3 && "AVX2"@.len() == 4 && "BMI2"@.len() == 4 && "AVX512F"@.len() == 7
        && "AVX512BW"@.len() == 8 && "AVX512V1"@.len() == 8);
    assert("POP_CNT"@[0] == 'P' && "AVX512F"@[0] == 'A');
    assert("SSE"@[0] == 'S' && "AES"@[0] == 'A' && "AVX"@[0] == 'A' && "AES"@[1] == 'E'
        && "AVX"@[1] == 'V');
    assert("SSE2"@[0] == 'S' && "SSE3"@[0] == 'S' && "AVX2"@[0] == 'A' && "BMI2"@[0] == 'B'
        && "SSE2"@[3] == '2' && "SSE3"@[3] == '3');
    assert("SSE4.1"@[5] == '1' && "SSE4.2"@[5] == '2');
    assert("AVX512BW"@[6] == 'B' && "AVX512V1"@[6] == 'V');
}

/// The scan steps folded over a list of (bit set, name) items.
pub open spec fn scan_steps(items: Seq<(bool, Seq<char>)>) -> Seq<Seq<char>>
    decreases items.len(),
{
    if items.len() == 0 {
        Seq::<Seq<char>>::empty()
    } else {
        flag_step(scan_steps(items.drop_last()), items.last().0, items.last().1)
    }
}

/// A scan over items whose names rank strictly upward collects distinct
/// names whose ranks stay within the item count.
proof fn lemma_scan_steps_distinct(items: Seq<(bool, Seq<char>)>)
    requires
        forall|i: int| 0 <= i < items.len() ==> flag_rank((#[trigger] items[i]).1) == i + 1,
    ensures
        distinct_flags(scan_steps(items)),
        forall|m: int|
            0 <= m < scan_steps(items).len() ==> 1 <= flag_rank(
                #[trigger] scan_steps(items)[m],
            ) <= items.len(),
    decreases items.len(),
{
    if items.len() == 0 {
    } else {
        let prev = items.drop_last();
        assert(forall|i: int| 0 <= i < prev.len() ==> prev[i] == #[trigger] items[i]);
        lemma_scan_steps_distinct(prev);
        let s = scan_steps(prev);
        let x = items.last().1;
        let k = items.len() as int;
        assert(flag_rank(x) == k);
        if items.last().0 {
            let r = s.push(x);
            assert(scan_steps(items) == r);
            assert forall|m: int| 0 <= m < r.len() implies 1 <= flag_rank(#[trigger] r[m]) <= k by {
                if m < s.len() {
                    assert(r[m] == s[m]);
                    assert(1 <= flag_rank(s[m]) <= k - 1);
                } else {
                    assert(m == s.len() as int);
                    assert(r[s.len() as int] == x);
                }
            }
            assert forall|i: int, j: int| 0 <= i < j < r.len() implies r[i] != r[j] by {
                if j < r.len() - 1 {
                    assert(r[i] == s[i] && r[j] == s[j]);
                } else {
                    assert(r[j] == x);
                    if i < s.len() {
                        assert(r[i] == s[i]);
                        assert(flag_rank(r[i]) <= k - 1 && flag_rank(r[j]) == k);
                    }
                }
            }
        } else {
            assert(scan_steps(items) == s);
        }
    }
}

/// The fourteen scan items in canonical order.
pub open spec fn flag_items(l1: Leaf, l7: Leaf) -> Seq<(bool, Seq<char>)> {
    seq![
        (has_bit(l1.ecx, 1u32 << 23), "POP_CNT"@),
        (has_bit(l1.edx, 1u32 << 25), "SSE"@),
        (has_bit(l1.edx, 1u32 << 26), "SSE2"@),
        (has_bit(l1.ecx, 1u32 << 0), "SSE3"@),
        (has_bit(l1.ecx, 1u32 << 9), "SSSE3"@),
        (has_bit(l1.ecx, 1u32 << 19), "SSE4.1"@),
        (has_bit(l1.ecx, 1u32 << 20), "SSE4.2"@),
        (has_bit(l1.ecx, 1u32 << 25), "AES"@),
        (has_bit(l1.ecx, 1u32 << 28), "AVX"@),
        (has_bit(l7.ebx, 1u32 << 5), "AVX2"@),
        (has_bit(l7.ebx, 1u32 << 8), "BMI2"@),
        (has_bit(l7.ebx, 1u32 << 16), "AVX512F"@),
        (has_bit(l7.ebx, 1u32 << 30), "AVX512BW"@),
        (has_bit(l7.ebx, 1u32 << 31), "AVX512V1"@),
    ]
}

/// The canonical scan is the fold of the canonical items.
#[verifier::spinoff_prover]
proof fn lemma_flags_spec_is_scan(l1: Leaf, l7: Leaf)
    ensures
        flags_spec(l1, l7) == scan_steps(flag_items(l1, l7)),
{
    reveal_with_fuel(scan_steps, 15);
    let items = flag_items(l1, l7);
    let i13 = items.drop_last();
    let i12 = i13.drop_last();
    let i11 = i12.drop_last();
    let i10 = i11.drop_last();
    let i9 = i10.drop_last();
    let i8 = i9.drop_last();
    let i7 = i8.drop_last();
    let i6 = i7.drop_last();
    let i5 = i6.drop_last();
    let i4 = i5.drop_last();
    let i3 = i4.drop_last();
    let i2 = i3.drop_last();
    let i1 = i2.drop_last();
    let i0 = i1.drop_last();
    assert(i0 =~= items.subrange(0, 0));
    assert(i0.len() == 0);
    assert(scan_steps(items) == flag_step(scan_steps(i13), items.last().0, items.last().1));
    assert(flags_spec(l1, l7) == scan_steps(items));
}

/// The canonical scan inserts no capability name twice, whatever the flag
/// words hold.
#[verifier::spinoff_prover]
pub proof fn lemma_flags_distinct(l1: Leaf, l7: Leaf)
    ensures
        distinct_flags(flags_spec(l1, l7)),
{
    lemma_flag_ranks();
    let items = flag_items(l1, l7);
    assert forall|i: int| 0 <= i < items.len() implies flag_rank((#[trigger] items[i]).1) == i
        + 1 by {
        if i == 0 {
            assert(items[0].1 == "POP_CNT"@);
        } else if i == 1 {
            assert(items[1].1 == "SSE"@);
        } else if i == 2 {
            assert(items[2].1 == "SSE2"@);
        } else if i == 3 {
            assert(items[3].1 == "SSE3"@);
        } else if i == 4 {
            assert(items[4].1 == "SSSE3"@);
        } else if i == 5 {
            assert(items[5].1 == "SSE4.1"@);
        } else if i == 6 {
            assert(items[6].1 == "SSE4.2"@);
        } else if i == 7 {
            assert(items[7].1 == "AES"@);
        } else if i == 8 {
            assert(items[8].1 == "AVX"@);
        } else if i == 9 {
            assert(items[9].1 == "AVX2"@);
        } else if i == 10 {
            assert(items[10].1 == "BMI2"@);
        } else if i == 11 {
            assert(items[11].1 == "AVX512F"@);
        } else if i == 12 {
            assert(items[12].1 == "AVX512BW"@);
        } else {
            assert(items[13].1 == "AVX512V1"@);
        }
    }
    lemma_scan_steps_distinct(items);
    lemma_flags_spec_is_scan(l1, l7);
}

} // verus!
