//! Fixed-width alignment of display strings.
//!
//! A string shorter than the requested width is padded with spaces; widths
//! count bytes, as the surrounding column layout does. A string at least as
//! wide as requested comes back unchanged.

use vstd::prelude::*;

use vstd::utf8::encode_utf8;

use crate::text::push_char;

verus! {

/// `n` spaces.
pub open spec fn spaces(n: nat) -> Seq<char> {
    Seq::new(n, |i: int| ' ')
}

/// The byte width a string occupies.
pub open spec fn byte_width(s: Seq<char>) -> nat {
    encode_utf8(s).len()
}

/// `s` padded on the left up to `width` bytes.
pub open spec fn aligned_right(s: Seq<char>, width: nat) -> Seq<char> {
    if byte_width(s) >= width {
        s
    } else {
        spaces((width - byte_width(s)) as nat) + s
    }
}

/// `s` padded on the right up to `width` bytes.
pub open spec fn aligned_left(s: Seq<char>, width: nat) -> Seq<char> {
    if byte_width(s) >= width {
        s
    } else {
        s + spaces((width - byte_width(s)) as nat)
    }
}

/// `s` padded on both sides up to `width` bytes, the odd space going to the
/// right.
pub open spec fn aligned_center(s: Seq<char>, width: nat) -> Seq<char> {
    if byte_width(s) >= width {
        s
    } else {
        let gap = (width - byte_width(s)) as nat;
        spaces(gap / 2) + s + spaces(gap / 2) + spaces(gap % 2)
    }
}

/// Appends `n` spaces.
fn push_spaces(r: &mut String, n: usize)
    ensures
        final(r)@ == old(r)@ + spaces(n as nat),
{
    let mut k: usize = 0;
    while k < n
        invariant
            0 <= k <= n,
            r@ =~= old(r)@ + spaces(k as nat),
        decreases n - k,
    {
        push_char(r, ' ');
        proof {
            assert(old(r)@ + spaces((k + 1) as nat) =~= (old(r)@ + spaces(k as nat)).push(' '));
        }
        k = k + 1;
    }
    proof {
        assert(final(r)@ =~= old(r)@ + spaces(n as nat));
    }
}

pub trait AlignString {
    fn align_to_right(&self, len: usize) -> (r: String)
        ensures
            r@ == aligned_right(self.chars_view(), len as nat),
    ;

    fn align_to_left(&self, len: usize) -> (r: String)
        ensures
            r@ == aligned_left(self.chars_view(), len as nat),
    ;

    fn align_to_center(&self, len: usize) -> (r: String)
        ensures
            r@ == aligned_center(self.chars_view(), len as nat),
    ;

    spec fn chars_view(&self) -> Seq<char>;
}

impl AlignString for str {
    open spec fn chars_view(&self) -> Seq<char> {
        self@
    }

    fn align_to_right(&self, len: usize) -> (r: String)
        ensures
            r@ == aligned_right(self@, len as nat),
    {
        let string_len: usize = self.as_bytes().len();
        if string_len >= len {
            return self.to_owned();
        }
        let mut r = String::new();
        push_spaces(&mut r, len - string_len);
        r.append(self);
        proof {
            assert(string_len == byte_width(self@));
            assert(r@ =~= spaces((len - string_len) as nat) + self@);
            assert(r@ =~= aligned_right(self@, len as nat));
        }
        r
    }

    fn align_to_left(&self, len: usize) -> (r: String)
        ensures
            r@ == aligned_left(self@, len as nat),
    {
        let string_len: usize = self.as_bytes().len();
        if string_len >= len {
            return self.to_owned();
        }
        let mut r = self.to_owned();
        push_spaces(&mut r, len - string_len);
        proof {
            assert(r@ =~= aligned_left(self@, len as nat));
        }
        r
    }

    fn align_to_center(&self, len: usize) -> (r: String)
        ensures
            r@ == aligned_center(self@, len as nat),
    {
        let string_len: usize = self.as_bytes().len();
        if string_len >= len {
            return self.to_owned();
        }
        let gap: usize = len - string_len;
        let mut r = String::new();
        push_spaces(&mut r, gap / 2);
        r.append(self);
        push_spaces(&mut r, gap / 2);
        push_spaces(&mut r, gap % 2);
        proof {
            assert(r@ =~= aligned_center(self@, len as nat));
        }
        r
    }
}

} // verus!
