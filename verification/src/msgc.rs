//! Coloured console printing support: the colour value handed to the host
//! console function, and the escaping that keeps user text from being
//! interpreted as format directives by the host's printf-style channel.

use vstd::prelude::*;

verus! {

/// How one character is escaped for the host's printf-style channel:
/// backslashes and percent signs are doubled, everything else passes
/// through.
pub open spec fn spec_escape_char(c: char) -> Seq<char> {
    if c == '\\' {
        seq!['\\', '\\']
    } else if c == '%' {
        seq!['%', '%']
    } else {
        seq![c]
    }
}

/// The whole escaping: each character replaced by its escape.
pub open spec fn spec_printf_escape(s: Seq<char>) -> Seq<char>
    decreases s.len(),
{
    if s.len() == 0 {
        Seq::empty()
    } else {
        spec_printf_escape(s.drop_last()) + spec_escape_char(s.last())
    }
}

/// Escapes text for the host's printf-style console channel: doubles every
/// backslash and percent sign, passes everything else through unchanged.
pub fn printf_escape(text: &str) -> (r: String)
    ensures
        r@ == spec_printf_escape(text@),
{
    proof {
        reveal_strlit("\\\\");
        reveal_strlit("%%");
    }
    let n = text.unicode_len();
    let mut out = String::new();
    let mut i: usize = 0;
    while i < n
        invariant
            i <= n,
            n == text@.len(),
            out@ == spec_printf_escape(text@.subrange(0, i as int)),
        decreases n - i,
    {
        let c = text.get_char(i);
        if c == '\\' {
            out.append("\\\\");
        } else if c == '%' {
            out.append("%%");
        } else {
            let piece = text.substring_char(i, i + 1);
            out.append(piece);
        }
        proof {
            reveal_strlit("\\\\");
            reveal_strlit("%%");
            assert(text@.subrange(0, i + 1).drop_last() =~= text@.subrange(0, i as int));
            assert(text@.subrange(0, i + 1).last() == text@[i as int]);
            assert(out@ =~= spec_printf_escape(text@.subrange(0, i + 1)));
        }
        i = i + 1;
    }
    proof {
        assert(text@.subrange(0, n as int) =~= text@);
    }
    out
}

/// An opaque colour as the host console function takes it: three channels
/// and an alpha that is always fully opaque.
#[derive(Clone, Copy, PartialEq, Eq, Structural, Debug)]
pub struct Color {
    r: u8,
    g: u8,
    b: u8,
    a: u8,
}

impl Color {
    /// The red channel.
    pub closed spec fn spec_r(&self) -> u8 {
        self.r
    }

    /// The green channel.
    pub closed spec fn spec_g(&self) -> u8 {
        self.g
    }

    /// The blue channel.
    pub closed spec fn spec_b(&self) -> u8 {
        self.b
    }

    /// The alpha channel.
    pub closed spec fn spec_a(&self) -> u8 {
        self.a
    }

    /// A fully opaque colour from its three channels.
    pub fn new(r: u8, g: u8, b: u8) -> (c: Color)
        ensures
            c.spec_r() == r,
            c.spec_g() == g,
            c.spec_b() == b,
            c.spec_a() == 255,
    {
        Color { r, g, b, a: 255 }
    }
}

} // verus!
