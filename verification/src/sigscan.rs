//! Symbol Resolver, pattern half: byte/wildcard signatures compiled from a
//! textual pattern, first-match scanning over a module's bytes, and the
//! relative-displacement decode that turns a match location into the real
//! target address.

use vstd::prelude::*;

verus! {

/// One position of a signature: a byte that must match exactly, or a
/// wildcard that matches any byte.
#[derive(Clone, Copy, PartialEq, Eq, Structural, Debug)]
pub enum SigToken {
    Byte(u8),
    Any,
}

/// Whether one signature position accepts one byte.
pub open spec fn tok_matches(t: SigToken, b: u8) -> bool {
    match t {
        SigToken::Byte(x) => b == x,
        SigToken::Any => true,
    }
}

/// Whether the whole signature matches the bytes starting at `pos`.
pub open spec fn sig_matches_at(hay: Seq<u8>, toks: Seq<SigToken>, pos: int) -> bool {
    &&& 0 <= pos
    &&& pos + toks.len() <= hay.len()
    &&& forall|j: int| 0 <= j < toks.len() ==> tok_matches(toks[j], hay[pos + j])
}

/// Value of a hexadecimal digit character, or -1 when the character is not
/// one.
pub open spec fn spec_hex_val(c: char) -> int {
    match c {
        '0' => 0,
        '1' => 1,
        '2' => 2,
        '3' => 3,
        '4' => 4,
        '5' => 5,
        '6' => 6,
        '7' => 7,
        '8' => 8,
        '9' => 9,
        'a' => 10,
        'A' => 10,
        'b' => 11,
        'B' => 11,
        'c' => 12,
        'C' => 12,
        'd' => 13,
        'D' => 13,
        'e' => 14,
        'E' => 14,
        'f' => 15,
        'F' => 15,
        _ => -1,
    }
}

fn hex_val(c: char) -> (r: i32)
    ensures
        r as int == spec_hex_val(c),
{
    match c {
        '0' => 0,
        '1' => 1,
        '2' => 2,
        '3' => 3,
        '4' => 4,
        '5' => 5,
        '6' => 6,
        '7' => 7,
        '8' => 8,
        '9' => 9,
        'a' => 10,
        'A' => 10,
        'b' => 11,
        'B' => 11,
        'c' => 12,
        'C' => 12,
        'd' => 13,
        'D' => 13,
        'e' => 14,
        'E' => 14,
        'f' => 15,
        'F' => 15,
        _ => -1,
    }
}

/// What one whitespace-separated word of a pattern denotes: `?` or `??` a
/// wildcard, two hexadecimal digits a fixed byte, anything else nothing.
pub open spec fn spec_parse_token(t: Seq<char>) -> Option<SigToken> {
    if t =~= seq!['?'] || t =~= seq!['?', '?'] {
        Some(SigToken::Any)
    } else if t.len() == 2 && spec_hex_val(t[0]) >= 0 && spec_hex_val(t[1]) >= 0 {
        Some(SigToken::Byte((spec_hex_val(t[0]) * 16 + spec_hex_val(t[1])) as u8))
    } else {
        None
    }
}

/// Parse of a whole pattern: words separated by spaces, each a token;
/// `cur` holds the characters of the word in progress.
pub open spec fn spec_parse_tokens(s: Seq<char>, cur: Seq<char>) -> Option<Seq<SigToken>>
    decreases s.len(),
{
    if s.len() == 0 {
        if cur.len() == 0 {
            Some(Seq::empty())
        } else {
            match spec_parse_token(cur) {
                Some(t) => Some(seq![t]),
                None => None,
            }
        }
    } else if s[0] == ' ' {
        if cur.len() == 0 {
            spec_parse_tokens(s.drop_first(), Seq::empty())
        } else {
            match spec_parse_token(cur) {
                Some(t) => match spec_parse_tokens(s.drop_first(), Seq::empty()) {
                    Some(rest) => Some(seq![t] + rest),
                    None => None,
                },
                None => None,
            }
        }
    } else {
        spec_parse_tokens(s.drop_first(), cur.push(s[0]))
    }
}

/// The tokens a pattern string denotes, or nothing when it is malformed.
pub open spec fn spec_parse_signature(s: Seq<char>) -> Option<Seq<SigToken>> {
    spec_parse_tokens(s, Seq::empty())
}

fn parse_one_token(cur: &Vec<char>) -> (r: Option<SigToken>)
    ensures
        r == spec_parse_token(cur@),
{
    if cur.len() == 1 && cur[0] == '?' {
        proof {
            assert(cur@ =~= seq!['?']);
        }
        Some(SigToken::Any)
    } else if cur.len() == 2 && cur[0] == '?' && cur[1] == '?' {
        proof {
            assert(cur@ =~= seq!['?', '?']);
        }
        Some(SigToken::Any)
    } else if cur.len() == 2 {
        let hi = hex_val(cur[0]);
        let lo = hex_val(cur[1]);
        if hi >= 0 && lo >= 0 {
            proof {
                assert(!(cur@ =~= seq!['?']) && !(cur@ =~= seq!['?', '?']));
            }
            Some(SigToken::Byte((hi * 16 + lo) as u8))
        } else {
            None
        }
    } else {
        None
    }
}

/// A compiled signature: the ordered tokens, and optionally the offset
/// within a match at which a 32-bit relative displacement sits, to be
/// decoded into the real target address.
pub struct Signature {
    tokens: Vec<SigToken>,
    rel32_offset: Option<usize>,
}

impl View for Signature {
    type V = Seq<SigToken>;

    closed spec fn view(&self) -> Seq<SigToken> {
        self.tokens@
    }
}

impl Signature {
    /// The decode rule: position of the displacement field within a match,
    /// if the signature carries one.
    pub closed spec fn spec_rel32_offset(&self) -> Option<usize> {
        self.rel32_offset
    }

    /// A signature is well formed when its decode rule fits inside the
    /// pattern: the four displacement bytes lie within a match.
    pub open spec fn wf(&self) -> bool {
        match self.spec_rel32_offset() {
            Some(off) => off + 4 <= self@.len(),
            None => true,
        }
    }

    /// Compiles a pattern string: whitespace-separated words, each either
    /// two hexadecimal digits (a fixed byte) or `?` / `??` (a wildcard).
    /// Returns `None` exactly when the pattern is malformed.
    pub fn parse(pattern: &str) -> (r: Option<Signature>)
        ensures
            match r {
                Some(sig) => Some(sig@) == spec_parse_signature(pattern@) && sig.wf()
                    && sig.spec_rel32_offset() is None,
                None => spec_parse_signature(pattern@) is None,
            },
    {
        let n = pattern.unicode_len();
        let mut tokens: Vec<SigToken> = Vec::new();
        let mut cur: Vec<char> = Vec::new();
        let mut i: usize = 0;
        proof {
            assert(pattern@.skip(0) =~= pattern@);
            let o = spec_parse_signature(pattern@);
            if o is Some {
                assert(Seq::<SigToken>::empty() + o->0 =~= o->0);
            }
        }
        while i < n
            invariant
                i <= n,
                n == pattern@.len(),
                spec_parse_signature(pattern@) == compose(
                    tokens@,
                    spec_parse_tokens(pattern@.skip(i as int), cur@),
                ),
            decreases n - i,
        {
            let ghost s_i = pattern@.skip(i as int);
            let c = pattern.get_char(i);
            proof {
                assert(s_i[0] == pattern@[i as int]);
                assert(s_i.drop_first() =~= pattern@.skip(i as int + 1));
            }
            if c == ' ' {
                if cur.len() > 0 {
                    let ghost old_tokens = tokens@;
                    match parse_one_token(&cur) {
                        Some(t) => {
                            tokens.push(t);
                            cur.clear();
                            proof {
                                let rest_opt = spec_parse_tokens(s_i.drop_first(), Seq::empty());
                                if rest_opt is Some {
                                    let rest = rest_opt->0;
                                    assert(old_tokens + (seq![t] + rest) =~= tokens@ + rest);
                                }
                            }
                        },
                        None => {
                            return None;
                        },
                    }
                } else {
                    proof {
                        assert(cur@ =~= Seq::<char>::empty());
                    }
                }
            } else {
                cur.push(c);
            }
            i = i + 1;
        }
        proof {
            assert(pattern@.skip(n as int) =~= Seq::<char>::empty());
        }
        if cur.len() > 0 {
            let ghost old_tokens = tokens@;
            match parse_one_token(&cur) {
                Some(t) => {
                    tokens.push(t);
                    proof {
                        assert(old_tokens + seq![t] =~= tokens@);
                    }
                },
                None => {
                    return None;
                },
            }
        } else {
            proof {
                assert(cur@ =~= Seq::<char>::empty());
                assert(tokens@ + Seq::<SigToken>::empty() =~= tokens@);
            }
        }
        Some(Signature { tokens, rel32_offset: None })
    }

    /// The same signature with a decode rule: the four bytes at `off` within
    /// a match hold a little-endian 32-bit displacement relative to the end
    /// of that field.
    pub fn with_rel32(self, off: usize) -> (r: Signature)
        requires
            off + 4 <= self@.len(),
        ensures
            r@ == self@,
            r.spec_rel32_offset() == Some(off),
            r.wf(),
    {
        Signature { tokens: self.tokens, rel32_offset: Some(off) }
    }

    /// Builds a signature directly from tokens, without a decode rule.
    pub fn from_tokens(tokens: Vec<SigToken>) -> (r: Signature)
        ensures
            r@ == tokens@,
            r.spec_rel32_offset() is None,
            r.wf(),
    {
        Signature { tokens, rel32_offset: None }
    }

    /// Number of tokens.
    pub fn len(&self) -> (r: usize)
        ensures
            r == self@.len(),
    {
        self.tokens.len()
    }

    /// Scans the bytes for the first position where the signature matches:
    /// fixed bytes must match exactly, wildcards match any byte. Returns the
    /// first match only; `None` exactly when no position matches.
    pub fn scan(&self, hay: &[u8]) -> (r: Option<usize>)
        ensures
            match r {
                Some(pos) => sig_matches_at(hay@, self@, pos as int) && forall|k: int|
                    0 <= k < pos ==> !sig_matches_at(hay@, self@, k),
                None => forall|k: int| !sig_matches_at(hay@, self@, k),
            },
    {
        let m = self.tokens.len();
        let n = hay.len();
        if m > n {
            return None;
        }
        let mut pos: usize = 0;
        while pos <= n - m
            invariant
                m <= n,
                m == self@.len(),
                n == hay@.len(),
                pos <= n - m + 1,
                forall|k: int| 0 <= k < pos ==> !sig_matches_at(hay@, self@, k),
            decreases n - pos,
        {
            let mut j: usize = 0;
            let mut hit = true;
            while j < m
                invariant
                    hit ==> forall|l: int|
                        0 <= l < j ==> tok_matches(self@[l], hay@[pos + l]),
                    !hit ==> !sig_matches_at(hay@, self@, pos as int),
                    j <= m,
                    m == self@.len(),
                    n == hay@.len(),
                    pos + m <= n,
                decreases m - j,
            {
                let ok = match self.tokens[j] {
                    SigToken::Byte(x) => hay[pos + j] == x,
                    SigToken::Any => true,
                };
                if !ok {
                    proof {
                        assert(!tok_matches(self@[j as int], hay@[pos + j]));
                    }
                    hit = false;
                    j = m;
                } else {
                    j = j + 1;
                }
            }
            if hit {
                proof {
                    assert(sig_matches_at(hay@, self@, pos as int));
                }
                return Some(pos);
            }
            pos = pos + 1;
        }
        proof {
            assert forall|k: int| !sig_matches_at(hay@, self@, k) by {
                if 0 <= k && k + m <= n {
                    assert(k < pos);
                }
            }
        }
        None
    }
}

/// A parsed prefix joined with the parse of the rest of the pattern.
pub open spec fn compose(done: Seq<SigToken>, rest: Option<Seq<SigToken>>) -> Option<
    Seq<SigToken>,
> {
    match rest {
        Some(r) => Some(done + r),
        None => None,
    }
}


/// Little-endian 32-bit value of four bytes.
pub open spec fn spec_le32(b0: u8, b1: u8, b2: u8, b3: u8) -> int {
    b0 + 256 * b1 + 65536 * b2 + 16777216 * b3
}

/// The signed reading of a 32-bit value.
pub open spec fn spec_sign32(v: int) -> int {
    if v < 0x8000_0000 {
        v
    } else {
        v - 0x1_0000_0000
    }
}

/// A 64-bit address computation, reduced modulo the address space.
pub open spec fn wrap64(v: int) -> int {
    v % 0x1_0000_0000_0000_0000
}

proof fn lemma_wrap64_range(v: int)
    requires
        -0x1_0000_0000_0000_0000 < v < 2 * 0x1_0000_0000_0000_0000,
    ensures
        wrap64(v) == if v < 0 {
            v + 0x1_0000_0000_0000_0000
        } else if v >= 0x1_0000_0000_0000_0000 {
            v - 0x1_0000_0000_0000_0000
        } else {
            v
        },
{
    let m = 0x1_0000_0000_0000_0000;
    if v < 0 {
        vstd::arithmetic::div_mod::lemma_mod_add_multiples_vanish(v, m);
        vstd::arithmetic::div_mod::lemma_small_mod((v + m) as nat, m as nat);
    } else if v >= m {
        vstd::arithmetic::div_mod::lemma_mod_sub_multiples_vanish(v, m);
        vstd::arithmetic::div_mod::lemma_small_mod((v - m) as nat, m as nat);
    } else {
        vstd::arithmetic::div_mod::lemma_small_mod(v as nat, m as nat);
    }
}

/// Where a decode rule points: the address right after the displacement
/// field, plus the signed displacement read there; without a rule, the match
/// address itself.
pub open spec fn spec_sig_target(
    hay: Seq<u8>,
    rel32: Option<usize>,
    base: u64,
    pos: int,
) -> int {
    match rel32 {
        None => wrap64(base + pos),
        Some(off) => wrap64(
            base + pos + off + 4 + spec_sign32(
                spec_le32(hay[pos + off], hay[pos + off + 1], hay[pos + off + 2], hay[pos + off + 3]),
            ),
        ),
    }
}

fn read_le_u32(hay: &[u8], at: usize) -> (r: u32)
    requires
        at + 4 <= hay@.len(),
    ensures
        r as int == spec_le32(hay@[at as int], hay@[at + 1], hay@[at + 2], hay@[at + 3]),
{
    let b0 = hay[at] as u32;
    let b1 = hay[at + 1] as u32;
    let b2 = hay[at + 2] as u32;
    let b3 = hay[at + 3] as u32;
    b0 + 256 * b1 + 65536 * b2 + 16777216 * b3
}

fn u32_as_signed(v: u32) -> (r: i32)
    ensures
        r as int == spec_sign32(v as int),
{
    if v < 0x8000_0000 {
        v as i32
    } else {
        -((u32::MAX - v) as i32) - 1
    }
}

fn wrap_add(x: u64, y: u64) -> (r: u64)
    ensures
        r as int == wrap64(x + y),
{
    let r = x.wrapping_add(y);
    proof {
        lemma_wrap64_range(x + y);
    }
    r
}

fn rel32_target(base: u64, pos: usize, off: usize, disp: i32) -> (r: u64)
    ensures
        r as int == wrap64(base + pos + off + 4 + disp),
{
    let a = wrap_add(base, pos as u64);
    let b = wrap_add(a, off as u64);
    let c = wrap_add(b, 4u64);
    let r = c.wrapping_add_signed(disp as i64);
    proof {
        let m: int = 0x1_0000_0000_0000_0000;
        vstd::arithmetic::div_mod::lemma_add_mod_noop_right(off as int, base + pos, m);
        assert(b as int == wrap64(base + pos + off));
        vstd::arithmetic::div_mod::lemma_add_mod_noop_right(4int, base + pos + off, m);
        assert(c as int == wrap64(base + pos + off + 4));
        lemma_wrap64_range(c + disp);
        vstd::arithmetic::div_mod::lemma_add_mod_noop_right(
            disp as int,
            base + pos + off + 4,
            m,
        );
        assert(r as int == wrap64(base + pos + off + 4 + disp));
    }
    r
}

impl Signature {
    /// Applies the decode rule to a match at `pos`: reads the little-endian
    /// 32-bit displacement at the rule's offset and adds it to the address
    /// immediately following the displacement field; without a rule, returns
    /// the match address itself.
    pub fn decode(&self, base: u64, hay: &[u8], pos: usize) -> (r: u64)
        requires
            self.wf(),
            sig_matches_at(hay@, self@, pos as int),
        ensures
            r as int == spec_sig_target(hay@, self.spec_rel32_offset(), base, pos as int),
    {
        match self.rel32_offset() {
            None => wrap_add(base, pos as u64),
            Some(off) => {
                let n = hay.len();
                proof {
                    assert(pos + off + 4 <= n);
                }
                let v = read_le_u32(hay, pos + off);
                let disp = u32_as_signed(v);
                rel32_target(base, pos, off, disp)
            },
        }
    }

    /// The decode rule, readable at run time.
    pub fn rel32_offset(&self) -> (r: Option<usize>)
        ensures
            r == self.spec_rel32_offset(),
    {
        self.rel32_offset
    }

    /// Scans the bytes and, on the first match, decodes the target address.
    /// `None` exactly when no position matches.
    pub fn resolve(&self, base: u64, hay: &[u8]) -> (r: Option<u64>)
        requires
            self.wf(),
        ensures
            match r {
                Some(addr) => exists|pos: int|
                    #![auto]
                    sig_matches_at(hay@, self@, pos) && (forall|k: int|
                        0 <= k < pos ==> !sig_matches_at(hay@, self@, k)) && addr as int
                        == spec_sig_target(hay@, self.spec_rel32_offset(), base, pos),
                None => forall|k: int| !sig_matches_at(hay@, self@, k),
            },
    {
        match self.scan(hay) {
            Some(pos) => Some(self.decode(base, hay, pos)),
            None => None,
        }
    }
}

} // verus!
