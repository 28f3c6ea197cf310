//! Deterministic, self-describing binary codec primitives.
//!
//! Every structure that crosses the wire is built from two primitives: a
//! *header* announcing a major type (unsigned integer, byte string, or
//! array) together with a length, and raw payload bytes.  Headers use the
//! shortest of five forms (immediate, 1-, 2-, 4- or 8-byte big-endian
//! length), so encoding is canonical: equal values produce equal bytes.
//! The module proves that parsing inverts encoding.

use vstd::prelude::*;

verus! {

/// Major type of an unsigned integer item.
pub open spec fn major_uint() -> nat {
    0
}

/// Major type of a byte-string item.
pub open spec fn major_bytes() -> nat {
    2
}

/// Major type of an array item.
pub open spec fn major_array() -> nat {
    4
}

/// 256 to the power `w`: the number of values a `w`-byte big-endian
/// integer can take.
pub open spec fn pow256(w: nat) -> nat
    decreases w,
{
    if w == 0 {
        1
    } else {
        256 * pow256((w - 1) as nat)
    }
}

/// The `w`-byte big-endian encoding of `x`.
pub open spec fn be_bytes(x: nat, w: nat) -> Seq<u8>
    decreases w,
{
    if w == 0 {
        Seq::empty()
    } else {
        be_bytes(x / 256, (w - 1) as nat).push((x % 256) as u8)
    }
}

/// The value a big-endian byte string denotes.
pub open spec fn from_be(s: Seq<u8>) -> nat
    decreases s.len(),
{
    if s.len() == 0 {
        0
    } else {
        from_be(s.drop_last()) * 256 + s.last() as nat
    }
}

pub proof fn lemma_be_bytes_len(x: nat, w: nat)
    ensures
        be_bytes(x, w).len() == w,
    decreases w,
{
    if w > 0 {
        lemma_be_bytes_len(x / 256, (w - 1) as nat);
    }
}

pub proof fn lemma_be_round_trip(x: nat, w: nat)
    requires
        x < pow256(w),
    ensures
        from_be(be_bytes(x, w)) == x,
    decreases w,
{
    if w == 0 {
    } else {
        let hi = x / 256;
        assert(hi < pow256((w - 1) as nat)) by {
            if hi >= pow256((w - 1) as nat) {
                assert(x >= 256 * pow256((w - 1) as nat)) by (nonlinear_arith)
                    requires
                        hi == x / 256,
                        hi >= pow256((w - 1) as nat),
                ;
            }
        }
        lemma_be_round_trip(hi, (w - 1) as nat);
        lemma_be_bytes_len(hi, (w - 1) as nat);
        let s = be_bytes(x, w);
        assert(s.drop_last() =~= be_bytes(hi, (w - 1) as nat));
        assert(s.last() == (x % 256) as u8);
        assert(from_be(s) == hi * 256 + x % 256);
    }
}

/// Widths of the five header forms, indexed by length.
pub open spec fn len_width(len: nat) -> nat {
    if len < 24 {
        0
    } else if len < pow256(1) {
        1
    } else if len < pow256(2) {
        2
    } else if len < pow256(4) {
        4
    } else {
        8
    }
}

/// The code carried in the low five bits of the first header byte.
pub open spec fn len_code(len: nat) -> nat {
    if len < 24 {
        len
    } else if len < pow256(1) {
        24
    } else if len < pow256(2) {
        25
    } else if len < pow256(4) {
        26
    } else {
        27
    }
}

/// The canonical header announcing an item of major type `major` and
/// length (or value, for unsigned integers) `len`.
pub open spec fn header(major: nat, len: nat) -> Seq<u8> {
    seq![(major * 32 + len_code(len)) as u8] + be_bytes(len, len_width(len))
}

/// Number of bytes `header(major, len)` occupies.
pub open spec fn header_len(len: nat) -> nat {
    1 + len_width(len)
}

pub proof fn lemma_header_len(major: nat, len: nat)
    ensures
        header(major, len).len() == header_len(len),
{
    lemma_be_bytes_len(len, len_width(len));
}

/// Parse a header at the front of `s`: the major type, the announced
/// length, and the number of bytes consumed.
pub open spec fn parse_header(s: Seq<u8>) -> Option<(nat, nat, nat)> {
    if s.len() == 0 {
        None
    } else {
        let b = s[0] as nat;
        let major = b / 32;
        let code = b % 32;
        if code < 24 {
            Some((major, code, 1))
        } else if code == 24 && s.len() >= 2 {
            Some((major, from_be(s.subrange(1, 2)), 2))
        } else if code == 25 && s.len() >= 3 {
            Some((major, from_be(s.subrange(1, 3)), 3))
        } else if code == 26 && s.len() >= 5 {
            Some((major, from_be(s.subrange(1, 5)), 5))
        } else if code == 27 && s.len() >= 9 {
            Some((major, from_be(s.subrange(1, 9)), 9))
        } else {
            None
        }
    }
}

/// Parsing inverts encoding for headers, whatever follows them.
pub proof fn lemma_parse_header(major: nat, len: nat, rest: Seq<u8>)
    requires
        major < 8,
        len < pow256(8),
    ensures
        parse_header(header(major, len) + rest) == Some((major, len, header_len(len))),
{
    let w = len_width(len);
    let code = len_code(len);
    lemma_be_bytes_len(len, w);
    let s = header(major, len) + rest;
    assert(s[0] == (major * 32 + code) as u8);
    assert(major * 32 + code < 256);
    let b = s[0] as nat;
    assert(b == major * 32 + code);
    assert(b / 32 == major && b % 32 == code) by (nonlinear_arith)
        requires
            b == major * 32 + code,
            major < 8,
            code < 32,
    ;
    if len < 24 {
        assert(parse_header(s) == Some((major, len, 1nat)));
    } else {
        assert(s.subrange(1, 1 + w as int) =~= be_bytes(len, w));
        lemma_be_round_trip(len, w);
        assert(from_be(s.subrange(1, 1 + w as int)) == len);
        if len < pow256(1) {
            assert(s.subrange(1, 2) == s.subrange(1, 1 + w as int));
        } else if len < pow256(2) {
            assert(s.subrange(1, 3) == s.subrange(1, 1 + w as int));
        } else if len < pow256(4) {
            assert(s.subrange(1, 5) == s.subrange(1, 1 + w as int));
        } else {
            assert(s.subrange(1, 9) == s.subrange(1, 1 + w as int));
        }
    }
}

/// A byte-string item: header then raw bytes.
pub open spec fn bstr(b: Seq<u8>) -> Seq<u8> {
    header(major_bytes(), b.len()) + b
}

/// Parse a byte-string item at the front of `s`: the bytes and the number
/// of input bytes consumed.
pub open spec fn parse_bstr(s: Seq<u8>) -> Option<(Seq<u8>, nat)> {
    match parse_header(s) {
        Some((major, len, consumed)) => {
            if major == major_bytes() && s.len() >= consumed + len {
                Some((s.subrange(consumed as int, (consumed + len) as int), consumed + len))
            } else {
                None
            }
        },
        None => None,
    }
}

/// Parsing inverts encoding for byte-string items, whatever follows them.
pub proof fn lemma_parse_bstr(b: Seq<u8>, rest: Seq<u8>)
    requires
        b.len() < pow256(8),
    ensures
        parse_bstr(bstr(b) + rest) == Some((b, bstr(b).len())),
        bstr(b).len() == header_len(b.len()) + b.len(),
{
    let s = bstr(b) + rest;
    let hl = header_len(b.len());
    lemma_header_len(major_bytes(), b.len());
    assert(header(major_bytes(), b.len()) + b + rest =~= s);
    assert((header(major_bytes(), b.len()) + b + rest).subrange(0, hl as int) =~= header(
        major_bytes(),
        b.len(),
    ));
    lemma_parse_header(major_bytes(), b.len(), b + rest);
    assert(s =~= header(major_bytes(), b.len()) + (b + rest));
    assert(parse_header(s) == Some((major_bytes(), b.len(), hl)));
    assert(s.subrange(hl as int, (hl + b.len()) as int) =~= b);
}

/// `pow256(8)` spelled out, so callers can bound `u64` values.
pub proof fn lemma_pow256_8()
    ensures
        pow256(8) == 0x1_0000_0000_0000_0000,
        pow256(4) == 0x1_0000_0000,
        pow256(2) == 0x1_0000,
        pow256(1) == 0x100,
{
    reveal_with_fuel(pow256, 9);
}

/// Append the `w`-byte big-endian encoding of `x` to `out`.
pub fn push_be(out: &mut Vec<u8>, x: u64, w: u8)
    ensures
        final(out)@ == old(out)@ + be_bytes(x as nat, w as nat),
    decreases w,
{
    if w == 0 {
        assert(old(out)@ + be_bytes(x as nat, 0) =~= old(out)@);
    } else {
        push_be(out, x / 256, w - 1);
        out.push((x % 256) as u8);
        assert(x as nat / 256 == (x / 256) as nat);
        assert((x % 256) as u8 == ((x as nat) % 256) as u8);
        assert(old(out)@ + be_bytes((x / 256) as nat, (w - 1) as nat) + seq![(x % 256) as u8]
            =~= old(out)@ + be_bytes(x as nat, w as nat));
    }
}

/// Append `header(major, len)` to `out`.
pub fn push_header(out: &mut Vec<u8>, major: u8, len: usize)
    requires
        major < 8,
    ensures
        final(out)@ == old(out)@ + header(major as nat, len as nat),
{
    proof {
        lemma_pow256_8();
    }
    let code: u8;
    let width: u8;
    if len < 24 {
        code = len as u8;
        width = 0;
    } else if len < 256 {
        code = 24;
        width = 1;
    } else if len < 65536 {
        code = 25;
        width = 2;
    } else if (len as u64) < 0x1_0000_0000u64 {
        code = 26;
        width = 4;
    } else {
        code = 27;
        width = 8;
    }
    out.push(major * 32 + code);
    push_be(out, len as u64, width);
    proof {
        assert(code as nat == len_code(len as nat));
        assert(width as nat == len_width(len as nat));
        assert(old(out)@ + seq![(major * 32 + code) as u8] + be_bytes(len as nat, width as nat)
            =~= old(out)@ + header(major as nat, len as nat));
    }
}

/// Read the `w`-byte big-endian integer at `s[pos..]`.
pub fn read_be(s: &[u8], pos: usize, w: usize) -> (r: u64)
    requires
        w <= 8,
        pos + w <= s@.len(),
    ensures
        r as nat == from_be(s@.subrange(pos as int, (pos + w) as int)),
{
    proof {
        lemma_pow256_8();
    }
    let n = s.len();
    let mut acc: u64 = 0;
    let mut i: usize = 0;
    proof {
        assert(s@.subrange(pos as int, pos as int) =~= Seq::<u8>::empty());
    }
    while i < w
        invariant
            i <= w <= 8,
            pos + w <= n == s@.len(),
            acc as nat == from_be(s@.subrange(pos as int, (pos + i) as int)),
            (acc as nat) < pow256(i as nat),
            pow256(8) == 0x1_0000_0000_0000_0000,
        decreases w - i,
    {
        let b = s[pos + i];
        proof {
            let cur = s@.subrange(pos as int, (pos + i) as int);
            let next = s@.subrange(pos as int, (pos + i + 1) as int);
            assert(next.drop_last() =~= cur);
            assert(next.last() == s@[pos + i]);
            assert(pow256((i + 1) as nat) == 256 * pow256(i as nat));
            assert((acc as nat * 256 + b as nat) < pow256((i + 1) as nat)) by (nonlinear_arith)
                requires
                    (acc as nat) < pow256(i as nat),
                    (b as nat) < 256,
                    pow256((i + 1) as nat) == 256 * pow256(i as nat),
            ;
            assert(pow256((i + 1) as nat) <= pow256(8)) by {
                lemma_pow256_monotone((i + 1) as nat, 8);
            }
        }
        acc = acc * 256 + (b as u64);
        i = i + 1;
    }
    acc
}

pub proof fn lemma_pow256_monotone(a: nat, b: nat)
    requires
        a <= b,
    ensures
        pow256(a) <= pow256(b),
    decreases b,
{
    if a < b {
        lemma_pow256_monotone(a, (b - 1) as nat);
        assert(pow256(b) == 256 * pow256((b - 1) as nat));
    }
}

/// Parse a header at `s[pos..]`: the major type, the announced length,
/// and the position just past the header.
pub fn parse_header_at(s: &[u8], pos: usize) -> (r: Option<(u8, u64, usize)>)
    requires
        pos <= s@.len(),
    ensures
        match parse_header(s@.subrange(pos as int, s@.len() as int)) {
            Some((major, len, consumed)) => r matches Some((m, l, p)) && m as nat == major
                && l as nat == len && p as nat == pos + consumed && p <= s@.len(),
            None => r is None,
        },
{
    let ghost suffix = s@.subrange(pos as int, s@.len() as int);
    if pos >= s.len() {
        return None;
    }
    let b = s[pos];
    let major = b / 32;
    let code = b % 32;
    proof {
        assert(suffix[0] == s@[pos as int]);
        lemma_pow256_8();
    }
    if code < 24 {
        Some((major, code as u64, pos + 1))
    } else {
        let width: usize;
        if code == 24 {
            width = 1;
        } else if code == 25 {
            width = 2;
        } else if code == 26 {
            width = 4;
        } else if code == 27 {
            width = 8;
        } else {
            return None;
        }
        if s.len() - pos < 1 + width {
            return None;
        }
        let value = read_be(s, pos + 1, width);
        proof {
            assert(suffix.subrange(1, (1 + width) as int) =~= s@.subrange(
                (pos + 1) as int,
                (pos + 1 + width) as int,
            ));
        }
        Some((major, value, pos + 1 + width))
    }
}

/// Parse a byte-string item at `s[pos..]`: the bytes and the position
/// just past the item.
pub fn parse_bstr_at(s: &[u8], pos: usize) -> (r: Option<(Vec<u8>, usize)>)
    requires
        pos <= s@.len(),
    ensures
        match parse_bstr(s@.subrange(pos as int, s@.len() as int)) {
            Some((b, consumed)) => r matches Some((v, p)) && v@ == b && p as nat == pos + consumed
                && p <= s@.len(),
            None => r is None,
        },
{
    let ghost suffix = s@.subrange(pos as int, s@.len() as int);
    match parse_header_at(s, pos) {
        None => None,
        Some((major, len, p)) => {
            if major != 2 {
                return None;
            }
            if len > (s.len() - p) as u64 {
                proof {
                    let ph = parse_header(suffix).unwrap();
                    assert(suffix.len() < (ph.2 + ph.1));
                }
                return None;
            }
            let l = len as usize;
            let v = crate::bytes::copy_range(s, p, p + l);
            proof {
                let ph = parse_header(suffix).unwrap();
                assert(suffix.len() >= ph.2 + ph.1);
                assert(suffix.subrange(ph.2 as int, (ph.2 + ph.1) as int) =~= s@.subrange(
                    p as int,
                    (p + l) as int,
                ));
            }
            Some((v, p + l))
        },
    }
}

} // verus!
