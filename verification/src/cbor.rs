//! Binary items of the tunnel's frame payloads. Every payload field is one
//! self-describing item in the definite-length subset of CBOR that the tunnel
//! uses: unsigned integers (major type 0), byte strings (major type 2), text
//! strings (major type 3), and the two boolean simple values. Writers emit
//! the canonical (shortest) head for each item; readers accept any
//! definite-length head whose value fits the field.

use vstd::prelude::*;
use vstd::slice::{slice_index_get, slice_subrange, slice_to_vec};
use vstd::utf8::{decode_utf8, encode_utf8, valid_utf8};

verus! {

broadcast use vstd::utf8::group_utf8_lib;

/// The canonical head of an item: the major type in the upper three bits of
/// the first byte, and the argument `n` in its shortest following form.
pub open spec fn spec_head(major: u8, n: nat) -> Seq<u8>
    recommends
        major < 8,
        n < 0x1_0000_0000_0000_0000,
{
    if n < 24 {
        seq![(major * 32 + n) as u8]
    } else if n < 0x100 {
        seq![(major * 32 + 24) as u8, n as u8]
    } else if n < 0x10000 {
        seq![(major * 32 + 25) as u8, (n / 0x100) as u8, (n % 0x100) as u8]
    } else if n < 0x1_0000_0000 {
        seq![
            (major * 32 + 26) as u8,
            (n / 0x100_0000) as u8,
            ((n / 0x1_0000) % 0x100) as u8,
            ((n / 0x100) % 0x100) as u8,
            (n % 0x100) as u8,
        ]
    } else {
        seq![
            (major * 32 + 27) as u8,
            (n / 0x100_0000_0000_0000) as u8,
            ((n / 0x1_0000_0000_0000) % 0x100) as u8,
            ((n / 0x100_0000_0000) % 0x100) as u8,
            ((n / 0x1_0000_0000) % 0x100) as u8,
            ((n / 0x100_0000) % 0x100) as u8,
            ((n / 0x1_0000) % 0x100) as u8,
            ((n / 0x100) % 0x100) as u8,
            (n % 0x100) as u8,
        ]
    }
}

/// An unsigned-integer item.
pub open spec fn spec_uint_item(n: nat) -> Seq<u8> {
    spec_head(0, n)
}

/// A boolean item: one of the two simple values.
pub open spec fn spec_bool_item(v: bool) -> Seq<u8> {
    if v {
        seq![0xf5u8]
    } else {
        seq![0xf4u8]
    }
}

/// A byte-string item: a head carrying the length, then the bytes.
pub open spec fn spec_bytes_item(d: Seq<u8>) -> Seq<u8> {
    spec_head(2, d.len()) + d
}

/// A text-string item: a head carrying the length of the UTF-8 encoding of
/// the characters, then that encoding.
pub open spec fn spec_text_item(s: Seq<char>) -> Seq<u8> {
    spec_head(3, encode_utf8(s).len()) + encode_utf8(s)
}

/// Reads one head from the front of `b`: the major type, the argument, and
/// the bytes that follow the head. `None` when `b` is too short or the first
/// byte announces an indefinite length or a reserved form.
pub open spec fn spec_read_head(b: Seq<u8>) -> Option<(u8, nat, Seq<u8>)> {
    if b.len() < 1 {
        None
    } else {
        let major = b[0] / 32;
        let info = b[0] % 32;
        if info < 24 {
            Some((major, info as nat, b.skip(1)))
        } else if info == 24 {
            if b.len() < 2 {
                None
            } else {
                Some((major, b[1] as nat, b.skip(2)))
            }
        } else if info == 25 {
            if b.len() < 3 {
                None
            } else {
                Some((major, (b[1] as nat) * 0x100 + b[2] as nat, b.skip(3)))
            }
        } else if info == 26 {
            if b.len() < 5 {
                None
            } else {
                Some(
                    (
                        major,
                        (b[1] as nat) * 0x100_0000 + (b[2] as nat) * 0x1_0000 + (b[3] as nat)
                            * 0x100 + b[4] as nat,
                        b.skip(5),
                    ),
                )
            }
        } else if info == 27 {
            if b.len() < 9 {
                None
            } else {
                Some(
                    (
                        major,
                        (b[1] as nat) * 0x100_0000_0000_0000 + (b[2] as nat) * 0x1_0000_0000_0000
                            + (b[3] as nat) * 0x100_0000_0000 + (b[4] as nat) * 0x1_0000_0000 + (
                        b[5] as nat) * 0x100_0000 + (b[6] as nat) * 0x1_0000 + (b[7] as nat) * 0x100
                            + b[8] as nat,
                        b.skip(9),
                    ),
                )
            }
        } else {
            None
        }
    }
}

/// Reads one unsigned-integer item that fits a `u8` from the front of `b`.
pub open spec fn spec_read_u8(b: Seq<u8>) -> Option<(u8, Seq<u8>)> {
    match spec_read_head(b) {
        Some((major, n, rest)) => if major == 0 && n < 0x100 {
            Some(((n as u8), rest))
        } else {
            None
        },
        None => None,
    }
}

/// Reads one unsigned-integer item that fits a `u16` from the front of `b`.
pub open spec fn spec_read_u16(b: Seq<u8>) -> Option<(u16, Seq<u8>)> {
    match spec_read_head(b) {
        Some((major, n, rest)) => if major == 0 && n < 0x10000 {
            Some(((n as u16), rest))
        } else {
            None
        },
        None => None,
    }
}

/// Reads one boolean item from the front of `b`.
pub open spec fn spec_read_bool(b: Seq<u8>) -> Option<(bool, Seq<u8>)> {
    if b.len() < 1 {
        None
    } else if b[0] == 0xf4 {
        Some((false, b.skip(1)))
    } else if b[0] == 0xf5 {
        Some((true, b.skip(1)))
    } else {
        None
    }
}

/// Reads one byte-string item from the front of `b`.
pub open spec fn spec_read_bytes(b: Seq<u8>) -> Option<(Seq<u8>, Seq<u8>)> {
    match spec_read_head(b) {
        Some((major, n, rest)) => if major == 2 && n <= rest.len() {
            Some((rest.take(n as int), rest.skip(n as int)))
        } else {
            None
        },
        None => None,
    }
}

/// Reads one text-string item from the front of `b`; the payload must be
/// valid UTF-8.
pub open spec fn spec_read_text(b: Seq<u8>) -> Option<(Seq<char>, Seq<u8>)> {
    match spec_read_head(b) {
        Some((major, n, rest)) => if major == 3 && n <= rest.len() && valid_utf8(
            rest.take(n as int),
        ) {
            Some((decode_utf8(rest.take(n as int)), rest.skip(n as int)))
        } else {
            None
        },
        None => None,
    }
}

/// Byte-by-byte decomposition of a value below `2^64`: the eight big-endian
/// base-256 digits written by [`spec_head`] reassemble to the value.
proof fn lemma_u64_digits(n: nat)
    requires
        n < 0x1_0000_0000_0000_0000,
    ensures
        n / 0x100_0000_0000_0000 < 0x100,
        (n / 0x100_0000_0000_0000) * 0x100_0000_0000_0000 + ((n / 0x1_0000_0000_0000) % 0x100)
            * 0x1_0000_0000_0000 + ((n / 0x100_0000_0000) % 0x100) * 0x100_0000_0000 + ((n
            / 0x1_0000_0000) % 0x100) * 0x1_0000_0000 + ((n / 0x100_0000) % 0x100) * 0x100_0000 + ((
        n / 0x1_0000) % 0x100) * 0x1_0000 + ((n / 0x100) % 0x100) * 0x100 + n % 0x100 == n,
{
    let x = n as int;
    vstd::arithmetic::div_mod::lemma_div_denominator(x, 0x100, 0x100);
    vstd::arithmetic::div_mod::lemma_div_denominator(x, 0x1_0000, 0x100);
    vstd::arithmetic::div_mod::lemma_div_denominator(x, 0x100_0000, 0x100);
    vstd::arithmetic::div_mod::lemma_div_denominator(x, 0x1_0000_0000, 0x100);
    vstd::arithmetic::div_mod::lemma_div_denominator(x, 0x100_0000_0000, 0x100);
    vstd::arithmetic::div_mod::lemma_div_denominator(x, 0x1_0000_0000_0000, 0x100);
    let q1 = x / 0x100;
    let q2 = x / 0x1_0000;
    let q3 = x / 0x100_0000;
    let q4 = x / 0x1_0000_0000;
    let q5 = x / 0x100_0000_0000;
    let q6 = x / 0x1_0000_0000_0000;
    let q7 = x / 0x100_0000_0000_0000;
    vstd::arithmetic::div_mod::lemma_fundamental_div_mod(x, 0x100);
    vstd::arithmetic::div_mod::lemma_fundamental_div_mod(q1, 0x100);
    vstd::arithmetic::div_mod::lemma_fundamental_div_mod(q2, 0x100);
    vstd::arithmetic::div_mod::lemma_fundamental_div_mod(q3, 0x100);
    vstd::arithmetic::div_mod::lemma_fundamental_div_mod(q4, 0x100);
    vstd::arithmetic::div_mod::lemma_fundamental_div_mod(q5, 0x100);
    vstd::arithmetic::div_mod::lemma_fundamental_div_mod(q6, 0x100);
}

/// Reading a canonical head recovers the major type, the argument, and the
/// following bytes.
pub proof fn lemma_read_head(major: u8, n: nat, rest: Seq<u8>)
    requires
        major < 8,
        n < 0x1_0000_0000_0000_0000,
    ensures
        spec_read_head(spec_head(major, n) + rest) == Some((major, n, rest)),
{
    let b = spec_head(major, n) + rest;
    assert(b[0] == spec_head(major, n)[0]);
    if n < 24 {
        assert(b[0] == (major * 32 + n) as u8);
        assert(b[0] / 32 == major && b[0] % 32 == n) by (nonlinear_arith)
            requires
                major < 8,
                n < 24,
                b[0] == (major * 32 + n) as u8,
        ;
        assert(b.skip(1) =~= rest);
    } else if n < 0x100 {
        assert(b[0] / 32 == major && b[0] % 32 == 24) by (nonlinear_arith)
            requires
                major < 8,
                b[0] == (major * 32 + 24) as u8,
        ;
        assert(b[1] == n as u8);
        assert(b.skip(2) =~= rest);
    } else if n < 0x10000 {
        assert(b[0] / 32 == major && b[0] % 32 == 25) by (nonlinear_arith)
            requires
                major < 8,
                b[0] == (major * 32 + 25) as u8,
        ;
        assert(b[1] == (n / 0x100) as u8 && b[2] == (n % 0x100) as u8);
        assert((b[1] as nat) * 0x100 + b[2] as nat == n) by (nonlinear_arith)
            requires
                n < 0x10000,
                b[1] == (n / 0x100) as u8,
                b[2] == (n % 0x100) as u8,
        ;
        assert(b.skip(3) =~= rest);
    } else if n < 0x1_0000_0000 {
        assert(b[0] / 32 == major && b[0] % 32 == 26) by (nonlinear_arith)
            requires
                major < 8,
                b[0] == (major * 32 + 26) as u8,
        ;
        assert((b[1] as nat) * 0x100_0000 + (b[2] as nat) * 0x1_0000 + (b[3] as nat) * 0x100 + (
        b[4] as nat) == n) by (nonlinear_arith)
            requires
                0x10000 <= n < 0x1_0000_0000,
                b[1] == (n / 0x100_0000) as u8,
                b[2] == ((n / 0x1_0000) % 0x100) as u8,
                b[3] == ((n / 0x100) % 0x100) as u8,
                b[4] == (n % 0x100) as u8,
        ;
        assert(b.skip(5) =~= rest);
    } else {
        assert(b[0] / 32 == major && b[0] % 32 == 27) by (nonlinear_arith)
            requires
                major < 8,
                b[0] == (major * 32 + 27) as u8,
        ;
        lemma_u64_digits(n);
        assert((b[1] as nat) * 0x100_0000_0000_0000 + (b[2] as nat) * 0x1_0000_0000_0000 + (
        b[3] as nat) * 0x100_0000_0000 + (b[4] as nat) * 0x1_0000_0000 + (b[5] as nat) * 0x100_0000
            + (b[6] as nat) * 0x1_0000 + (b[7] as nat) * 0x100 + (b[8] as nat) == n);
        assert(b.skip(9) =~= rest);
    }
}

/// Reading after a canonical `u8` item recovers the value and the rest.
pub proof fn lemma_read_u8(v: u8, rest: Seq<u8>)
    ensures
        spec_read_u8(spec_uint_item(v as nat) + rest) == Some((v, rest)),
{
    lemma_read_head(0, v as nat, rest);
}

/// Reading after a canonical `u16` item recovers the value and the rest.
pub proof fn lemma_read_u16(v: u16, rest: Seq<u8>)
    ensures
        spec_read_u16(spec_uint_item(v as nat) + rest) == Some((v, rest)),
{
    lemma_read_head(0, v as nat, rest);
}

/// Reading after a boolean item recovers the value and the rest.
pub proof fn lemma_read_bool(v: bool, rest: Seq<u8>)
    ensures
        spec_read_bool(spec_bool_item(v) + rest) == Some((v, rest)),
{
    assert((spec_bool_item(v) + rest).skip(1) =~= rest);
}

/// Reading after a byte-string item recovers the bytes and the rest.
pub proof fn lemma_read_bytes(d: Seq<u8>, rest: Seq<u8>)
    requires
        d.len() < 0x1_0000_0000_0000_0000,
    ensures
        spec_read_bytes(spec_bytes_item(d) + rest) == Some((d, rest)),
{
    assert(spec_head(2, d.len()) + d + rest =~= spec_head(2, d.len()) + (d + rest));
    lemma_read_head(2, d.len(), d + rest);
    assert((d + rest).take(d.len() as int) =~= d);
    assert((d + rest).skip(d.len() as int) =~= rest);
}

/// Appends the bytes of a slice to a vector.
pub fn write_slice(out: &mut Vec<u8>, d: &[u8])
    ensures
        final(out)@ == old(out)@ + d@,
{
    let mut i: usize = 0;
    while i < d.len()
        invariant
            i <= d@.len(),
            out@ == old(out)@ + d@.take(i as int),
        decreases d@.len() - i,
    {
        out.push(*slice_index_get(d, i));
        i = i + 1;
        assert(out@ =~= old(out)@ + d@.take(i as int));
    }
    assert(d@.take(d@.len() as int) =~= d@);
}

/// Appends the canonical head for `major` and argument `n`.
pub fn write_head(out: &mut Vec<u8>, major: u8, n: u64)
    requires
        major < 8,
    ensures
        final(out)@ == old(out)@ + spec_head(major, n as nat),
{
    let base = major * 32;
    if n < 24 {
        out.push(base + n as u8);
        assert(out@ =~= old(out)@ + spec_head(major, n as nat));
    } else if n < 0x100 {
        out.push(base + 24);
        out.push(n as u8);
        assert(out@ =~= old(out)@ + spec_head(major, n as nat));
    } else if n < 0x10000 {
        out.push(base + 25);
        out.push((n / 0x100) as u8);
        out.push((n % 0x100) as u8);
        assert(out@ =~= old(out)@ + spec_head(major, n as nat));
    } else if n < 0x1_0000_0000 {
        out.push(base + 26);
        out.push((n / 0x100_0000) as u8);
        out.push(((n / 0x1_0000) % 0x100) as u8);
        out.push(((n / 0x100) % 0x100) as u8);
        out.push((n % 0x100) as u8);
        assert(out@ =~= old(out)@ + spec_head(major, n as nat));
    } else {
        out.push(base + 27);
        out.push((n / 0x100_0000_0000_0000) as u8);
        out.push(((n / 0x1_0000_0000_0000) % 0x100) as u8);
        out.push(((n / 0x100_0000_0000) % 0x100) as u8);
        out.push(((n / 0x1_0000_0000) % 0x100) as u8);
        out.push(((n / 0x100_0000) % 0x100) as u8);
        out.push(((n / 0x1_0000) % 0x100) as u8);
        out.push(((n / 0x100) % 0x100) as u8);
        out.push((n % 0x100) as u8);
        assert(out@ =~= old(out)@ + spec_head(major, n as nat));
    }
}

/// Appends an unsigned-integer item holding a `u8`.
pub fn write_u8_item(out: &mut Vec<u8>, v: u8)
    ensures
        final(out)@ == old(out)@ + spec_uint_item(v as nat),
{
    write_head(out, 0, v as u64);
}

/// Appends an unsigned-integer item holding a `u16`.
pub fn write_u16_item(out: &mut Vec<u8>, v: u16)
    ensures
        final(out)@ == old(out)@ + spec_uint_item(v as nat),
{
    write_head(out, 0, v as u64);
}

/// Appends a boolean item.
pub fn write_bool_item(out: &mut Vec<u8>, v: bool)
    ensures
        final(out)@ == old(out)@ + spec_bool_item(v),
{
    if v {
        out.push(0xf5);
    } else {
        out.push(0xf4);
    }
    assert(out@ =~= old(out)@ + spec_bool_item(v));
}

/// Appends a byte-string item.
pub fn write_bytes_item(out: &mut Vec<u8>, d: &[u8])
    ensures
        final(out)@ == old(out)@ + spec_bytes_item(d@),
{
    write_head(out, 2, d.len() as u64);
    write_slice(out, d);
    assert(out@ =~= old(out)@ + spec_bytes_item(d@));
}

/// Appends a text-string item.
pub fn write_text_item(out: &mut Vec<u8>, s: &str)
    ensures
        final(out)@ == old(out)@ + spec_text_item(s@),
{
    let bytes = s.as_bytes();
    write_head(out, 3, bytes.len() as u64);
    write_slice(out, bytes);
    assert(out@ =~= old(out)@ + spec_text_item(s@));
}

/// Relies on `String::from_utf8`: it succeeds exactly on byte sequences that
/// are valid UTF-8, and the resulting string holds the characters that those
/// bytes encode.
#[verifier::external_body]
fn bytes_to_string(v: Vec<u8>) -> (r: Option<String>)
    ensures
        match r {
            Some(s) => valid_utf8(v@) && s@ == decode_utf8(v@),
            None => !valid_utf8(v@),
        },
{
    String::from_utf8(v).ok()
}

/// Reads one head at byte offset `at`, returning the major type, the
/// argument, and the offset just past the head.
pub fn read_head(b: &[u8], at: usize) -> (r: Option<(u8, u64, usize)>)
    requires
        at <= b@.len(),
    ensures
        match r {
            Some(t) => at < t.2 && t.2 <= b@.len() && spec_read_head(b@.skip(at as int)) == Some(
                (t.0, t.1 as nat, b@.skip(t.2 as int)),
            ),
            None => spec_read_head(b@.skip(at as int)) is None,
        },
{
    let ghost s = b@.skip(at as int);
    let len = b.len();
    if len - at < 1 {
        return None;
    }
    let fb = *slice_index_get(b, at);
    assert(s[0] == b@[at as int]);
    let major = fb / 32;
    let info = fb % 32;
    if info < 24 {
        assert(s.skip(1) =~= b@.skip(at as int + 1));
        Some((major, info as u64, at + 1))
    } else if info == 24 {
        if len - at < 2 {
            return None;
        }
        let x1 = *slice_index_get(b, at + 1);
        assert(s[1] == b@[at as int + 1]);
        assert(s.skip(2) =~= b@.skip(at as int + 2));
        Some((major, x1 as u64, at + 2))
    } else if info == 25 {
        if len - at < 3 {
            return None;
        }
        let x1 = *slice_index_get(b, at + 1);
        let x2 = *slice_index_get(b, at + 2);
        assert(s[1] == b@[at as int + 1] && s[2] == b@[at as int + 2]);
        assert(s.skip(3) =~= b@.skip(at as int + 3));
        Some((major, (x1 as u64) * 0x100 + x2 as u64, at + 3))
    } else if info == 26 {
        if len - at < 5 {
            return None;
        }
        let x1 = *slice_index_get(b, at + 1);
        let x2 = *slice_index_get(b, at + 2);
        let x3 = *slice_index_get(b, at + 3);
        let x4 = *slice_index_get(b, at + 4);
        assert(s[1] == b@[at as int + 1] && s[2] == b@[at as int + 2] && s[3] == b@[at as int + 3]
            && s[4] == b@[at as int + 4]);
        assert(s.skip(5) =~= b@.skip(at as int + 5));
        Some(
            (
                major,
                (x1 as u64) * 0x100_0000 + (x2 as u64) * 0x1_0000 + (x3 as u64) * 0x100 + x4 as u64,
                at + 5,
            ),
        )
    } else if info == 27 {
        if len - at < 9 {
            return None;
        }
        let x1 = *slice_index_get(b, at + 1);
        let x2 = *slice_index_get(b, at + 2);
        let x3 = *slice_index_get(b, at + 3);
        let x4 = *slice_index_get(b, at + 4);
        let x5 = *slice_index_get(b, at + 5);
        let x6 = *slice_index_get(b, at + 6);
        let x7 = *slice_index_get(b, at + 7);
        let x8 = *slice_index_get(b, at + 8);
        assert(s[1] == b@[at as int + 1] && s[2] == b@[at as int + 2] && s[3] == b@[at as int + 3]
            && s[4] == b@[at as int + 4] && s[5] == b@[at as int + 5] && s[6] == b@[at as int + 6]
            && s[7] == b@[at as int + 7] && s[8] == b@[at as int + 8]);
        assert(s.skip(9) =~= b@.skip(at as int + 9));
        let v = (x1 as u64) * 0x100_0000_0000_0000 + (x2 as u64) * 0x1_0000_0000_0000 + (x3 as u64)
            * 0x100_0000_0000 + (x4 as u64) * 0x1_0000_0000 + (x5 as u64) * 0x100_0000 + (x6 as u64)
            * 0x1_0000 + (x7 as u64) * 0x100 + x8 as u64;
        Some((major, v, at + 9))
    } else {
        None
    }
}

/// Reads one unsigned-integer item that fits a `u8` at offset `at`.
pub fn read_u8_item(b: &[u8], at: usize) -> (r: Option<(u8, usize)>)
    requires
        at <= b@.len(),
    ensures
        match r {
            Some(t) => at < t.1 && t.1 <= b@.len() && spec_read_u8(b@.skip(at as int)) == Some(
                (t.0, b@.skip(t.1 as int)),
            ),
            None => spec_read_u8(b@.skip(at as int)) is None,
        },
{
    match read_head(b, at) {
        Some((major, n, at2)) => {
            if major == 0 && n < 0x100 {
                Some((n as u8, at2))
            } else {
                None
            }
        },
        None => None,
    }
}

/// Reads one unsigned-integer item that fits a `u16` at offset `at`.
pub fn read_u16_item(b: &[u8], at: usize) -> (r: Option<(u16, usize)>)
    requires
        at <= b@.len(),
    ensures
        match r {
            Some(t) => at < t.1 && t.1 <= b@.len() && spec_read_u16(b@.skip(at as int)) == Some(
                (t.0, b@.skip(t.1 as int)),
            ),
            None => spec_read_u16(b@.skip(at as int)) is None,
        },
{
    match read_head(b, at) {
        Some((major, n, at2)) => {
            if major == 0 && n < 0x10000 {
                Some((n as u16, at2))
            } else {
                None
            }
        },
        None => None,
    }
}

/// Reads one boolean item at offset `at`.
pub fn read_bool_item(b: &[u8], at: usize) -> (r: Option<(bool, usize)>)
    requires
        at <= b@.len(),
    ensures
        match r {
            Some(t) => at < t.1 && t.1 <= b@.len() && spec_read_bool(b@.skip(at as int)) == Some(
                (t.0, b@.skip(t.1 as int)),
            ),
            None => spec_read_bool(b@.skip(at as int)) is None,
        },
{
    let ghost s = b@.skip(at as int);
    if b.len() - at < 1 {
        return None;
    }
    let fb = *slice_index_get(b, at);
    assert(s[0] == b@[at as int]);
    assert(s.skip(1) =~= b@.skip(at as int + 1));
    if fb == 0xf4 {
        Some((false, at + 1))
    } else if fb == 0xf5 {
        Some((true, at + 1))
    } else {
        None
    }
}

/// Reads one byte-string item at offset `at`, copying out its payload.
pub fn read_bytes_item(b: &[u8], at: usize) -> (r: Option<(Vec<u8>, usize)>)
    requires
        at <= b@.len(),
    ensures
        match r {
            Some(t) => at < t.1 && t.1 <= b@.len() && spec_read_bytes(b@.skip(at as int)) == Some(
                (t.0@, b@.skip(t.1 as int)),
            ),
            None => spec_read_bytes(b@.skip(at as int)) is None,
        },
{
    match read_head(b, at) {
        Some((major, n, at2)) => {
            if major != 2 {
                return None;
            }
            let avail = b.len() - at2;
            if n > avail as u64 {
                assert(n as nat > b@.skip(at2 as int).len());
                return None;
            }
            let nn = n as usize;
            let end = at2 + nn;
            let payload = slice_to_vec(slice_subrange(b, at2, end));
            assert(b@.skip(at2 as int).take(n as int) =~= b@.subrange(at2 as int, end as int));
            assert(b@.skip(at2 as int).skip(n as int) =~= b@.skip(end as int));
            Some((payload, end))
        },
        None => None,
    }
}

/// Reads one text-string item at offset `at`, decoding its payload as UTF-8.
pub fn read_text_item(b: &[u8], at: usize) -> (r: Option<(String, usize)>)
    requires
        at <= b@.len(),
    ensures
        match r {
            Some(t) => at < t.1 && t.1 <= b@.len() && spec_read_text(b@.skip(at as int)) == Some(
                (t.0@, b@.skip(t.1 as int)),
            ),
            None => spec_read_text(b@.skip(at as int)) is None,
        },
{
    match read_head(b, at) {
        Some((major, n, at2)) => {
            if major != 3 {
                return None;
            }
            let avail = b.len() - at2;
            if n > avail as u64 {
                assert(n as nat > b@.skip(at2 as int).len());
                return None;
            }
            let nn = n as usize;
            let end = at2 + nn;
            let payload = slice_to_vec(slice_subrange(b, at2, end));
            assert(b@.skip(at2 as int).take(n as int) =~= b@.subrange(at2 as int, end as int));
            assert(b@.skip(at2 as int).skip(n as int) =~= b@.skip(end as int));
            match bytes_to_string(payload) {
                Some(s) => Some((s, end)),
                None => None,
            }
        },
        None => None,
    }
}

/// Reading after a text-string item recovers the characters and the rest.
pub proof fn lemma_read_text(s: Seq<char>, rest: Seq<u8>)
    requires
        encode_utf8(s).len() < 0x1_0000_0000_0000_0000,
    ensures
        spec_read_text(spec_text_item(s) + rest) == Some((s, rest)),
{
    let e = encode_utf8(s);
    assert(spec_head(3, e.len()) + e + rest =~= spec_head(3, e.len()) + (e + rest));
    lemma_read_head(3, e.len(), e + rest);
    assert((e + rest).take(e.len() as int) =~= e);
    assert((e + rest).skip(e.len() as int) =~= rest);
}

} // verus!
