//! Byte layouts shared by every part of the AnimX stream, and the routines
//! that append them to a sink.
use vstd::prelude::*;
use vstd::utf8::*;
use vstd::string::*;

verus! {

/// The `w` little-endian bytes of `x` (the high part beyond `w` bytes is dropped).
pub open spec fn le_bytes(x: nat, w: nat) -> Seq<u8>
    decreases w,
{
    if w == 0 {
        seq![]
    } else {
        seq![(x % 256) as u8] + le_bytes(x / 256, (w - 1) as nat)
    }
}

/// The number that little-endian bytes `b` stand for.
pub open spec fn le_value(b: Seq<u8>) -> nat
    decreases b.len(),
{
    if b.len() == 0 {
        0
    } else {
        b[0] as nat + 256 * le_value(b.drop_first())
    }
}

/// Each number of `s` as `w` little-endian bytes, one after the other.
pub open spec fn words_le(s: Seq<nat>, w: nat) -> Seq<u8>
    decreases s.len(),
{
    if s.len() == 0 {
        seq![]
    } else {
        words_le(s.drop_last(), w) + le_bytes(s.last(), w)
    }
}

/// The varint form of `n`: seven bits per byte, low group first, the high bit
/// set on every byte but the last.
pub open spec fn varint_bytes(n: nat) -> Seq<u8>
    decreases n,
{
    if n < 128 {
        seq![n as u8]
    } else {
        seq![(n % 128 + 128) as u8] + varint_bytes(n / 128)
    }
}

/// A string as it stands in the stream: its UTF-8 length as a varint, then its UTF-8 bytes.
pub open spec fn str_bytes(s: Seq<char>) -> Seq<u8> {
    varint_bytes(encode_utf8(s).len()) + encode_utf8(s)
}

/// Present-or-default for strings: the string, or the empty string when absent.
pub open spec fn opt_str_bytes(s: Option<Seq<char>>) -> Seq<u8> {
    match s {
        Some(t) => str_bytes(t),
        None => str_bytes(seq![]),
    }
}

/// Present-or-default for single-precision floats: the four bytes, or those of `0.0`.
pub open spec fn opt_f32_bytes(f: Option<u32>) -> Seq<u8> {
    match f {
        Some(b) => le_bytes(b as nat, 4),
        None => le_bytes(0, 4),
    }
}

/// The explicit-presence string of a keyframe value: `0` for the empty
/// string, else `1` and the string.
pub open spec fn nullable_str_bytes(s: Seq<char>) -> Seq<u8> {
    if s.len() == 0 {
        seq![0u8]
    } else {
        seq![1u8] + str_bytes(s)
    }
}

pub proof fn lemma_le_bytes_len(x: nat, w: nat)
    ensures
        le_bytes(x, w).len() == w,
    decreases w,
{
    if w > 0 {
        lemma_le_bytes_len(x / 256, (w - 1) as nat);
    }
}

/// Appends the `w` little-endian bytes of `x`.
pub fn push_le(out: &mut Vec<u8>, x: u64, w: usize)
    ensures
        final(out)@ == old(out)@ + le_bytes(x as nat, w as nat),
{
    let mut v: u64 = x;
    let mut i: usize = 0;
    while i < w
        invariant
            i <= w,
            out@ + le_bytes(v as nat, (w - i) as nat) == old(out)@ + le_bytes(x as nat, w as nat),
        decreases w - i,
    {
        let ghost before = out@;
        out.push((v % 256) as u8);
        assert(le_bytes(v as nat, (w - i) as nat) == seq![(v % 256) as u8] + le_bytes(
            (v / 256) as nat,
            (w - i - 1) as nat,
        ));
        assert(out@ + le_bytes((v / 256) as nat, (w - i - 1) as nat) =~= before + le_bytes(
            v as nat,
            (w - i) as nat,
        ));
        v = v / 256;
        i = i + 1;
    }
    assert(out@ =~= out@ + le_bytes(v as nat, 0));
}

/// Appends the varint form of `n`.
pub fn write_varint(out: &mut Vec<u8>, n: u64)
    ensures
        final(out)@ == old(out)@ + varint_bytes(n as nat),
{
    let mut v: u64 = n;
    while v > 127
        invariant
            out@ + varint_bytes(v as nat) == old(out)@ + varint_bytes(n as nat),
        decreases v,
    {
        let ghost before = out@;
        out.push((v % 128 + 128) as u8);
        assert(out@ + varint_bytes((v / 128) as nat) =~= before + varint_bytes(v as nat));
        v = v / 128;
    }
    out.push(v as u8);
    assert(out@ =~= old(out)@ + varint_bytes(n as nat));
}

/// Appends the bytes of `b` as they are.
pub fn push_bytes(out: &mut Vec<u8>, b: &[u8])
    ensures
        final(out)@ == old(out)@ + b@,
{
    let mut i: usize = 0;
    while i < b.len()
        invariant
            i <= b@.len(),
            out@ == old(out)@ + b@.subrange(0, i as int),
        decreases b@.len() - i,
    {
        out.push(b[i]);
        assert(b@.subrange(0, i + 1) =~= b@.subrange(0, i as int).push(b@[i as int]));
        i = i + 1;
    }
    assert(b@.subrange(0, b@.len() as int) =~= b@);
}

/// Appends a length-prefixed string.
pub fn write_string(out: &mut Vec<u8>, s: &str)
    ensures
        final(out)@ == old(out)@ + str_bytes(s@),
{
    let b = s.as_bytes();
    write_varint(out, b.len() as u64);
    push_bytes(out, b);
    assert(out@ =~= old(out)@ + str_bytes(s@));
}

/// Appends a header-level optional string by the present-or-default rule.
pub fn write_opt_string(out: &mut Vec<u8>, s: &Option<String>)
    ensures
        final(out)@ == old(out)@ + opt_str_bytes(
            match s {
                Some(t) => Some(t@),
                None => None,
            },
        ),
{
    match s {
        Some(t) => write_string(out, t.as_str()),
        None => {
            write_varint(out, 0);
            proof {
                assert(encode_utf8(seq![]) =~= Seq::<u8>::empty());
            }
            assert(out@ =~= old(out)@ + str_bytes(seq![]));
        },
    }
}

/// Appends a header-level optional float by the present-or-default rule.
pub fn write_opt_f32(out: &mut Vec<u8>, f: Option<u32>)
    ensures
        final(out)@ == old(out)@ + opt_f32_bytes(f),
{
    match f {
        Some(b) => push_le(out, b as u64, 4),
        None => push_le(out, 0, 4),
    }
}

/// Appends a keyframe string by the explicit-presence rule.
pub fn write_nullable_string(out: &mut Vec<u8>, s: &str)
    ensures
        final(out)@ == old(out)@ + nullable_str_bytes(s@),
{
    let b = s.as_bytes();
    if b.len() == 0 {
        proof {
            if s@.len() > 0 {
                assert(encode_utf8(s@) == encode_scalar(s@[0] as u32) + encode_utf8(s@.drop_first()));
                encode_utf8_first_scalar(s@);
            }
        }
        out.push(0u8);
    } else {
        proof {
            if s@.len() == 0 {
                assert(encode_utf8(s@) =~= Seq::<u8>::empty());
            }
        }
        out.push(1u8);
        write_string(out, s);
        assert(out@ =~= old(out)@ + nullable_str_bytes(s@));
    }
}


/// Appends each number of `a` as 1 little-endian bytes.
pub fn write_u8s(out: &mut Vec<u8>, a: &[u8])
    ensures
        final(out)@ == old(out)@ + words_le(a@.map_values(|x: u8| x as nat), 1),
{
    let mut i: usize = 0;
    assert(a@.subrange(0, 0).map_values(|x: u8| x as nat) =~= Seq::<nat>::empty());
    while i < a.len()
        invariant
            i <= a@.len(),
            out@ == old(out)@ + words_le(a@.subrange(0, i as int).map_values(|x: u8| x as nat), 1),
        decreases a@.len() - i,
    {
        let x = a[i];
        push_le(out, x as u64, 1);
        let ghost ws = a@.subrange(0, i + 1).map_values(|x: u8| x as nat);
        assert(ws.drop_last() =~= a@.subrange(0, i as int).map_values(|x: u8| x as nat));
        assert(ws.last() == x as nat);
        i = i + 1;
    }
    assert(a@.subrange(0, a@.len() as int) =~= a@);
}

/// Appends each number of `a` as 4 little-endian bytes.
pub fn write_i32s(out: &mut Vec<u8>, a: &[i32])
    ensures
        final(out)@ == old(out)@ + words_le(a@.map_values(|x: i32| (x as u32) as nat), 4),
{
    let mut i: usize = 0;
    assert(a@.subrange(0, 0).map_values(|x: i32| (x as u32) as nat) =~= Seq::<nat>::empty());
    while i < a.len()
        invariant
            i <= a@.len(),
            out@ == old(out)@ + words_le(a@.subrange(0, i as int).map_values(|x: i32| (x as u32) as nat), 4),
        decreases a@.len() - i,
    {
        let x = a[i];
        push_le(out, (x as u32) as u64, 4);
        let ghost ws = a@.subrange(0, i + 1).map_values(|x: i32| (x as u32) as nat);
        assert(ws.drop_last() =~= a@.subrange(0, i as int).map_values(|x: i32| (x as u32) as nat));
        assert(ws.last() == (x as u32) as nat);
        i = i + 1;
    }
    assert(a@.subrange(0, a@.len() as int) =~= a@);
}

/// Appends each number of `a` as 4 little-endian bytes.
pub fn write_u32s(out: &mut Vec<u8>, a: &[u32])
    ensures
        final(out)@ == old(out)@ + words_le(a@.map_values(|x: u32| x as nat), 4),
{
    let mut i: usize = 0;
    assert(a@.subrange(0, 0).map_values(|x: u32| x as nat) =~= Seq::<nat>::empty());
    while i < a.len()
        invariant
            i <= a@.len(),
            out@ == old(out)@ + words_le(a@.subrange(0, i as int).map_values(|x: u32| x as nat), 4),
        decreases a@.len() - i,
    {
        let x = a[i];
        push_le(out, x as u64, 4);
        let ghost ws = a@.subrange(0, i + 1).map_values(|x: u32| x as nat);
        assert(ws.drop_last() =~= a@.subrange(0, i as int).map_values(|x: u32| x as nat));
        assert(ws.last() == x as nat);
        i = i + 1;
    }
    assert(a@.subrange(0, a@.len() as int) =~= a@);
}

/// Appends each number of `a` as 8 little-endian bytes.
pub fn write_i64s(out: &mut Vec<u8>, a: &[i64])
    ensures
        final(out)@ == old(out)@ + words_le(a@.map_values(|x: i64| (x as u64) as nat), 8),
{
    let mut i: usize = 0;
    assert(a@.subrange(0, 0).map_values(|x: i64| (x as u64) as nat) =~= Seq::<nat>::empty());
    while i < a.len()
        invariant
            i <= a@.len(),
            out@ == old(out)@ + words_le(a@.subrange(0, i as int).map_values(|x: i64| (x as u64) as nat), 8),
        decreases a@.len() - i,
    {
        let x = a[i];
        push_le(out, x as u64, 8);
        let ghost ws = a@.subrange(0, i + 1).map_values(|x: i64| (x as u64) as nat);
        assert(ws.drop_last() =~= a@.subrange(0, i as int).map_values(|x: i64| (x as u64) as nat));
        assert(ws.last() == (x as u64) as nat);
        i = i + 1;
    }
    assert(a@.subrange(0, a@.len() as int) =~= a@);
}

/// Appends each number of `a` as 8 little-endian bytes.
pub fn write_u64s(out: &mut Vec<u8>, a: &[u64])
    ensures
        final(out)@ == old(out)@ + words_le(a@.map_values(|x: u64| x as nat), 8),
{
    let mut i: usize = 0;
    assert(a@.subrange(0, 0).map_values(|x: u64| x as nat) =~= Seq::<nat>::empty());
    while i < a.len()
        invariant
            i <= a@.len(),
            out@ == old(out)@ + words_le(a@.subrange(0, i as int).map_values(|x: u64| x as nat), 8),
        decreases a@.len() - i,
    {
        let x = a[i];
        push_le(out, x, 8);
        let ghost ws = a@.subrange(0, i + 1).map_values(|x: u64| x as nat);
        assert(ws.drop_last() =~= a@.subrange(0, i as int).map_values(|x: u64| x as nat));
        assert(ws.last() == x as nat);
        i = i + 1;
    }
    assert(a@.subrange(0, a@.len() as int) =~= a@);
}

/// One number is its own bytes.
pub proof fn lemma_words_le_one(x: nat, w: nat)
    ensures
        words_le(seq![x], w) == le_bytes(x, w),
{
    assert(seq![x].drop_last() =~= Seq::<nat>::empty());
    assert(words_le(seq![], w) =~= Seq::<u8>::empty());
    assert(words_le(seq![x], w) =~= le_bytes(x, w));
}

} // verus!
