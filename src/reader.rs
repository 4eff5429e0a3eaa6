//! Reading the AnimX stream: a cursor over the bytes, and the meaning of each
//! primitive read as a parse of the byte sequence from a position.
use vstd::prelude::*;
use vstd::utf8::*;
use crate::error::AnimXError;
use crate::wire::{le_value};

verus! {

/// The outcome of parsing from a position: the value and the position after it, or the error.
pub type Parsed<T> = Result<(T, int), AnimXError>;

/// `n` raw bytes.
pub open spec fn parse_bytes(s: Seq<u8>, p: int, n: nat) -> Parsed<Seq<u8>> {
    if 0 <= p && p + n <= s.len() {
        Ok((s.subrange(p, p + n), p + n))
    } else {
        Err(AnimXError::TruncatedInput)
    }
}

/// One byte.
pub open spec fn parse_u8(s: Seq<u8>, p: int) -> Parsed<u8> {
    if 0 <= p < s.len() {
        Ok((s[p], p + 1))
    } else {
        Err(AnimXError::TruncatedInput)
    }
}

/// One byte read as a flag: any nonzero byte is `true`.
pub open spec fn parse_bool(s: Seq<u8>, p: int) -> Parsed<bool> {
    match parse_u8(s, p) {
        Ok((b, q)) => Ok((b != 0, q)),
        Err(e) => Err(e),
    }
}

/// A little-endian number of `w` bytes.
pub open spec fn parse_le(s: Seq<u8>, p: int, w: nat) -> Parsed<nat> {
    match parse_bytes(s, p, w) {
        Ok((b, q)) => Ok((le_value(b), q)),
        Err(e) => Err(e),
    }
}

/// A varint from `p`, given the value `acc` of the groups already read and
/// the weight `mult` of the next group.
pub open spec fn parse_varint_from(s: Seq<u8>, p: int, acc: nat, mult: nat) -> Parsed<u64>
    decreases s.len() - p,
{
    if p < 0 || p >= s.len() {
        Err(AnimXError::TruncatedInput)
    } else {
        let next = acc + (s[p] % 128) as nat * mult;
        if next > u64::MAX {
            Err(AnimXError::VarIntOverflow)
        } else if s[p] < 128 {
            Ok((next as u64, p + 1))
        } else {
            parse_varint_from(s, p + 1, next, mult * 128)
        }
    }
}

/// A varint: 7-bit groups, low group first, until a byte with the high bit clear.
pub open spec fn parse_varint(s: Seq<u8>, p: int) -> Parsed<u64> {
    parse_varint_from(s, p, 0, 1)
}

/// A length-prefixed UTF-8 string.
pub open spec fn parse_string(s: Seq<u8>, p: int) -> Parsed<Seq<char>> {
    match parse_varint(s, p) {
        Err(e) => Err(e),
        Ok((n, q)) => match parse_bytes(s, q, n as nat) {
            Err(e) => Err(e),
            Ok((b, r)) => if valid_utf8(b) {
                Ok((decode_utf8(b), r))
            } else {
                Err(AnimXError::InvalidText)
            },
        },
    }
}

/// A presence flag, then the string if it is present.
pub open spec fn parse_nullable_string(s: Seq<u8>, p: int) -> Parsed<Option<Seq<char>>> {
    match parse_bool(s, p) {
        Err(e) => Err(e),
        Ok((false, q)) => Ok((None, q)),
        Ok((true, q)) => match parse_string(s, q) {
            Err(e) => Err(e),
            Ok((t, r)) => Ok((Some(t), r)),
        },
    }
}

/// Relies on std's `String::from_utf8`: it succeeds exactly on valid UTF-8,
/// and the string it returns is made of those bytes.
#[verifier::external_body]
fn string_from_utf8(bytes: Vec<u8>) -> (r: Option<String>)
    ensures
        r is Some <==> valid_utf8(bytes@),
        r is Some ==> encode_utf8(r->0@) == bytes@,
{
    String::from_utf8(bytes).ok()
}

/// A cursor over the bytes of an AnimX stream. It never moves back.
pub struct AnimXReader {
    data: Vec<u8>,
    pos: usize,
}

impl AnimXReader {
    /// The whole stream.
    pub closed spec fn bytes(&self) -> Seq<u8> {
        self.data@
    }

    /// How many bytes have been consumed.
    pub closed spec fn position(&self) -> int {
        self.pos as int
    }

    pub closed spec fn wf(&self) -> bool {
        self.pos <= self.data@.len()
    }

    /// A reader at the start of `data`.
    pub fn new(data: Vec<u8>) -> (r: Self)
        ensures
            r.wf(),
            r.bytes() == data@,
            r.position() == 0,
    {
        AnimXReader { data, pos: 0 }
    }

    /// How many bytes have been consumed.
    pub fn consumed(&self) -> (r: usize)
        ensures
            r == self.position(),
    {
        self.pos
    }

    /// Fills `buf` with the next `buf.len()` bytes.
    pub fn read_into(&mut self, buf: &mut [u8]) -> (r: Result<(), AnimXError>)
        requires
            old(self).wf(),
        ensures
            final(self).wf(),
            final(self).bytes() == old(self).bytes(),
            final(buf)@.len() == old(buf)@.len(),
            match parse_bytes(old(self).bytes(), old(self).position(), old(buf)@.len()) {
                Ok((b, q)) => r is Ok && final(buf)@ == b && final(self).position() == q,
                Err(e) => r == Err::<(), AnimXError>(e) && final(self).position() == old(
                    self,
                ).position(),
            },
    {
        let n = buf.len();
        if n > self.data.len() - self.pos {
            return Err(AnimXError::TruncatedInput);
        }
        let mut i: usize = 0;
        while i < n
            invariant
                self.wf(),
                self.pos + n <= self.data@.len(),
                self.data@.len() <= usize::MAX,
                self.data@ == old(self).data@,
                self.pos == old(self).pos,
                i <= n,
                n == buf@.len(),
                forall|j: int| 0 <= j < i ==> buf@[j] == self.data@[self.pos + j],
            decreases n - i,
        {
            buf[i] = self.data[self.pos + i];
            i = i + 1;
        }
        assert(buf@ =~= self.data@.subrange(self.pos as int, self.pos + n));
        self.pos = self.pos + n;
        Ok(())
    }

    /// The next `len` bytes.
    pub fn read_bytes(&mut self, len: usize) -> (r: Result<Vec<u8>, AnimXError>)
        requires
            old(self).wf(),
        ensures
            final(self).wf(),
            final(self).bytes() == old(self).bytes(),
            match parse_bytes(old(self).bytes(), old(self).position(), len as nat) {
                Ok((b, q)) => r is Ok && r->Ok_0@ == b && final(self).position() == q,
                Err(e) => r == Err::<Vec<u8>, AnimXError>(e) && final(self).position() == old(
                    self,
                ).position(),
            },
    {
        if len > self.data.len() - self.pos {
            return Err(AnimXError::TruncatedInput);
        }
        let mut out: Vec<u8> = Vec::new();
        let mut i: usize = 0;
        while i < len
            invariant
                self.pos + len <= self.data@.len(),
                self.data@.len() <= usize::MAX,
                i <= len,
                out@ == self.data@.subrange(self.pos as int, self.pos + i),
            decreases len - i,
        {
            out.push(self.data[self.pos + i]);
            assert(out@ =~= self.data@.subrange(self.pos as int, self.pos + i + 1));
            i = i + 1;
        }
        self.pos = self.pos + len;
        Ok(out)
    }

    /// The next byte.
    pub fn read_u8(&mut self) -> (r: Result<u8, AnimXError>)
        requires
            old(self).wf(),
        ensures
            final(self).wf(),
            final(self).bytes() == old(self).bytes(),
            match parse_u8(old(self).bytes(), old(self).position()) {
                Ok((b, q)) => r == Ok::<u8, AnimXError>(b) && final(self).position() == q,
                Err(e) => r == Err::<u8, AnimXError>(e) && final(self).position() == old(
                    self,
                ).position(),
            },
    {
        if self.pos < self.data.len() {
            let b = self.data[self.pos];
            self.pos = self.pos + 1;
            Ok(b)
        } else {
            Err(AnimXError::TruncatedInput)
        }
    }

    /// The next byte as a flag: any nonzero byte is `true`.
    pub fn read_bool(&mut self) -> (r: Result<bool, AnimXError>)
        requires
            old(self).wf(),
        ensures
            final(self).wf(),
            final(self).bytes() == old(self).bytes(),
            match parse_bool(old(self).bytes(), old(self).position()) {
                Ok((b, q)) => r == Ok::<bool, AnimXError>(b) && final(self).position() == q,
                Err(e) => r == Err::<bool, AnimXError>(e) && final(self).position() == old(
                    self,
                ).position(),
            },
    {
        let b = self.read_u8()?;
        Ok(b != 0)
    }

    /// The next `w` bytes as a little-endian number.
    pub fn read_le(&mut self, w: usize) -> (r: Result<u64, AnimXError>)
        requires
            old(self).wf(),
            w <= 8,
        ensures
            final(self).wf(),
            final(self).bytes() == old(self).bytes(),
            match parse_le(old(self).bytes(), old(self).position(), w as nat) {
                Ok((v, q)) => r is Ok && r->Ok_0 == v && final(self).position() == q,
                Err(e) => r == Err::<u64, AnimXError>(e) && final(self).position() == old(
                    self,
                ).position(),
            },
    {
        if w > self.data.len() - self.pos {
            return Err(AnimXError::TruncatedInput);
        }
        let ghost b = self.data@.subrange(self.pos as int, self.pos + w);
        let mut v: u64 = 0;
        let mut i: usize = w;
        while i > 0
            invariant
                self.pos + w <= self.data@.len(),
                self.data@.len() <= usize::MAX,
                b == self.data@.subrange(self.pos as int, self.pos + w),
                i <= w <= 8,
                v == le_value(b.subrange(i as int, w as int)),
                v < pow256((w - i) as nat),
            decreases i,
        {
            let ghost tail = b.subrange(i as int, w as int);
            let ghost longer = b.subrange(i - 1, w as int);
            assert(longer.drop_first() =~= tail);
            let d = self.data[self.pos + i - 1];
            proof {
                lemma_pow256_bound((w - i) as nat);
                lemma_pow256_bound((w - i + 1) as nat);
                assert(v * 256 + d < pow256((w - i + 1) as nat)) by (nonlinear_arith)
                    requires
                        v < pow256((w - i) as nat),
                        d < 256,
                        pow256((w - i + 1) as nat) == 256 * pow256((w - i) as nat),
                ;
            }
            v = v * 256 + d as u64;
            i = i - 1;
        }
        assert(b.subrange(0, w as int) =~= b);
        self.pos = self.pos + w;
        Ok(v)
    }

    /// The next four bytes as a little-endian signed integer.
    pub fn read_i32(&mut self) -> (r: Result<i32, AnimXError>)
        requires
            old(self).wf(),
        ensures
            final(self).wf(),
            final(self).bytes() == old(self).bytes(),
            match parse_le(old(self).bytes(), old(self).position(), 4) {
                Ok((v, q)) => r is Ok && r->Ok_0 == (v as u32) as i32 && final(self).position()
                    == q,
                Err(e) => r == Err::<i32, AnimXError>(e) && final(self).position() == old(
                    self,
                ).position(),
            },
    {
        let v = self.read_le(4)?;
        Ok((v as u32) as i32)
    }

    /// The next four bytes as the bit pattern of a single-precision float.
    pub fn read_f32(&mut self) -> (r: Result<u32, AnimXError>)
        requires
            old(self).wf(),
        ensures
            final(self).wf(),
            final(self).bytes() == old(self).bytes(),
            match parse_le(old(self).bytes(), old(self).position(), 4) {
                Ok((v, q)) => r is Ok && r->Ok_0 == v && final(self).position() == q,
                Err(e) => r == Err::<u32, AnimXError>(e) && final(self).position() == old(
                    self,
                ).position(),
            },
    {
        let v = self.read_le(4)?;
        proof {
            let b = self.data@.subrange(old(self).pos as int, old(self).pos + 4);
            lemma_le_value_bound(b);
            lemma_pow256_bound(4);
            assert(v == le_value(b));
            assert(v < 0x1_0000_0000);
        }
        Ok(v as u32)
    }

    /// The next varint.
    pub fn read_varint(&mut self) -> (r: Result<u64, AnimXError>)
        requires
            old(self).wf(),
        ensures
            final(self).wf(),
            final(self).bytes() == old(self).bytes(),
            match parse_varint(old(self).bytes(), old(self).position()) {
                Ok((v, q)) => r == Ok::<u64, AnimXError>(v) && final(self).position() == q,
                Err(e) => r == Err::<u64, AnimXError>(e),
            },
    {
        let ghost s = self.data@;
        let mut acc: u64 = 0;
        let mut mult: u128 = 1;
        let ghost mut m: nat = 1;
        loop
            invariant
                self.wf(),
                self.data@ == s,
                s == old(self).data@,
                m >= 1,
                m <= u64::MAX ==> mult == m,
                m > u64::MAX ==> mult > u64::MAX,
                mult <= u64::MAX as u128 * 128,
                parse_varint(s, old(self).pos as int) == parse_varint_from(
                    s,
                    self.pos as int,
                    acc as nat,
                    m,
                ),
            decreases s.len() - self.pos,
        {
            if self.pos >= self.data.len() {
                return Err(AnimXError::TruncatedInput);
            }
            let b = self.data[self.pos];
            let g: u128 = (b % 128) as u128;
            let next: u128;
            if g == 0 {
                next = acc as u128;
            } else if mult > u64::MAX as u128 {
                proof {
                    assert(g * m >= m) by (nonlinear_arith)
                        requires
                            g >= 1,
                    ;
                }
                return Err(AnimXError::VarIntOverflow);
            } else {
                proof {
                    assert(g * mult <= 127 * (u64::MAX as u128)) by (nonlinear_arith)
                        requires
                            g < 128,
                            mult <= u64::MAX,
                    ;
                }
                next = acc as u128 + g * mult;
            }
            assert(next == acc as nat + (s[self.pos as int] % 128) as nat * m) by (nonlinear_arith)
                requires
                    g == s[self.pos as int] % 128,
                    g == 0 ==> next == acc,
                    g != 0 ==> next == acc + g * mult && mult == m,
            ;
            if next > u64::MAX as u128 {
                return Err(AnimXError::VarIntOverflow);
            }
            self.pos = self.pos + 1;
            if b < 128 {
                return Ok(next as u64);
            }
            acc = next as u64;
            if mult <= u64::MAX as u128 {
                mult = mult * 128;
            }
            proof {
                assert(m * 128 >= m) by (nonlinear_arith)
                    requires
                        m >= 1,
                ;
                m = m * 128;
            }
        }
    }

    /// The next length-prefixed UTF-8 string.
    pub fn read_string(&mut self) -> (r: Result<String, AnimXError>)
        requires
            old(self).wf(),
        ensures
            final(self).wf(),
            final(self).bytes() == old(self).bytes(),
            match parse_string(old(self).bytes(), old(self).position()) {
                Ok((t, q)) => r is Ok && r->Ok_0@ == t && final(self).position() == q,
                Err(e) => r == Err::<String, AnimXError>(e),
            },
    {
        let n = self.read_varint()?;
        if n > (self.data.len() - self.pos) as u64 {
            return Err(AnimXError::TruncatedInput);
        }
        let b = self.read_bytes(n as usize)?;
        match string_from_utf8(b) {
            Some(t) => {
                proof {
                    vstd::utf8::encode_utf8_decode_utf8(t@);
                }
                Ok(t)
            },
            None => Err(AnimXError::InvalidText),
        }
    }

    /// A presence flag, then the string if the flag is set.
    pub fn read_nullable_string(&mut self) -> (r: Result<Option<String>, AnimXError>)
        requires
            old(self).wf(),
        ensures
            final(self).wf(),
            final(self).bytes() == old(self).bytes(),
            match parse_nullable_string(old(self).bytes(), old(self).position()) {
                Ok((None, q)) => r is Ok && r->Ok_0 is None && final(self).position() == q,
                Ok((Some(t), q)) => r is Ok && r->Ok_0 is Some && r->Ok_0->0@ == t
                    && final(self).position() == q,
                Err(e) => r == Err::<Option<String>, AnimXError>(e),
            },
    {
        if self.read_bool()? {
            let t = self.read_string()?;
            Ok(Some(t))
        } else {
            Ok(None)
        }
    }
}

impl AnimXReader {
    /// The next `N` little-endian numbers of 1 bytes each.
    pub fn read_u8s<const N: usize>(&mut self) -> (r: Result<[u8; N], AnimXError>)
        requires
            old(self).wf(),
        ensures
            final(self).wf(),
            final(self).bytes() == old(self).bytes(),
            match parse_words(old(self).bytes(), old(self).position(), N as nat, 1) {
                Ok((ws, q)) => r is Ok && r->Ok_0@.map_values(|x: u8| x as nat) == ws
                    && final(self).position() == q,
                Err(e) => r == Err::<[u8; N], AnimXError>(e),
            },
    {
        let ghost s = self.data@;
        let ghost p0 = self.pos as int;
        let mut a = [0u8; N];
        let mut i: usize = 0;
        assert(a@.subrange(0, 0).map_values(|x: u8| x as nat) =~= Seq::<nat>::empty());
        while i < N
            invariant
                self.wf(),
                self.data@ == s,
                s == old(self).data@,
                p0 == old(self).pos,
                i <= N,
                a@.len() == N,
                parse_words(s, p0, i as nat, 1) == Ok::<(Seq<nat>, int), AnimXError>(
                    (a@.subrange(0, i as int).map_values(|x: u8| x as nat), self.pos as int),
                ),
            decreases N - i,
        {
            let ghost q = self.pos as int;
            let v = match self.read_le(1) {
                Ok(v) => v,
                Err(e) => {
                    proof {
                        lemma_words_err(s, p0, (i + 1) as nat, N as nat, 1);
                    }
                    return Err(e);
                },
            };
            proof {
                lemma_le_value_bound(s.subrange(q, q + 1));
                lemma_pow256_bound(1);
            }
            let x: u8 = v as u8;
            let ghost before = a@;
            a[i] = x;
            assert(a@.subrange(0, i + 1).map_values(|x: u8| x as nat) =~= before.subrange(
                0,
                i as int,
            ).map_values(|x: u8| x as nat).push(v as nat));
            i = i + 1;
        }
        assert(a@.subrange(0, N as int) =~= a@);
        Ok(a)
    }

    /// The next `N` little-endian numbers of 4 bytes each.
    pub fn read_i32s<const N: usize>(&mut self) -> (r: Result<[i32; N], AnimXError>)
        requires
            old(self).wf(),
        ensures
            final(self).wf(),
            final(self).bytes() == old(self).bytes(),
            match parse_words(old(self).bytes(), old(self).position(), N as nat, 4) {
                Ok((ws, q)) => r is Ok && r->Ok_0@.map_values(|x: i32| (x as u32) as nat) == ws
                    && final(self).position() == q,
                Err(e) => r == Err::<[i32; N], AnimXError>(e),
            },
    {
        let ghost s = self.data@;
        let ghost p0 = self.pos as int;
        let mut a = [0i32; N];
        let mut i: usize = 0;
        assert(a@.subrange(0, 0).map_values(|x: i32| (x as u32) as nat) =~= Seq::<nat>::empty());
        while i < N
            invariant
                self.wf(),
                self.data@ == s,
                s == old(self).data@,
                p0 == old(self).pos,
                i <= N,
                a@.len() == N,
                parse_words(s, p0, i as nat, 4) == Ok::<(Seq<nat>, int), AnimXError>(
                    (a@.subrange(0, i as int).map_values(|x: i32| (x as u32) as nat), self.pos as int),
                ),
            decreases N - i,
        {
            let ghost q = self.pos as int;
            let v = match self.read_le(4) {
                Ok(v) => v,
                Err(e) => {
                    proof {
                        lemma_words_err(s, p0, (i + 1) as nat, N as nat, 4);
                    }
                    return Err(e);
                },
            };
            proof {
                lemma_le_value_bound(s.subrange(q, q + 4));
                lemma_pow256_bound(4);
            }
            let x: i32 = #[verifier::truncate] ((v as u32) as i32);
            assert((x as u32) == v as u32) by (bit_vector)
                requires
                    x == #[verifier::truncate] ((v as u32) as i32),
            ;
            let ghost before = a@;
            a[i] = x;
            assert(a@.subrange(0, i + 1).map_values(|x: i32| (x as u32) as nat) =~= before.subrange(
                0,
                i as int,
            ).map_values(|x: i32| (x as u32) as nat).push(v as nat));
            i = i + 1;
        }
        assert(a@.subrange(0, N as int) =~= a@);
        Ok(a)
    }

    /// The next `N` little-endian numbers of 4 bytes each.
    pub fn read_u32s<const N: usize>(&mut self) -> (r: Result<[u32; N], AnimXError>)
        requires
            old(self).wf(),
        ensures
            final(self).wf(),
            final(self).bytes() == old(self).bytes(),
            match parse_words(old(self).bytes(), old(self).position(), N as nat, 4) {
                Ok((ws, q)) => r is Ok && r->Ok_0@.map_values(|x: u32| x as nat) == ws
                    && final(self).position() == q,
                Err(e) => r == Err::<[u32; N], AnimXError>(e),
            },
    {
        let ghost s = self.data@;
        let ghost p0 = self.pos as int;
        let mut a = [0u32; N];
        let mut i: usize = 0;
        assert(a@.subrange(0, 0).map_values(|x: u32| x as nat) =~= Seq::<nat>::empty());
        while i < N
            invariant
                self.wf(),
                self.data@ == s,
                s == old(self).data@,
                p0 == old(self).pos,
                i <= N,
                a@.len() == N,
                parse_words(s, p0, i as nat, 4) == Ok::<(Seq<nat>, int), AnimXError>(
                    (a@.subrange(0, i as int).map_values(|x: u32| x as nat), self.pos as int),
                ),
            decreases N - i,
        {
            let ghost q = self.pos as int;
            let v = match self.read_le(4) {
                Ok(v) => v,
                Err(e) => {
                    proof {
                        lemma_words_err(s, p0, (i + 1) as nat, N as nat, 4);
                    }
                    return Err(e);
                },
            };
            proof {
                lemma_le_value_bound(s.subrange(q, q + 4));
                lemma_pow256_bound(4);
            }
            let x: u32 = v as u32;
            let ghost before = a@;
            a[i] = x;
            assert(a@.subrange(0, i + 1).map_values(|x: u32| x as nat) =~= before.subrange(
                0,
                i as int,
            ).map_values(|x: u32| x as nat).push(v as nat));
            i = i + 1;
        }
        assert(a@.subrange(0, N as int) =~= a@);
        Ok(a)
    }

    /// The next `N` little-endian numbers of 8 bytes each.
    pub fn read_i64s<const N: usize>(&mut self) -> (r: Result<[i64; N], AnimXError>)
        requires
            old(self).wf(),
        ensures
            final(self).wf(),
            final(self).bytes() == old(self).bytes(),
            match parse_words(old(self).bytes(), old(self).position(), N as nat, 8) {
                Ok((ws, q)) => r is Ok && r->Ok_0@.map_values(|x: i64| (x as u64) as nat) == ws
                    && final(self).position() == q,
                Err(e) => r == Err::<[i64; N], AnimXError>(e),
            },
    {
        let ghost s = self.data@;
        let ghost p0 = self.pos as int;
        let mut a = [0i64; N];
        let mut i: usize = 0;
        assert(a@.subrange(0, 0).map_values(|x: i64| (x as u64) as nat) =~= Seq::<nat>::empty());
        while i < N
            invariant
                self.wf(),
                self.data@ == s,
                s == old(self).data@,
                p0 == old(self).pos,
                i <= N,
                a@.len() == N,
                parse_words(s, p0, i as nat, 8) == Ok::<(Seq<nat>, int), AnimXError>(
                    (a@.subrange(0, i as int).map_values(|x: i64| (x as u64) as nat), self.pos as int),
                ),
            decreases N - i,
        {
            let ghost q = self.pos as int;
            let v = match self.read_le(8) {
                Ok(v) => v,
                Err(e) => {
                    proof {
                        lemma_words_err(s, p0, (i + 1) as nat, N as nat, 8);
                    }
                    return Err(e);
                },
            };
            proof {
                lemma_le_value_bound(s.subrange(q, q + 8));
                lemma_pow256_bound(8);
            }
            let x: i64 = #[verifier::truncate] (v as i64);
            assert((x as u64) == v) by (bit_vector)
                requires
                    x == #[verifier::truncate] (v as i64),
            ;
            let ghost before = a@;
            a[i] = x;
            assert(a@.subrange(0, i + 1).map_values(|x: i64| (x as u64) as nat) =~= before.subrange(
                0,
                i as int,
            ).map_values(|x: i64| (x as u64) as nat).push(v as nat));
            i = i + 1;
        }
        assert(a@.subrange(0, N as int) =~= a@);
        Ok(a)
    }

    /// The next `N` little-endian numbers of 8 bytes each.
    pub fn read_u64s<const N: usize>(&mut self) -> (r: Result<[u64; N], AnimXError>)
        requires
            old(self).wf(),
        ensures
            final(self).wf(),
            final(self).bytes() == old(self).bytes(),
            match parse_words(old(self).bytes(), old(self).position(), N as nat, 8) {
                Ok((ws, q)) => r is Ok && r->Ok_0@.map_values(|x: u64| x as nat) == ws
                    && final(self).position() == q,
                Err(e) => r == Err::<[u64; N], AnimXError>(e),
            },
    {
        let ghost s = self.data@;
        let ghost p0 = self.pos as int;
        let mut a = [0u64; N];
        let mut i: usize = 0;
        assert(a@.subrange(0, 0).map_values(|x: u64| x as nat) =~= Seq::<nat>::empty());
        while i < N
            invariant
                self.wf(),
                self.data@ == s,
                s == old(self).data@,
                p0 == old(self).pos,
                i <= N,
                a@.len() == N,
                parse_words(s, p0, i as nat, 8) == Ok::<(Seq<nat>, int), AnimXError>(
                    (a@.subrange(0, i as int).map_values(|x: u64| x as nat), self.pos as int),
                ),
            decreases N - i,
        {
            let ghost q = self.pos as int;
            let v = match self.read_le(8) {
                Ok(v) => v,
                Err(e) => {
                    proof {
                        lemma_words_err(s, p0, (i + 1) as nat, N as nat, 8);
                    }
                    return Err(e);
                },
            };
            proof {
                lemma_le_value_bound(s.subrange(q, q + 8));
                lemma_pow256_bound(8);
            }
            let x: u64 = v;
            let ghost before = a@;
            a[i] = x;
            assert(a@.subrange(0, i + 1).map_values(|x: u64| x as nat) =~= before.subrange(
                0,
                i as int,
            ).map_values(|x: u64| x as nat).push(v as nat));
            i = i + 1;
        }
        assert(a@.subrange(0, N as int) =~= a@);
        Ok(a)
    }
}

/// `n` little-endian numbers of `w` bytes each, one after the other.
pub open spec fn parse_words(s: Seq<u8>, p: int, n: nat, w: nat) -> Parsed<Seq<nat>>
    decreases n,
{
    if n == 0 {
        Ok((seq![], p))
    } else {
        match parse_words(s, p, (n - 1) as nat, w) {
            Err(e) => Err(e),
            Ok((ws, q)) => match parse_le(s, q, w) {
                Err(e) => Err(e),
                Ok((v, r)) => Ok((ws.push(v), r)),
            },
        }
    }
}

/// Once a run of words fails, every longer run fails the same way.
pub proof fn lemma_words_err(s: Seq<u8>, p: int, i: nat, n: nat, w: nat)
    requires
        i <= n,
        parse_words(s, p, i, w) is Err,
    ensures
        parse_words(s, p, n, w) == parse_words(s, p, i, w),
    decreases n - i,
{
    if i < n {
        lemma_words_err(s, p, i, (n - 1) as nat, w);
    }
}

/// One word is one little-endian number.
pub proof fn lemma_words_one(s: Seq<u8>, p: int, w: nat)
    ensures
        parse_words(s, p, 1, w) == match parse_le(s, p, w) {
            Ok((v, q)) => Ok::<(Seq<nat>, int), AnimXError>((seq![v], q)),
            Err(e) => Err(e),
        },
{
    assert(parse_words(s, p, 0, w) == Ok::<(Seq<nat>, int), AnimXError>((seq![], p)));
    assert(seq![].push(0nat) =~= seq![0nat]);
    match parse_le(s, p, w) {
        Ok((v, q)) => {
            assert(Seq::<nat>::empty().push(v) =~= seq![v]);
        },
        Err(e) => {},
    }
}

/// `256` to the power `n`.
pub open spec fn pow256(n: nat) -> nat
    decreases n,
{
    if n == 0 {
        1
    } else {
        256 * pow256((n - 1) as nat)
    }
}

pub proof fn lemma_pow256_bound(n: nat)
    ensures
        pow256(n) >= 1,
        n <= 8 ==> pow256(n) <= 0x1_0000_0000_0000_0000,
        pow256(4) == 0x1_0000_0000,
        pow256(2) == 0x1_0000,
        pow256(1) == 256,
        pow256(8) == 0x1_0000_0000_0000_0000,
    decreases n,
{
    reveal_with_fuel(pow256, 9);
    if n > 0 {
        lemma_pow256_bound((n - 1) as nat);
    }
}

/// A number of `b.len()` little-endian bytes is below `256` to that power.
pub proof fn lemma_le_value_bound(b: Seq<u8>)
    ensures
        le_value(b) < pow256(b.len()),
    decreases b.len(),
{
    if b.len() > 0 {
        lemma_le_value_bound(b.drop_first());
        let r = le_value(b.drop_first());
        let p = pow256(b.drop_first().len());
        assert(b[0] as nat + 256 * r < 256 * p) by (nonlinear_arith)
            requires
                r < p,
                b[0] < 256,
        ;
    }
    lemma_pow256_bound(b.len());
}

} // verus!
