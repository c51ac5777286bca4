//! Reading numbers and byte ranges from a byte slice, front to back.
use vstd::prelude::*;

verus! {

/// Byte order of multi-byte values in a byte stream.
#[derive(Debug, Clone, Copy, PartialEq, Eq, Structural)]
pub enum ByteOrder {
    BigEndian,
    LittleEndian,
}

#[derive(Debug, Clone, Copy, PartialEq, Eq, Structural)]
pub enum CursorError {
    UnexpectedEof,
}

/// 256 to the power `n`.
pub open spec fn pow256(n: nat) -> nat
    decreases n,
{
    if n == 0 {
        1
    } else {
        256 * pow256((n - 1) as nat)
    }
}

/// The number that bytes stand for, most significant byte first.
pub open spec fn be_value(s: Seq<u8>) -> nat
    decreases s.len(),
{
    if s.len() == 0 {
        0
    } else {
        be_value(s.drop_last()) * 256 + s.last() as nat
    }
}

/// The number that bytes stand for, least significant byte first.
pub open spec fn le_value(s: Seq<u8>) -> nat
    decreases s.len(),
{
    if s.len() == 0 {
        0
    } else {
        le_value(s.drop_first()) * 256 + s.first() as nat
    }
}

/// The number that bytes stand for in the given byte order.
pub open spec fn uint_value(s: Seq<u8>, order: ByteOrder) -> nat {
    match order {
        ByteOrder::BigEndian => be_value(s),
        ByteOrder::LittleEndian => le_value(s),
    }
}

/// The signed number whose two's complement in `bits` bits is `v`.
pub open spec fn signed(v: nat, bits: nat) -> int {
    if v < pow2_bits(bits) / 2 {
        v as int
    } else {
        v - pow2_bits(bits)
    }
}

/// 2 to the power `bits`, for the widths of the integer types.
pub open spec fn pow2_bits(bits: nat) -> nat {
    if bits == 8 {
        0x100
    } else if bits == 16 {
        0x1_0000
    } else if bits == 32 {
        0x1_0000_0000
    } else {
        0x1_0000_0000_0000_0000
    }
}

/// The state of a cursor: the bytes, the position of the next byte to read, and the
/// byte order of multi-byte reads.
pub struct CursorView {
    pub data: Seq<u8>,
    pub pos: int,
    pub order: ByteOrder,
}

impl CursorView {
    pub open spec fn remaining(self) -> int {
        self.data.len() - self.pos
    }

    /// The next `n` bytes.
    pub open spec fn next_bytes(self, n: int) -> Seq<u8> {
        self.data.subrange(self.pos, self.pos + n)
    }

    /// The state after reading `n` bytes.
    pub open spec fn advanced(self, n: int) -> CursorView {
        CursorView { pos: self.pos + n, ..self }
    }

    /// The number that the next `n` bytes stand for.
    pub open spec fn next_uint(self, n: int) -> nat {
        uint_value(self.next_bytes(n), self.order)
    }
}

/// Reads bytes of a slice from the front.
pub struct ByteCursor<'a> {
    data: &'a [u8],
    pos: usize,
    order: ByteOrder,
}

impl<'a> View for ByteCursor<'a> {
    type V = CursorView;

    closed spec fn view(&self) -> CursorView {
        CursorView { data: self.data@, pos: self.pos as int, order: self.order }
    }
}

/// How a fixed-size read of `n` bytes leaves the cursor: it fails with nothing read when
/// fewer than `n` bytes remain, and otherwise moves past the `n` bytes.
pub open spec fn read_outcome<T>(
    old_c: CursorView,
    new_c: CursorView,
    n: int,
    r: Result<T, CursorError>,
) -> bool {
    if old_c.remaining() < n {
        r == Err::<T, CursorError>(CursorError::UnexpectedEof) && new_c == old_c
    } else {
        r is Ok && new_c == old_c.advanced(n)
    }
}

proof fn lemma_be_push(s: Seq<u8>, b: u8)
    ensures
        be_value(s.push(b)) == be_value(s) * 256 + b,
{
    assert(s.push(b).drop_last() =~= s);
}

proof fn lemma_le_prepend(s: Seq<u8>, b: u8)
    ensures
        le_value(seq![b] + s) == le_value(s) * 256 + b,
{
    assert((seq![b] + s).drop_first() =~= s);
}

proof fn lemma_pow256_step(n: nat)
    ensures
        pow256(n + 1) == 256 * pow256(n),
{
}

proof fn lemma_pow256_8()
    ensures
        pow256(8) == 0x1_0000_0000_0000_0000,
        pow256(4) == 0x1_0000_0000,
        pow256(2) == 0x1_0000,
        pow256(1) == 0x100,
{
    reveal_with_fuel(pow256, 9);
}

/// Reading the bytes least significant first gives the number that the reversed bytes
/// stand for most significant first.
pub proof fn lemma_le_is_reversed_be(s: Seq<u8>)
    ensures
        le_value(s) == be_value(s.reverse()),
    decreases s.len(),
{
    if s.len() > 0 {
        lemma_le_is_reversed_be(s.drop_first());
        assert(s.reverse().drop_last() =~= s.drop_first().reverse());
        assert(s.reverse().last() == s.first());
    }
}

/// In big-endian order the first byte is the most significant one; in little-endian order
/// it is the least significant one.
pub proof fn lemma_first_byte_weight(s: Seq<u8>)
    requires
        s.len() > 0,
    ensures
        uint_value(s, ByteOrder::BigEndian) == s[0] * pow256((s.len() - 1) as nat) + uint_value(
            s.drop_first(),
            ByteOrder::BigEndian,
        ),
        uint_value(s, ByteOrder::LittleEndian) == s[0] + 256 * uint_value(
            s.drop_first(),
            ByteOrder::LittleEndian,
        ),
    decreases s.len(),
{
    if s.len() == 1 {
        assert(s.drop_last() =~= Seq::<u8>::empty());
        assert(s.drop_first() =~= Seq::<u8>::empty());
        assert(pow256(0) == 1);
        assert(be_value(s.drop_last()) == 0);
        assert(s.last() == s[0]);
        assert(be_value(s) == s[0] as nat);
        assert(s[0] * pow256(0) == s[0] as int);
    } else {
        let n = s.len();
        let init = s.drop_last();
        lemma_first_byte_weight(init);
        assert(init.drop_first() =~= s.drop_first().drop_last());
        assert(s.drop_first().last() == s.last());
        let p = pow256((n - 2) as nat);
        assert(pow256((n - 1) as nat) == 256 * p);
        let a = s[0] as int;
        let x = be_value(init.drop_first());
        assert(init[0] == s[0]);
        assert(be_value(init) == a * p + x);
        assert(be_value(s.drop_first()) == x * 256 + s.last());
        assert(be_value(s) == be_value(init) * 256 + s.last());
        assert((a * p + x) * 256 == a * (256 * p) + x * 256) by (nonlinear_arith);
        assert(be_value(s) == a * pow256((n - 1) as nat) + be_value(s.drop_first()));
    }
}

/// The signed number read from `bits` bits is the two's complement reading: it lies in the
/// range of the signed type and differs from the unsigned reading by a multiple of 2 to the
/// power `bits`.
pub proof fn lemma_signed_is_twos_complement(v: nat, bits: nat)
    requires
        bits == 8 || bits == 16 || bits == 32 || bits == 64,
        v < pow2_bits(bits),
    ensures
        -(pow2_bits(bits) / 2) <= signed(v, bits) < pow2_bits(bits) / 2,
        signed(v, bits) == v || signed(v, bits) == v - pow2_bits(bits),
        v < pow2_bits(bits) / 2 ==> signed(v, bits) == v,
{
}

impl<'a> ByteCursor<'a> {
    #[verifier::type_invariant]
    closed spec fn wf(self) -> bool {
        self.pos <= self.data@.len()
    }

    /// A cursor at the start of `data`, reading big-endian.
    pub fn new(data: &'a [u8]) -> (r: Self)
        ensures
            r@ == (CursorView { data: data@, pos: 0, order: ByteOrder::BigEndian }),
    {
        Self { data, pos: 0, order: ByteOrder::BigEndian }
    }

    /// A cursor at the start of `data`, reading in the given byte order.
    pub fn with_order(data: &'a [u8], order: ByteOrder) -> (r: Self)
        ensures
            r@ == (CursorView { data: data@, pos: 0, order }),
    {
        Self { data, pos: 0, order }
    }

    pub fn order(&self) -> (r: ByteOrder)
        ensures
            r == self@.order,
    {
        self.order
    }

    pub fn position(&self) -> (r: usize)
        ensures
            r == self@.pos,
            0 <= self@.pos <= self@.data.len(),
    {
        proof {
            use_type_invariant(self);
        }
        self.pos
    }

    /// The number of bytes not read yet; with the position it makes up the length.
    pub fn remaining(&self) -> (r: usize)
        ensures
            r == self@.remaining(),
            r + self@.pos == self@.data.len(),
            self@.data.len() <= usize::MAX,
    {
        proof {
            use_type_invariant(self);
        }
        self.data.len() - self.pos
    }

    pub fn is_eof(&self) -> (r: bool)
        ensures
            r == (self@.remaining() == 0),
    {
        proof {
            use_type_invariant(self);
        }
        self.pos >= self.data.len()
    }

    /// Moves past `n` bytes.
    pub fn skip(&mut self, n: usize) -> (r: Result<(), CursorError>)
        ensures
            read_outcome(old(self)@, final(self)@, n as int, r),
    {
        proof {
            use_type_invariant(&*self);
        }
        if self.remaining() < n {
            return Err(CursorError::UnexpectedEof);
        }
        self.pos = self.pos + n;
        Ok(())
    }

    /// Moves to the next position that is a multiple of `align`.
    pub fn align(&mut self, align: usize) -> (r: Result<(), CursorError>)
        requires
            align > 0,
        ensures
            read_outcome(
                old(self)@,
                final(self)@,
                if old(self)@.pos % (align as int) == 0 {
                    0
                } else {
                    align - old(self)@.pos % (align as int)
                },
                r,
            ),
    {
        proof {
            use_type_invariant(&*self);
        }
        let mis = self.pos % align;
        if mis == 0 {
            return Ok(());
        }
        self.skip(align - mis)
    }

    /// The next `n` bytes, moving past them.
    pub fn slice(&mut self, n: usize) -> (r: Result<&'a [u8], CursorError>)
        ensures
            read_outcome(old(self)@, final(self)@, n as int, r),
            r matches Ok(s) ==> s@ == old(self)@.next_bytes(n as int),
    {
        proof {
            use_type_invariant(&*self);
        }
        if self.remaining() < n {
            return Err(CursorError::UnexpectedEof);
        }
        let s = vstd::slice::slice_subrange(self.data, self.pos, self.pos + n);
        self.pos = self.pos + n;
        Ok(s)
    }

    /// The next `n` bytes, moving past them.
    pub fn bytes(&mut self, n: usize) -> (r: Result<&[u8], CursorError>)
        ensures
            read_outcome(old(self)@, final(self)@, n as int, r),
            r matches Ok(s) ==> s@ == old(self)@.next_bytes(n as int),
    {
        self.slice(n)
    }

    /// The number that the next `n` bytes stand for in the cursor's byte order.
    fn read_uint(&mut self, n: usize) -> (r: Result<u64, CursorError>)
        requires
            1 <= n <= 8,
        ensures
            read_outcome(old(self)@, final(self)@, n as int, r),
            r matches Ok(v) ==> v == old(self)@.next_uint(n as int) && v < pow256(n as nat),
    {
        proof {
            use_type_invariant(&*self);
            lemma_pow256_8();
        }
        if self.remaining() < n {
            return Err(CursorError::UnexpectedEof);
        }
        let p = self.pos;
        let ghost s = self.data@;
        let mut v: u64 = 0;
        match self.order {
            ByteOrder::BigEndian => {
                let mut i: usize = 0;
                while i < n
                    invariant
                        s == self.data@,
                        p + n <= s.len(),
                        s.len() <= usize::MAX,
                        n <= 8,
                        i <= n,
                        v == be_value(s.subrange(p as int, p + i)),
                        v < pow256(i as nat),
                        pow256(8) == 0x1_0000_0000_0000_0000,
                    decreases n - i,
                {
                    let b = self.data[p + i];
                    proof {
                        lemma_be_push(s.subrange(p as int, p + i), b);
                        assert(s.subrange(p as int, p + i).push(b) =~= s.subrange(
                            p as int,
                            p + i + 1,
                        ));
                        lemma_pow256_step(i as nat);
                        lemma_pow256_monotone(i as nat + 1, 8);
                    }
                    v = v * 256 + b as u64;
                    i = i + 1;
                }
            },
            ByteOrder::LittleEndian => {
                let mut i: usize = n;
                while i > 0
                    invariant
                        s == self.data@,
                        p + n <= s.len(),
                        s.len() <= usize::MAX,
                        n <= 8,
                        i <= n,
                        v == le_value(s.subrange(p + i, p + n)),
                        v < pow256((n - i) as nat),
                        pow256(8) == 0x1_0000_0000_0000_0000,
                    decreases i,
                {
                    i = i - 1;
                    let b = self.data[p + i];
                    proof {
                        lemma_le_prepend(s.subrange(p + i + 1, p + n), b);
                        assert(seq![b] + s.subrange(p + i + 1, p + n) =~= s.subrange(
                            p + i,
                            p + n,
                        ));
                        lemma_pow256_step((n - i - 1) as nat);
                        lemma_pow256_monotone((n - i) as nat, 8);
                    }
                    v = v * 256 + b as u64;
                }
            },
        }
        self.pos = p + n;
        Ok(v)
    }

    pub fn u8(&mut self) -> (r: Result<u8, CursorError>)
        ensures
            read_outcome(old(self)@, final(self)@, 1, r),
            r matches Ok(v) ==> v == old(self)@.data[old(self)@.pos],
    {
        proof {
            use_type_invariant(&*self);
        }
        if self.remaining() < 1 {
            return Err(CursorError::UnexpectedEof);
        }
        let b = self.data[self.pos];
        self.pos = self.pos + 1;
        Ok(b)
    }

    pub fn i8(&mut self) -> (r: Result<i8, CursorError>)
        ensures
            read_outcome(old(self)@, final(self)@, 1, r),
            r matches Ok(v) ==> v == signed(old(self)@.data[old(self)@.pos] as nat, 8),
    {
        let v = self.u8()?;
        assert(v as i8 == (if v < 0x80 { v as int } else { v as int - 0x100 })) by (bit_vector);
        Ok(v as i8)
    }

    pub fn u16(&mut self) -> (r: Result<u16, CursorError>)
        ensures
            read_outcome(old(self)@, final(self)@, 2, r),
            r matches Ok(v) ==> v == old(self)@.next_uint(2),
    {
        proof {
            lemma_pow256_8();
        }
        let v = self.read_uint(2)?;
        Ok(v as u16)
    }

    pub fn i16(&mut self) -> (r: Result<i16, CursorError>)
        ensures
            read_outcome(old(self)@, final(self)@, 2, r),
            r matches Ok(v) ==> v == signed(old(self)@.next_uint(2), 16),
    {
        let v = self.u16()?;
        assert(v as i16 == (if v < 0x8000 { v as int } else { v as int - 0x1_0000 })) by (bit_vector);
        Ok(v as i16)
    }

    pub fn u32(&mut self) -> (r: Result<u32, CursorError>)
        ensures
            read_outcome(old(self)@, final(self)@, 4, r),
            r matches Ok(v) ==> v == old(self)@.next_uint(4),
    {
        proof {
            lemma_pow256_8();
        }
        let v = self.read_uint(4)?;
        Ok(v as u32)
    }

    pub fn i32(&mut self) -> (r: Result<i32, CursorError>)
        ensures
            read_outcome(old(self)@, final(self)@, 4, r),
            r matches Ok(v) ==> v == signed(old(self)@.next_uint(4), 32),
    {
        let v = self.u32()?;
        assert(v as i32 == (if v < 0x8000_0000 { v as int } else { v as int - 0x1_0000_0000 }))
            by (bit_vector);
        Ok(v as i32)
    }

    pub fn u64(&mut self) -> (r: Result<u64, CursorError>)
        ensures
            read_outcome(old(self)@, final(self)@, 8, r),
            r matches Ok(v) ==> v == old(self)@.next_uint(8),
    {
        self.read_uint(8)
    }

    pub fn i64(&mut self) -> (r: Result<i64, CursorError>)
        ensures
            read_outcome(old(self)@, final(self)@, 8, r),
            r matches Ok(v) ==> v == signed(old(self)@.next_uint(8), 64),
    {
        let v = self.u64()?;
        assert(v as i64 == (if v < 0x8000_0000_0000_0000 {
            v as int
        } else {
            v as int - 0x1_0000_0000_0000_0000
        })) by (bit_vector);
        Ok(v as i64)
    }

    /// The next byte, if any, moving past it.
    pub fn try_u8(&mut self) -> (r: Option<u8>)
        ensures
            old(self)@.remaining() == 0 ==> r is None && final(self)@ == old(self)@,
            old(self)@.remaining() > 0 ==> r == Some(old(self)@.data[old(self)@.pos])
                && final(self)@ == old(self)@.advanced(1),
    {
        proof {
            use_type_invariant(&*self);
        }
        if self.remaining() == 0 {
            None
        } else {
            let b = self.data[self.pos];
            self.pos = self.pos + 1;
            Some(b)
        }
    }

    /// Copies the next `buf.len()` bytes into `buf`, moving past them; when fewer remain,
    /// neither the cursor nor `buf` changes.
    pub fn read_exact(&mut self, buf: &mut [u8]) -> (r: Result<(), CursorError>)
        ensures
            read_outcome(old(self)@, final(self)@, old(buf)@.len() as int, r),
            r is Ok ==> final(buf)@ == old(self)@.next_bytes(old(buf)@.len() as int),
            r is Err ==> final(buf)@ == old(buf)@,
    {
        proof {
            use_type_invariant(&*self);
        }
        let n = buf.len();
        if self.remaining() < n {
            return Err(CursorError::UnexpectedEof);
        }
        let p = self.pos;
        let ghost b0 = buf@;
        let mut i: usize = 0;
        while i < n
            invariant
                n == buf@.len(),
                n == b0.len(),
                p + n <= self.data@.len(),
                self.data@.len() <= usize::MAX,
                i <= n,
                forall|j: int| 0 <= j < i ==> buf@[j] == self.data@[p + j],
            decreases n - i,
        {
            buf[i] = self.data[p + i];
            i = i + 1;
        }
        assert(buf@ =~= self.data@.subrange(p as int, p + n));
        self.pos = p + n;
        Ok(())
    }
}

proof fn lemma_pow256_monotone(a: nat, b: nat)
    requires
        a <= b,
    ensures
        pow256(a) <= pow256(b),
    decreases b - a,
{
    if a < b {
        lemma_pow256_monotone(a, (b - 1) as nat);
        lemma_pow256_step((b - 1) as nat);
    }
}

} // verus!
