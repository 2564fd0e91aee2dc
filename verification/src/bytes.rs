//! Byte-level serialization primitives: a position-tracking cursor over a
//! shared input buffer, and an append-only sink for writing.
//!
//! The whole disc image lives in one long-lived byte buffer.  A `Cursor` is an
//! index-based view (position + end) into that buffer; parsed structures store
//! cursors rather than copies, so parsing is zero-copy and the buffer is
//! passed explicitly to every operation that reads through a cursor.

use vstd::prelude::*;

verus! {

/// Value of two bytes interpreted big-endian.
pub open spec fn be_u16(b0: u8, b1: u8) -> int {
    b0 * 0x100 + b1
}

/// Value of four bytes interpreted big-endian.
pub open spec fn be_u32(b0: u8, b1: u8, b2: u8, b3: u8) -> int {
    b0 * 0x1000000 + b1 * 0x10000 + b2 * 0x100 + b3
}

/// Big-endian encoding of a 16-bit value.
pub open spec fn u16_bytes(v: u16) -> Seq<u8> {
    seq![(v / 0x100) as u8, (v % 0x100) as u8]
}

/// Big-endian encoding of a 32-bit value.
pub open spec fn u32_bytes(v: u32) -> Seq<u8> {
    seq![
        (v / 0x1000000) as u8,
        ((v / 0x10000) % 0x100) as u8,
        ((v / 0x100) % 0x100) as u8,
        (v % 0x100) as u8,
    ]
}

/// Number of padding bytes needed to advance `pos` to a multiple of `align`.
pub open spec fn pad_len(pos: int, align: int) -> int {
    (align - pos % align) % align
}

/// Serialized form of a NUL-terminated name: the bytes followed by a zero.
pub open spec fn cstr_bytes(name: Seq<u8>) -> Seq<u8> {
    name + seq![0u8]
}

/// A name is storable as a NUL-terminated string iff it holds no zero byte.
pub open spec fn cstr_ok(name: Seq<u8>) -> bool {
    forall|i: int| 0 <= i < name.len() ==> name[i] != 0
}

/// A run of `n` zero bytes.
pub open spec fn zero_bytes(n: int) -> Seq<u8> {
    Seq::new(n as nat, |i: int| 0u8)
}

pub proof fn lemma_be_u16_roundtrip(v: u16)
    ensures
        be_u16(u16_bytes(v)[0], u16_bytes(v)[1]) == v,
{
    assert((v / 0x100) * 0x100 + (v % 0x100) == v) by (nonlinear_arith);
}

pub proof fn lemma_be_u32_roundtrip(v: u32)
    ensures
        be_u32(u32_bytes(v)[0], u32_bytes(v)[1], u32_bytes(v)[2], u32_bytes(v)[3]) == v,
{
    assert((v / 0x1000000) * 0x1000000 + ((v / 0x10000) % 0x100) * 0x10000 + ((v / 0x100) % 0x100)
        * 0x100 + (v % 0x100) == v) by (nonlinear_arith);
}

/// Encoding a value decoded from two bytes reproduces those bytes.
pub proof fn lemma_u16_bytes_of_be(b0: u8, b1: u8)
    ensures
        u16_bytes(be_u16(b0, b1) as u16) == seq![b0, b1],
{
    let v = be_u16(b0, b1) as u16;
    assert(v / 0x100 == b0 && v % 0x100 == b1) by (nonlinear_arith)
        requires
            v == b0 * 0x100 + b1,
    ;
    assert(u16_bytes(v) =~= seq![b0, b1]);
}

/// Encoding a value decoded from four bytes reproduces those bytes.
pub proof fn lemma_u32_bytes_of_be(b0: u8, b1: u8, b2: u8, b3: u8)
    ensures
        u32_bytes(be_u32(b0, b1, b2, b3) as u32) == seq![b0, b1, b2, b3],
{
    let v = be_u32(b0, b1, b2, b3) as u32;
    assert(v / 0x1000000 == b0 && (v / 0x10000) % 0x100 == b1 && (v / 0x100) % 0x100 == b2 && v
        % 0x100 == b3) by (nonlinear_arith)
        requires
            v == b0 * 0x1000000 + b1 * 0x10000 + b2 * 0x100 + b3,
    ;
    assert(u32_bytes(v) =~= seq![b0, b1, b2, b3]);
}

/// Two adjacent subranges concatenate to the enclosing subrange.
pub proof fn lemma_subrange_adjacent(s: Seq<u8>, a: int, b: int, c: int)
    requires
        0 <= a <= b <= c <= s.len(),
    ensures
        s.subrange(a, b) + s.subrange(b, c) == s.subrange(a, c),
{
    assert(s.subrange(a, b) + s.subrange(b, c) =~= s.subrange(a, c));
}

/// An index-based view into the shared input buffer: the bytes
/// `buf[pos..end]`.  The buffer itself is passed to each operation.
#[derive(Clone, Copy, Debug)]
pub struct Cursor {
    pub pos: usize,
    pub end: usize,
}

impl Cursor {
    /// The cursor denotes a well-formed range of `buf`.
    pub open spec fn valid(self, buf: Seq<u8>) -> bool {
        self.pos <= self.end <= buf.len()
    }

    /// The bytes the cursor still covers.
    pub open spec fn data(self, buf: Seq<u8>) -> Seq<u8> {
        buf.subrange(self.pos as int, self.end as int)
    }

    pub open spec fn remaining(self) -> int {
        self.end - self.pos
    }

    /// A cursor covering all of `buf`.
    pub fn new(buf: &Vec<u8>) -> (r: Cursor)
        ensures
            r.valid(buf@),
            r.pos == 0,
            r.end == buf@.len(),
    {
        Cursor { pos: 0, end: buf.len() }
    }

    pub fn len(&self, Ghost(buf): Ghost<Seq<u8>>) -> (r: usize)
        requires
            self.valid(buf),
        ensures
            r == self.remaining(),
    {
        self.end - self.pos
    }

    /// A cursor over the first `n` remaining bytes.
    pub fn truncated(&self, n: usize) -> (r: Cursor)
        requires
            n <= self.remaining(),
        ensures
            r.pos == self.pos,
            r.end == self.pos + n,
            forall|buf: Seq<u8>| self.valid(buf) ==> r.valid(buf),
    {
        Cursor { pos: self.pos, end: self.pos + n }
    }

    /// A cursor past the first `n` remaining bytes.
    pub fn offset(&self, n: usize) -> (r: Cursor)
        requires
            n <= self.remaining(),
        ensures
            r.pos == self.pos + n,
            r.end == self.end,
            forall|buf: Seq<u8>| self.valid(buf) ==> r.valid(buf),
    {
        Cursor { pos: self.pos + n, end: self.end }
    }

    pub fn read_u8(&mut self, buf: &Vec<u8>) -> (r: Option<u8>)
        requires
            old(self).valid(buf@),
        ensures
            final(self).valid(buf@),
            final(self).end == old(self).end,
            match r {
                Some(v) => {
                    &&& old(self).remaining() >= 1
                    &&& final(self).pos == old(self).pos + 1
                    &&& v == buf@[old(self).pos as int]
                    &&& seq![v] == buf@.subrange(old(self).pos as int, old(self).pos + 1)
                },
                None => {
                    &&& old(self).remaining() < 1
                    &&& *final(self) == *old(self)
                },
            },
    {
        if self.pos < self.end {
            let v = buf[self.pos];
            self.pos = self.pos + 1;
            assert(seq![v] =~= buf@.subrange(old(self).pos as int, old(self).pos + 1));
            Some(v)
        } else {
            None
        }
    }

    pub fn read_u16(&mut self, buf: &Vec<u8>) -> (r: Option<u16>)
        requires
            old(self).valid(buf@),
        ensures
            final(self).valid(buf@),
            final(self).end == old(self).end,
            match r {
                Some(v) => {
                    &&& old(self).remaining() >= 2
                    &&& final(self).pos == old(self).pos + 2
                    &&& v == be_u16(buf@[old(self).pos as int], buf@[old(self).pos + 1])
                    &&& u16_bytes(v) == buf@.subrange(old(self).pos as int, old(self).pos + 2)
                },
                None => {
                    &&& old(self).remaining() < 2
                    &&& *final(self) == *old(self)
                },
            },
    {
        if self.end - self.pos >= 2 {
            let b0 = buf[self.pos];
            let b1 = buf[self.pos + 1];
            self.pos = self.pos + 2;
            proof {
                lemma_u16_bytes_of_be(b0, b1);
                assert(seq![b0, b1] =~= buf@.subrange(old(self).pos as int, old(self).pos + 2));
            }
            Some((b0 as u16) * 0x100 + (b1 as u16))
        } else {
            None
        }
    }

    pub fn read_u32(&mut self, buf: &Vec<u8>) -> (r: Option<u32>)
        requires
            old(self).valid(buf@),
        ensures
            final(self).valid(buf@),
            final(self).end == old(self).end,
            match r {
                Some(v) => {
                    &&& old(self).remaining() >= 4
                    &&& final(self).pos == old(self).pos + 4
                    &&& v == be_u32(
                        buf@[old(self).pos as int],
                        buf@[old(self).pos + 1],
                        buf@[old(self).pos + 2],
                        buf@[old(self).pos + 3],
                    )
                    &&& u32_bytes(v) == buf@.subrange(old(self).pos as int, old(self).pos + 4)
                },
                None => {
                    &&& old(self).remaining() < 4
                    &&& *final(self) == *old(self)
                },
            },
    {
        if self.end - self.pos >= 4 {
            let b0 = buf[self.pos];
            let b1 = buf[self.pos + 1];
            let b2 = buf[self.pos + 2];
            let b3 = buf[self.pos + 3];
            self.pos = self.pos + 4;
            proof {
                lemma_u32_bytes_of_be(b0, b1, b2, b3);
                assert(seq![b0, b1, b2, b3] =~= buf@.subrange(
                    old(self).pos as int,
                    old(self).pos + 4,
                ));
            }
            Some(
                (b0 as u32) * 0x1000000 + (b1 as u32) * 0x10000 + (b2 as u32) * 0x100 + (b3 as u32),
            )
        } else {
            None
        }
    }

    /// Read a field whose value must equal a fixed constant; `None` signals
    /// format corruption.
    pub fn expect_u32(&mut self, buf: &Vec<u8>, expected: u32) -> (r: Option<()>)
        requires
            old(self).valid(buf@),
        ensures
            final(self).valid(buf@),
            final(self).end == old(self).end,
            match r {
                Some(_) => {
                    &&& old(self).remaining() >= 4
                    &&& final(self).pos == old(self).pos + 4
                    &&& be_u32(
                        buf@[old(self).pos as int],
                        buf@[old(self).pos + 1],
                        buf@[old(self).pos + 2],
                        buf@[old(self).pos + 3],
                    ) == expected
                    &&& u32_bytes(expected) == buf@.subrange(
                        old(self).pos as int,
                        old(self).pos + 4,
                    )
                },
                None => old(self).remaining() < 4 || be_u32(
                    buf@[old(self).pos as int],
                    buf@[old(self).pos + 1],
                    buf@[old(self).pos + 2],
                    buf@[old(self).pos + 3],
                ) != expected,
            },
    {
        match self.read_u32(buf) {
            Some(v) if v == expected => Some(()),
            _ => None,
        }
    }

    /// Copy the next `n` bytes out of the buffer.
    pub fn read_bytes(&mut self, buf: &Vec<u8>, n: usize) -> (r: Option<Vec<u8>>)
        requires
            old(self).valid(buf@),
        ensures
            final(self).valid(buf@),
            final(self).end == old(self).end,
            match r {
                Some(v) => {
                    &&& old(self).remaining() >= n
                    &&& final(self).pos == old(self).pos + n
                    &&& v@ == buf@.subrange(old(self).pos as int, old(self).pos + n)
                },
                None => {
                    &&& old(self).remaining() < n
                    &&& *final(self) == *old(self)
                },
            },
    {
        if self.end - self.pos >= n {
            let total: usize = buf.len();
            let mut v: Vec<u8> = Vec::new();
            let mut i: usize = 0;
            while i < n
                invariant
                    self.pos + n <= total,
                    total == buf@.len(),
                    i <= n,
                    v@ == buf@.subrange(self.pos as int, self.pos + i),
                decreases n - i,
            {
                v.push(buf[self.pos + i]);
                assert(v@ =~= buf@.subrange(self.pos as int, self.pos + i + 1));
                i = i + 1;
            }
            self.pos = self.pos + n;
            Some(v)
        } else {
            None
        }
    }

    /// Skip padding so the position becomes a multiple of `align`, checking
    /// that every skipped byte is zero (canonical padding).
    pub fn skip_padding(&mut self, buf: &Vec<u8>, align: usize) -> (r: Option<()>)
        requires
            old(self).valid(buf@),
            align >= 1,
        ensures
            final(self).valid(buf@),
            final(self).end == old(self).end,
            match r {
                Some(_) => {
                    &&& old(self).remaining() >= pad_len(old(self).pos as int, align as int)
                    &&& final(self).pos == old(self).pos + pad_len(old(self).pos as int, align as int)
                    &&& final(self).pos as int % align as int == 0
                    &&& buf@.subrange(old(self).pos as int, final(self).pos as int) == zero_bytes(
                        pad_len(old(self).pos as int, align as int),
                    )
                },
                None => old(self).remaining() < pad_len(old(self).pos as int, align as int)
                    || exists|i: int|
                    old(self).pos <= i < old(self).pos + pad_len(old(self).pos as int, align as int)
                        && buf@[i] != 0,
            },
    {
        let pad: usize = (align - self.pos % align) % align;
        if self.end - self.pos < pad {
            return None;
        }
        let total: usize = buf.len();
        let ghost start = self.pos as int;
        let mut i: usize = 0;
        assert(pad == pad_len(start, align as int));
        while i < pad
            invariant
                self.pos == start,
                old(self).pos == start,
                self.end == old(self).end,
                self.valid(buf@),
                pad == pad_len(start, align as int),
                start + pad <= total,
                total == buf@.len(),
                i <= pad,
                forall|j: int| start <= j < start + i ==> buf@[j] == 0,
            decreases pad - i,
        {
            if buf[self.pos + i] != 0 {
                proof {
                    let w = start + i as int;
                    assert(start <= w < start + pad && buf@[w] != 0);
                }
                return None;
            }
            i = i + 1;
        }
        self.pos = self.pos + pad;
        assert(buf@.subrange(start, start + pad as int) =~= zero_bytes(pad as int));
        assert(self.pos as int % align as int == 0) by (nonlinear_arith)
            requires
                align >= 1,
                self.pos == start + (align as int - start % align as int) % align as int,
                start >= 0,
        ;
        Some(())
    }
    /// Read a NUL-terminated string; consumes the terminator.
    pub fn read_cstr(&mut self, buf: &Vec<u8>) -> (r: Option<Vec<u8>>)
        requires
            old(self).valid(buf@),
        ensures
            final(self).valid(buf@),
            final(self).end == old(self).end,
            match r {
                Some(v) => {
                    &&& cstr_ok(v@)
                    &&& final(self).pos == old(self).pos + v@.len() + 1
                    &&& cstr_bytes(v@) == buf@.subrange(old(self).pos as int, final(self).pos as int)
                },
                None => forall|i: int| old(self).pos <= i < old(self).end ==> buf@[i] != 0,
            },
    {
        let mut v: Vec<u8> = Vec::new();
        let ghost start = self.pos as int;
        loop
            invariant
                self.valid(buf@),
                self.end == old(self).end,
                old(self).pos == start,
                start <= self.pos,
                self.pos - start == v@.len(),
                v@ == buf@.subrange(start, self.pos as int),
                cstr_ok(v@),
            decreases self.end - self.pos,
        {
            if self.pos >= self.end {
                proof {
                    assert(forall|i: int|
                        start <= i < old(self).end ==> buf@[i] == v@[i - start] && buf@[i] != 0);
                }
                return None;
            }
            let b = buf[self.pos];
            self.pos = self.pos + 1;
            if b == 0 {
                proof {
                    assert(cstr_bytes(v@) =~= buf@.subrange(start, self.pos as int));
                }
                return Some(v);
            }
            v.push(b);
            proof {
                assert(v@ =~= buf@.subrange(start, self.pos as int));
            }
        }
    }
}

/// An append-only byte sink used for serialization.
pub struct Sink {
    pub out: Vec<u8>,
}

impl Sink {
    pub open spec fn view(self) -> Seq<u8> {
        self.out@
    }

    pub fn new() -> (r: Sink)
        ensures
            r@ == Seq::<u8>::empty(),
    {
        Sink { out: Vec::new() }
    }

    pub fn len(&self) -> (r: usize)
        ensures
            r == self@.len(),
    {
        self.out.len()
    }

    pub fn into_bytes(self) -> (r: Vec<u8>)
        ensures
            r@ == self@,
    {
        self.out
    }

    pub fn write_u8(&mut self, v: u8)
        ensures
            final(self)@ == old(self)@ + seq![v],
    {
        self.out.push(v);
        assert(self@ =~= old(self)@ + seq![v]);
    }

    pub fn write_u16(&mut self, v: u16)
        ensures
            final(self)@ == old(self)@ + u16_bytes(v),
    {
        self.out.push((v / 0x100) as u8);
        self.out.push((v % 0x100) as u8);
        assert(self@ =~= old(self)@ + u16_bytes(v));
    }

    pub fn write_u32(&mut self, v: u32)
        ensures
            final(self)@ == old(self)@ + u32_bytes(v),
    {
        self.out.push((v / 0x1000000) as u8);
        self.out.push(((v / 0x10000) % 0x100) as u8);
        self.out.push(((v / 0x100) % 0x100) as u8);
        self.out.push((v % 0x100) as u8);
        assert(self@ =~= old(self)@ + u32_bytes(v));
    }

    pub fn write_bytes(&mut self, data: &Vec<u8>)
        ensures
            final(self)@ == old(self)@ + data@,
    {
        let mut i: usize = 0;
        while i < data.len()
            invariant
                i <= data@.len(),
                self@ == old(self)@ + data@.subrange(0, i as int),
            decreases data@.len() - i,
        {
            self.out.push(data[i]);
            assert(self@ =~= old(self)@ + data@.subrange(0, i + 1));
            i = i + 1;
        }
        assert(data@.subrange(0, data@.len() as int) =~= data@);
    }

    /// Write a name as a NUL-terminated string.
    pub fn write_cstr(&mut self, name: &Vec<u8>)
        ensures
            final(self)@ == old(self)@ + cstr_bytes(name@),
    {
        self.write_bytes(name);
        self.write_u8(0);
        assert(final(self)@ =~= old(self)@ + cstr_bytes(name@));
    }

    /// Copy `cursor`'s bytes from the input buffer into the sink.
    pub fn write_cursor(&mut self, buf: &Vec<u8>, cursor: &Cursor)
        requires
            cursor.valid(buf@),
        ensures
            final(self)@ == old(self)@ + cursor.data(buf@),
    {
        let mut i: usize = cursor.pos;
        while i < cursor.end
            invariant
                cursor.valid(buf@),
                cursor.pos <= i <= cursor.end,
                self@ == old(self)@ + buf@.subrange(cursor.pos as int, i as int),
            decreases cursor.end - i,
        {
            self.out.push(buf[i]);
            assert(self@ =~= old(self)@ + buf@.subrange(cursor.pos as int, i + 1));
            i = i + 1;
        }
    }

    /// Emit zero bytes so the position becomes a multiple of `align`,
    /// recomputed from the current length.
    pub fn write_padding(&mut self, align: usize)
        requires
            align >= 1,
        ensures
            final(self)@ == old(self)@ + zero_bytes(pad_len(old(self)@.len() as int, align as int)),
            final(self)@.len() as int % align as int == 0,
    {
        let pad = (align - self.out.len() % align) % align;
        let ghost start = self.out.len() as int;
        let mut i: usize = 0;
        while i < pad
            invariant
                self@.len() == start + i,
                self@ == old(self)@ + zero_bytes(i as int),
                i <= pad,
            decreases pad - i,
        {
            self.out.push(0u8);
            assert(self@ =~= old(self)@ + zero_bytes(i + 1));
            i = i + 1;
        }
        assert(self@.len() as int % align as int == 0) by (nonlinear_arith)
            requires
                align >= 1,
                self@.len() == start + (align as int - start % align as int) % align as int,
                start >= 0,
        ;
    }
}

} // verus!
