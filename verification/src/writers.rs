//! The three disc-image sinks.  Each consumes `(logical offset, bytes)`
//! write calls, possibly out of order and overlapping, and all three agree on
//! the logical content those calls define: the last write to a byte wins and
//! unwritten bytes read as zero.

use vstd::prelude::*;
use crate::bytes::{Sink, u32_bytes, zero_bytes};
use crate::compress::{deflate, inflate_of};

verus! {

/// The logical content after writing `data` at `offset` over `s`.
pub open spec fn overwrite(s: Seq<u8>, offset: int, data: Seq<u8>) -> Seq<u8> {
    Seq::new(
        s.len(),
        |i: int|
            if offset <= i < offset + data.len() {
                data[i - offset]
            } else {
                s[i]
            },
    )
}

/// A sink for a disc image of a fixed logical length.
pub trait DiscWrite {
    /// The writer's own well-formedness.
    spec fn inv(&self) -> bool;

    /// The logical content the write calls so far define.
    spec fn view(&self) -> Seq<u8>;

    fn total_len(&self) -> (r: usize)
        requires
            self.inv(),
        ensures
            r == self.view().len(),
    ;

    fn write_at(&mut self, offset: usize, data: &Vec<u8>)
        requires
            old(self).inv(),
            offset + data@.len() <= old(self).view().len(),
        ensures
            final(self).inv(),
            final(self).view() == overwrite(old(self).view(), offset as int, data@),
    ;
}

/// The logical content a whole run of write calls defines, applied in call
/// order over a starting content.
pub open spec fn apply_writes(v: Seq<u8>, ws: Seq<(int, Seq<u8>)>) -> Seq<u8>
    decreases ws.len(),
{
    if ws.len() == 0 {
        v
    } else {
        apply_writes(overwrite(v, ws[0].0, ws[0].1), ws.skip(1))
    }
}

/// Any two sinks fed the same run of writes from the same starting content
/// end with the same logical content, whatever their container encodings:
/// each writer's `write_at` pins its view to `overwrite`, so a run pins it
/// to `apply_writes`, which mentions no writer at all.
pub proof fn lemma_writers_agree(v1: Seq<u8>, v2: Seq<u8>, ws: Seq<(int, Seq<u8>)>)
    requires
        v1 == v2,
    ensures
        apply_writes(v1, ws) == apply_writes(v2, ws),
    decreases ws.len(),
{
    if ws.len() > 0 {
        lemma_writers_agree(overwrite(v1, ws[0].0, ws[0].1), overwrite(v2, ws[0].0, ws[0].1), ws.skip(1));
    }
}

/// The plain container: the image held flat, every byte addressable.
pub struct FlatWriter {
    pub bytes: Vec<u8>,
}

impl FlatWriter {
    /// An image of `total` zero bytes.
    pub fn new(total: usize) -> (r: FlatWriter)
        ensures
            r.view() == zero_bytes(total as int),
    {
        let mut v: Vec<u8> = Vec::new();
        let mut i: usize = 0;
        while i < total
            invariant
                i <= total,
                v@ == zero_bytes(i as int),
            decreases total - i,
        {
            v.push(0);
            assert(v@ =~= zero_bytes(i + 1));
            i = i + 1;
        }
        FlatWriter { bytes: v }
    }

    pub fn into_bytes(self) -> (r: Vec<u8>)
        ensures
            r@ == self.view(),
    {
        self.bytes
    }
}

impl DiscWrite for FlatWriter {
    open spec fn inv(&self) -> bool {
        true
    }

    open spec fn view(&self) -> Seq<u8> {
        self.bytes@
    }

    fn total_len(&self) -> (r: usize) {
        self.bytes.len()
    }

    fn write_at(&mut self, offset: usize, data: &Vec<u8>) {
        let total = self.bytes.len();
        let mut i: usize = 0;
        while i < data.len()
            invariant
                offset + data@.len() <= total,
                total == self.bytes@.len(),
                i <= data@.len(),
                self.bytes@.len() == old(self).bytes@.len(),
                forall|j: int|
                    0 <= j < self.bytes@.len() ==> self.bytes@[j] == (if offset <= j < offset + i {
                        data@[j - offset]
                    } else {
                        old(self).bytes@[j]
                    }),
            decreases data@.len() - i,
        {
            self.bytes.set(offset + i, data[i]);
            i = i + 1;
        }
        assert(self.bytes@ =~= overwrite(old(self).bytes@, offset as int, data@));
    }
}

/// The block-bitmap container: the address space is cut into fixed blocks, a
/// block that never received a write is omitted from the output entirely.
pub struct CisoWriter {
    pub block_size: usize,
    pub blocks: Vec<Option<Vec<u8>>>,
}

pub const CISO_MAGIC: u32 = 0x4349534F;

impl CisoWriter {
    pub open spec fn wf(self) -> bool {
        &&& self.block_size >= 1
        &&& self.blocks@.len() * self.block_size <= usize::MAX
        &&& self.blocks@.len() < 0x1_0000_0000
        &&& forall|b: int|
            0 <= b < self.blocks@.len() ==> (#[trigger] self.blocks@[b] matches Some(v)
                ==> v@.len() == self.block_size)
    }

    /// A block is present exactly when some byte of its range was written.
    pub open spec fn present(self, b: int) -> bool {
        self.blocks@[b] is Some
    }

    /// Logical content: written blocks show their bytes, absent blocks zero.
    pub open spec fn view(&self) -> Seq<u8> {
        Seq::new(
            (self.blocks@.len() * self.block_size) as nat,
            |i: int|
                match self.blocks@[i / self.block_size as int] {
                    Some(v) => v@[i % self.block_size as int],
                    None => 0u8,
                },
        )
    }

    /// A writer of `num_blocks` absent blocks.
    pub fn new(block_size: usize, num_blocks: usize) -> (r: CisoWriter)
        requires
            block_size >= 1,
            num_blocks * block_size <= usize::MAX,
            num_blocks < 0x1_0000_0000,
        ensures
            r.wf(),
            r.block_size == block_size,
            r.blocks@.len() == num_blocks,
            forall|b: int| 0 <= b < num_blocks ==> !r.present(b),
            r.view() == zero_bytes(num_blocks * block_size as int),
    {
        let mut blocks: Vec<Option<Vec<u8>>> = Vec::new();
        let mut i: usize = 0;
        while i < num_blocks
            invariant
                i <= num_blocks,
                blocks@.len() == i,
                forall|b: int| 0 <= b < i ==> blocks@[b] is None,
            decreases num_blocks - i,
        {
            blocks.push(None);
            i = i + 1;
        }
        let r = CisoWriter { block_size, blocks };
        proof {
            assert forall|i: int| 0 <= i < num_blocks * block_size implies r.view()[i]
                == 0u8 by {
                let b = i / (block_size as int);
                assert(0 <= b && b < num_blocks) by (nonlinear_arith)
                    requires
                        b == i / (block_size as int),
                        0 <= i < num_blocks * block_size,
                        block_size >= 1,
                ;
            }
            assert(r.view() =~= zero_bytes(num_blocks * block_size as int));
        }
        r
    }
}


impl CisoWriter {
    /// Write bytes at a logical offset, out of order and overlapping writes
    /// allowed.  Exactly the blocks the range touches become present.
    pub fn write_block_data(&mut self, offset: usize, data: &Vec<u8>)
        requires
            old(self).wf(),
            offset + data@.len() <= old(self).view().len(),
        ensures
            final(self).wf(),
            final(self).block_size == old(self).block_size,
            final(self).blocks@.len() == old(self).blocks@.len(),
            final(self).view() == overwrite(old(self).view(), offset as int, data@),
            forall|b: int|
                0 <= b < old(self).blocks@.len() ==> (final(self).present(b) <==> old(
                    self,
                ).present(b) || (0 < data@.len() && b * old(self).block_size < offset
                    + data@.len() && offset < (b + 1) * old(self).block_size)),
    {
        let bs = self.block_size;
        let ghost n = self.blocks@.len() as int;
        let mut i: usize = 0;
        while i < data.len()
            invariant
                self.wf(),
                self.block_size == bs,
                self.blocks@.len() == n,
                old(self).block_size == bs,
                old(self).blocks@.len() == n,
                offset + data@.len() <= n * bs,
                i <= data@.len(),
                self.view() == overwrite(old(self).view(), offset as int, data@.take(i as int)),
                forall|b: int|
                    0 <= b < n ==> (self.present(b) <==> old(self).present(b) || (0 < i && b * bs
                        < offset + i && offset < (b + 1) * bs)),
            decreases data@.len() - i,
        {
            let pos = offset + i;
            let b = pos / bs;
            let local = pos % bs;
            proof {
                assert(0 <= b && b < n && b * bs <= pos && pos < (b + 1) * bs && local == pos - b
                    * bs) by (nonlinear_arith)
                    requires
                        bs >= 1,
                        0 <= pos,
                        pos < n * bs,
                        b == pos as int / bs as int,
                        local == pos as int % bs as int,
                ;
            }
            let ghost pre = *self;
            let mut blk = match self.blocks.remove(b) {
                Some(v) => v,
                None => {
                    let mut z: Vec<u8> = Vec::new();
                    let mut k: usize = 0;
                    while k < bs
                        invariant
                            k <= bs,
                            z@ == zero_bytes(k as int),
                        decreases bs - k,
                    {
                        z.push(0);
                        assert(z@ =~= zero_bytes(k + 1));
                        k = k + 1;
                    }
                    z
                },
            };
            blk.set(local, data[i]);
            self.blocks.insert(b, Some(blk));
            proof {
                assert(self.blocks@ =~= pre.blocks@.update(b as int, self.blocks@[b as int]));
                assert forall|j: int| 0 <= j < n * bs implies self.view()[j] == (if j == pos {
                    data@[i as int]
                } else {
                    pre.view()[j]
                }) by {
                    let jb = j / (bs as int);
                    let jl = j % (bs as int);
                    assert(0 <= jb && jb < n && jl == j - jb * bs && 0 <= jl && jl < bs && (j
                        == pos <==> (jb == b && jl == local))) by (nonlinear_arith)
                        requires
                            bs >= 1,
                            0 <= j,
                            j < n * bs,
                            jb == j / (bs as int),
                            jl == j % (bs as int),
                            0 <= b < n,
                            b * bs <= pos < (b + 1) * bs,
                            local == pos - b * bs,
                            0 <= local < bs,
                    ;
                }
                assert(self.view().len() == n * bs && pre.view().len() == n * bs && old(
                    self,
                ).view().len() == n * bs);
                assert forall|j: int| 0 <= j < n * bs implies self.view()[j] == overwrite(
                    old(self).view(),
                    offset as int,
                    data@.take(i + 1),
                )[j] by {
                    if j != pos {
                        assert(pre.view()[j] == overwrite(
                            old(self).view(),
                            offset as int,
                            data@.take(i as int),
                        )[j]);
                    }
                }
                assert(self.view() =~= overwrite(
                    old(self).view(),
                    offset as int,
                    data@.take(i + 1),
                ));
                assert forall|bb: int| 0 <= bb < n implies (self.present(bb) <==> old(
                    self,
                ).present(bb) || (0 < i + 1 && bb * bs < offset + (i + 1) && offset < (bb + 1)
                    * bs)) by {
                    if bb == b {
                        assert(self.present(bb));
                        assert(bb * bs <= pos < (bb + 1) * bs);
                    } else {
                        assert(self.present(bb) <==> pre.present(bb));
                        assert((bb * bs < offset + (i + 1) && offset < (bb + 1) * bs) <==> (0 < i
                            && bb * bs < offset + i && offset < (bb + 1) * bs)) by (nonlinear_arith)
                            requires
                                bs >= 1,
                                0 <= bb < n,
                                bb != b,
                                b * bs <= pos < (b + 1) * bs,
                                pos == offset + i,
                                0 <= offset,
                                0 <= i,
                        ;
                    }
                }
            }
            i = i + 1;
        }
        assert(data@.take(data@.len() as int) =~= data@);
    }

    /// The serialized container: magic, block size, block count, the
    /// presence bitmap, then the present blocks verbatim in order.  A block
    /// appears in the output exactly when some byte of its range was written.
    pub fn finish(&self) -> (out: Vec<u8>)
        requires
            self.wf(),
        ensures
            out@ == u32_bytes(CISO_MAGIC) + u32_bytes(self.block_size as u32) + u32_bytes(
                self.blocks@.len() as u32,
            ) + bitmap_bytes(self.blocks@) + present_blocks_bytes(self.blocks@),
    {
        let mut s = Sink::new();
        s.write_u32(CISO_MAGIC);
        s.write_u32(self.block_size as u32);
        s.write_u32(self.blocks.len() as u32);
        let ghost head = s@;
        let mut i: usize = 0;
        while i < self.blocks.len()
            invariant
                i <= self.blocks@.len(),
                s@ == head + bitmap_bytes(self.blocks@.take(i as int)),
            decreases self.blocks@.len() - i,
        {
            let bit: u8 = match &self.blocks[i] {
                Some(_) => 1,
                None => 0,
            };
            s.write_u8(bit);
            proof {
                lemma_blocks_push(self.blocks@.take(i as int), self.blocks@[i as int]);
                assert(self.blocks@.take(i as int).push(self.blocks@[i as int])
                    =~= self.blocks@.take(i + 1));
            }
            i = i + 1;
        }
        assert(self.blocks@.take(self.blocks@.len() as int) =~= self.blocks@);
        let ghost mid = s@;
        let mut i: usize = 0;
        while i < self.blocks.len()
            invariant
                i <= self.blocks@.len(),
                s@ == mid + present_blocks_bytes(self.blocks@.take(i as int)),
            decreases self.blocks@.len() - i,
        {
            match &self.blocks[i] {
                Some(v) => s.write_bytes(v),
                None => (),
            };
            proof {
                lemma_blocks_push(self.blocks@.take(i as int), self.blocks@[i as int]);
                assert(self.blocks@.take(i as int).push(self.blocks@[i as int])
                    =~= self.blocks@.take(i + 1));
            }
            i = i + 1;
        }
        assert(self.blocks@.take(self.blocks@.len() as int) =~= self.blocks@);
        s.into_bytes()
    }
}

impl DiscWrite for CisoWriter {
    closed spec fn inv(&self) -> bool {
        self.wf()
    }

    closed spec fn view(&self) -> Seq<u8> {
        CisoWriter::view(self)
    }

    fn total_len(&self) -> (r: usize) {
        self.blocks.len() * self.block_size
    }

    fn write_at(&mut self, offset: usize, data: &Vec<u8>) {
        self.write_block_data(offset, data);
    }
}

/// The presence bitmap: one byte per block.
pub open spec fn bitmap_bytes(s: Seq<Option<Vec<u8>>>) -> Seq<u8>
    decreases s.len(),
{
    if s.len() == 0 {
        Seq::empty()
    } else {
        bitmap_bytes(s.drop_last()) + seq![
            if s.last() is Some {
                1u8
            } else {
                0u8
            },
        ]
    }
}

/// The present blocks back to back; absent blocks contribute nothing.
pub open spec fn present_blocks_bytes(s: Seq<Option<Vec<u8>>>) -> Seq<u8>
    decreases s.len(),
{
    if s.len() == 0 {
        Seq::empty()
    } else {
        present_blocks_bytes(s.drop_last()) + (match s.last() {
            Some(v) => v@,
            None => Seq::empty(),
        })
    }
}

pub proof fn lemma_blocks_push(s: Seq<Option<Vec<u8>>>, x: Option<Vec<u8>>)
    ensures
        bitmap_bytes(s.push(x)) == bitmap_bytes(s) + seq![
            if x is Some {
                1u8
            } else {
                0u8
            },
        ],
        present_blocks_bytes(s.push(x)) == present_blocks_bytes(s) + (match x {
            Some(v) => v@,
            None => Seq::<u8>::empty(),
        }),
{
    assert(s.push(x).drop_last() =~= s);
    assert(s.push(x).last() == x);
}

/// The indexed-compressed container: the same block buffer, but a present
/// block is DEFLATE-compressed when the index is finalized.
pub struct GczWriter {
    pub inner: CisoWriter,
}

impl GczWriter {
    pub fn new(block_size: usize, num_blocks: usize) -> (r: GczWriter)
        requires
            block_size >= 1,
            num_blocks * block_size <= usize::MAX,
            num_blocks < 0x1_0000_0000,
        ensures
            r.inner.wf(),
            r.inner.block_size == block_size,
            r.inner.blocks@.len() == num_blocks,
            forall|b: int| 0 <= b < num_blocks ==> !r.inner.present(b),
            r.inner.view() == zero_bytes(num_blocks * block_size as int),
    {
        GczWriter { inner: CisoWriter::new(block_size, num_blocks) }
    }

    /// The compressed block table: absent blocks stay absent; every present
    /// block's stored stream decompresses back to exactly the bytes last
    /// written to that block.
    pub fn finish(&self) -> (out: Vec<Option<Vec<u8>>>)
        requires
            self.inner.wf(),
        ensures
            out@.len() == self.inner.blocks@.len(),
            forall|b: int|
                0 <= b < out@.len() ==> (#[trigger] out@[b] is Some <==> self.inner.present(b)),
            forall|b: int|
                0 <= b < out@.len() ==> (#[trigger] out@[b] matches Some(blob) ==> inflate_of(
                    blob@,
                ) == Some(self.inner.blocks@[b]->Some_0@)),
    {
        let mut out: Vec<Option<Vec<u8>>> = Vec::new();
        let mut i: usize = 0;
        while i < self.inner.blocks.len()
            invariant
                i <= self.inner.blocks@.len(),
                out@.len() == i,
                forall|b: int| 0 <= b < i ==> (#[trigger] out@[b] is Some <==> self.inner.present(b)),
                forall|b: int|
                    0 <= b < i ==> (#[trigger] out@[b] matches Some(blob) ==> inflate_of(blob@)
                        == Some(self.inner.blocks@[b]->Some_0@)),
            decreases self.inner.blocks@.len() - i,
        {
            match &self.inner.blocks[i] {
                Some(content) => {
                    let blob = deflate(content);
                    out.push(Some(blob));
                },
                None => {
                    out.push(None);
                },
            };
            i = i + 1;
        }
        out
    }
}

impl DiscWrite for GczWriter {
    closed spec fn inv(&self) -> bool {
        self.inner.wf()
    }

    closed spec fn view(&self) -> Seq<u8> {
        CisoWriter::view(&self.inner)
    }

    fn total_len(&self) -> (r: usize) {
        self.inner.blocks.len() * self.inner.block_size
    }

    fn write_at(&mut self, offset: usize, data: &Vec<u8>) {
        self.inner.write_block_data(offset, data);
    }
}

} // verus!
