//! Archives ("paks"): an ordered list of typed, identified, optionally
//! compressed resources.
//!
//! A resource parsed from the disc is a raw byte range and stays that way
//! until a patch replaces it with owned bytes or a parsed room; a patched
//! resource is always re-emitted uncompressed.

use vstd::prelude::*;
use crate::bytes::{Cursor, Sink, lemma_subrange_adjacent, pad_len, u32_bytes, zero_bytes};
use crate::compress::{inflate, inflate_of};
use crate::bytes::{be_u32, zero_bytes as zb};
use crate::mrea::Mrea;

verus! {

pub const PAK_VERSION: u32 = 0x00030005;

/// Resource payload: raw bytes of the input buffer, owned replacement bytes,
/// or a parsed room.
#[derive(Clone, Debug)]
pub enum ResourceKind {
    Raw(Cursor),
    External(Vec<u8>),
    Area(Mrea),
}

/// A typed, identified, optionally compressed blob.  Identity is
/// `(id, fourcc)`; `compressed` can hold only for a still-raw payload.
#[derive(Clone, Debug)]
pub struct Resource {
    pub compressed: bool,
    pub fourcc: u32,
    pub id: u32,
    pub kind: ResourceKind,
}

impl Resource {
    /// The resource's payload bytes as they will appear on disc.
    #[verifier::opaque]
    pub open spec fn res_bytes(self, buf: Seq<u8>) -> Seq<u8> {
        match self.kind {
            ResourceKind::Raw(c) => c.data(buf),
            ResourceKind::External(v) => v@,
            ResourceKind::Area(m) => m.mrea_bytes(buf),
        }
    }

    pub open spec fn wf(self, buf: Seq<u8>) -> bool {
        &&& match self.kind {
            ResourceKind::Raw(c) => c.valid(buf),
            ResourceKind::External(_) => true,
            ResourceKind::Area(m) => m.wf(buf),
        }
        &&& self.compressed ==> self.kind is Raw
    }

    /// The derived size field can describe the payload.
    pub open spec fn size_ok(self, buf: Seq<u8>) -> bool {
        &&& self.res_bytes(buf).len() < 0x1_0000_0000
        &&& match self.kind {
            ResourceKind::Area(m) => m.size_ok(buf),
            _ => true,
        }
    }

    /// Table row: compression flag, type tag, id and derived size.
    #[verifier::opaque]
    pub open spec fn entry_bytes(self, buf: Seq<u8>) -> Seq<u8> {
        u32_bytes(if self.compressed { 1u32 } else { 0u32 }) + u32_bytes(self.fourcc)
            + u32_bytes(self.id) + u32_bytes(self.res_bytes(buf).len() as u32)
    }

    /// Data block: the payload padded to a 32-byte boundary.
    #[verifier::opaque]
    pub open spec fn block_bytes(self, buf: Seq<u8>) -> Seq<u8> {
        self.res_bytes(buf) + zero_bytes(pad_len(self.res_bytes(buf).len() as int, 32))
    }
}

pub open spec fn entries_bytes(s: Seq<Resource>, buf: Seq<u8>) -> Seq<u8>
    decreases s.len(),
{
    if s.len() == 0 {
        Seq::empty()
    } else {
        entries_bytes(s.drop_last(), buf) + s.last().entry_bytes(buf)
    }
}

pub open spec fn blocks_bytes(s: Seq<Resource>, buf: Seq<u8>) -> Seq<u8>
    decreases s.len(),
{
    if s.len() == 0 {
        Seq::empty()
    } else {
        blocks_bytes(s.drop_last(), buf) + s.last().block_bytes(buf)
    }
}

pub proof fn lemma_resources_push(s: Seq<Resource>, x: Resource, buf: Seq<u8>)
    ensures
        entries_bytes(s.push(x), buf) == entries_bytes(s, buf) + x.entry_bytes(buf),
        blocks_bytes(s.push(x), buf) == blocks_bytes(s, buf) + x.block_bytes(buf),
{
    assert(s.push(x).drop_last() =~= s);
    assert(s.push(x).last() == x);
}

/// An ordered archive of resources.
#[derive(Clone, Debug)]
pub struct Pak {
    pub resources: Vec<Resource>,
}

impl Pak {
    pub open spec fn pak_bytes(self, buf: Seq<u8>) -> Seq<u8> {
        let head = u32_bytes(PAK_VERSION) + u32_bytes(0u32) + u32_bytes(
            self.resources@.len() as u32,
        ) + entries_bytes(self.resources@, buf);
        head + zero_bytes(pad_len(head.len() as int, 32)) + blocks_bytes(self.resources@, buf)
    }

    pub open spec fn wf(self, buf: Seq<u8>) -> bool {
        &&& self.resources@.len() < 0x1_0000_0000
        &&& forall|i: int| 0 <= i < self.resources@.len() ==> self.resources@[i].wf(buf)
    }

    /// Every derived size field of the archive can describe its content.
    pub open spec fn size_ok(self, buf: Seq<u8>) -> bool {
        forall|i: int| 0 <= i < self.resources@.len() ==> self.resources@[i].size_ok(buf)
    }
}

/// Serialize a resource's payload on its own; fails exactly when a size
/// field inside a parsed room outgrows 32 bits.
pub fn try_serialize_resource_data(r: &Resource, buf: &Vec<u8>) -> (out: Result<Vec<u8>, ()>)
    requires
        r.wf(buf@),
    ensures
        match out {
            Ok(v) => v@ == r.res_bytes(buf@) && (r.kind matches ResourceKind::Area(m)
                ==> m.size_ok(buf@)),
            Err(_) => !r.size_ok(buf@),
        },
{
    proof {
        reveal(Resource::res_bytes);
    }
    match &r.kind {
        ResourceKind::Raw(c) => {
            let mut s = Sink::new();
            s.write_cursor(buf, c);
            Ok(s.into_bytes())
        },
        ResourceKind::External(v) => {
            let mut s = Sink::new();
            s.write_bytes(v);
            Ok(s.into_bytes())
        },
        ResourceKind::Area(m) => crate::mrea::try_write_mrea(m, buf),
    }
}

/// Serialize an archive.  The resource count and every size are recomputed
/// from the current resources; each data block is padded to a 32-byte
/// boundary.  Fails exactly when some size outgrows its 32-bit field.
pub fn try_write_pak(p: &Pak, buf: &Vec<u8>) -> (out: Result<Vec<u8>, ()>)
    requires
        p.wf(buf@),
    ensures
        match out {
            Ok(v) => v@ == p.pak_bytes(buf@),
            Err(_) => !p.size_ok(buf@),
        },
{
    let mut s = Sink::new();
    s.write_u32(PAK_VERSION);
    s.write_u32(0);
    s.write_u32(p.resources.len() as u32);
    let ghost head0 = s@;
    let mut i: usize = 0;
    while i < p.resources.len()
        invariant
            p.wf(buf@),
            i <= p.resources@.len(),
            forall|j: int| 0 <= j < i ==> p.resources@[j].size_ok(buf@),
            s@ == head0 + entries_bytes(p.resources@.take(i as int), buf@),
        decreases p.resources@.len() - i,
    {
        let r = &p.resources[i];
        let data = match try_serialize_resource_data(r, buf) {
            Ok(v) => v,
            Err(_) => { return Err(()); },
        };
        if (data.len() as u64) >= 0x1_0000_0000u64 {
            return Err(());
        }
        s.write_u32(if r.compressed { 1 } else { 0 });
        s.write_u32(r.fourcc);
        s.write_u32(r.id);
        s.write_u32(data.len() as u32);
        proof {
            reveal(Resource::entry_bytes);
            lemma_resources_push(p.resources@.take(i as int), p.resources@[i as int], buf@);
            assert(p.resources@.take(i as int).push(p.resources@[i as int]) =~= p.resources@.take(
                i + 1,
            ));
            assert(s@ =~= head0 + entries_bytes(p.resources@.take(i + 1), buf@));
        }
        i = i + 1;
    }
    assert(p.resources@.take(p.resources@.len() as int) =~= p.resources@);
    assert(forall|j: int| 0 <= j < p.resources@.len() ==> p.resources@[j].size_ok(buf@));
    s.write_padding(32);
    let ghost mid = s@;
    let mut i: usize = 0;
    while i < p.resources.len()
        invariant
            p.wf(buf@),
            i <= p.resources@.len(),
            forall|j: int| 0 <= j < p.resources@.len() ==> p.resources@[j].size_ok(buf@),
            s@ == mid + blocks_bytes(p.resources@.take(i as int), buf@),
            s@.len() as int % 32 == 0,
        decreases p.resources@.len() - i,
    {
        let r = &p.resources[i];
        let ghost aligned_len = s@.len() as int;
        let data = match try_serialize_resource_data(r, buf) {
            Ok(v) => v,
            Err(_) => { proof { assert(false); } Vec::new() },
        };
        s.write_bytes(&data);
        s.write_padding(32);
        proof {
            reveal(Resource::block_bytes);
            assert(pad_len(aligned_len + data@.len(), 32) == pad_len(data@.len() as int, 32))
                by (nonlinear_arith)
                requires
                    aligned_len % 32 == 0,
                    aligned_len >= 0,
                    data@.len() >= 0,
            ;
            lemma_resources_push(p.resources@.take(i as int), p.resources@[i as int], buf@);
            assert(p.resources@.take(i as int).push(p.resources@[i as int]) =~= p.resources@.take(
                i + 1,
            ));
            assert(s@ =~= mid + blocks_bytes(p.resources@.take(i + 1), buf@));
        }
        i = i + 1;
    }
    assert(p.resources@.take(p.resources@.len() as int) =~= p.resources@);
    assert(s@ =~= p.pak_bytes(buf@));
    Ok(s.into_bytes())
}

/// Parse an archive whose bytes start at a 32-byte boundary of the input
/// buffer.  Resources stay raw; the trailing padding of each block must be
/// canonical (zero) for the archive to be accepted.
#[verifier::rlimit(100)]
pub fn parse_pak(c: &mut Cursor, buf: &Vec<u8>) -> (r: Option<Pak>)
    requires
        old(c).valid(buf@),
        old(c).pos as int % 32 == 0,
    ensures
        final(c).valid(buf@),
        final(c).end == old(c).end,
        match r {
            Some(p) => {
                &&& p.wf(buf@)
                &&& old(c).pos <= final(c).pos
                &&& p.pak_bytes(buf@) == buf@.subrange(old(c).pos as int, final(c).pos as int)
                &&& forall|j: int|
                    0 <= j < p.resources@.len() ==> #[trigger] p.resources@[j].kind is Raw
            },
            None => true,
        },
{
    let ghost start = old(c).pos as int;
    match c.expect_u32(buf, PAK_VERSION) {
        Some(v) => v,
        None => { return None; },
    };
    match c.expect_u32(buf, 0) {
        Some(v) => v,
        None => { return None; },
    };
    let count = match c.read_u32(buf) {
        Some(v) => v,
        None => { return None; },
    };
    if (count as usize) > (c.end - c.pos) / 16 {
        return None;
    }
    // Table rows: (compressed, fourcc, id, size).
    let mut rows: Vec<(bool, u32, u32, u32)> = Vec::new();
    let ghost table_start = c.pos as int;
    let mut i: usize = 0;
    while i < count as usize
        invariant
            c.valid(buf@),
            c.end == old(c).end,
            0 <= table_start <= c.pos,
            c.pos + (count as usize - i) * 16 <= c.end,
            i <= count as usize,
            rows@.len() == i,
            buf@.subrange(table_start, c.pos as int) == rows_bytes(rows@),
        decreases count as usize - i,
    {
        let ghost p0 = c.pos as int;
        let flag = match c.read_u32(buf) {
            Some(v) => v,
            None => { return None; },
        };
        if flag != 0 && flag != 1 {
            return None;
        }
        let fourcc = match c.read_u32(buf) {
            Some(v) => v,
            None => { return None; },
        };
        let id = match c.read_u32(buf) {
            Some(v) => v,
            None => { return None; },
        };
        let size = match c.read_u32(buf) {
            Some(v) => v,
            None => { return None; },
        };
        let row = (flag == 1, fourcc, id, size);
        proof {
            lemma_rows_bytes_push(rows@, row);
            lemma_subrange_adjacent(buf@, table_start, p0, c.pos as int);
            assert(row_bytes(row) =~= buf@.subrange(p0, c.pos as int));
        }
        rows.push(row);
        i = i + 1;
    }
    match c.skip_padding(buf, 32) {
        Some(v) => v,
        None => { return None; },
    };
    let mut resources: Vec<Resource> = Vec::new();
    let ghost blocks_start = c.pos as int;
    let mut i: usize = 0;
    while i < count as usize
        invariant
            c.valid(buf@),
            c.end == old(c).end,
            0 <= blocks_start <= c.pos,
            c.pos as int % 32 == 0,
            i <= count as usize,
            rows@.len() == count,
            resources@.len() == i,
            forall|j: int| 0 <= j < resources@.len() ==> resources@[j].wf(buf@),
            forall|j: int| 0 <= j < resources@.len() ==> #[trigger] resources@[j].kind is Raw,
            forall|j: int|
                0 <= j < resources@.len() ==> resources@[j].entry_bytes(buf@) == row_bytes(
                    rows@[j],
                ),
            blocks_bytes(resources@, buf@) == buf@.subrange(blocks_start, c.pos as int),
        decreases count as usize - i,
    {
        let (compressed, fourcc, id, size) = rows[i];
        if (size as usize) > c.end - c.pos {
            return None;
        }
        let ghost p0 = c.pos as int;
        let data_cursor = c.truncated(size as usize);
        c.pos = c.pos + size as usize;
        match c.skip_padding(buf, 32) {
            Some(v) => v,
            None => { return None; },
        };
        let res = Resource { compressed, fourcc, id, kind: ResourceKind::Raw(data_cursor) };
        proof {
            reveal(Resource::res_bytes);
            reveal(Resource::entry_bytes);
            reveal(Resource::block_bytes);
            assert(pad_len(p0 + size, 32) == pad_len(size as int, 32)) by (nonlinear_arith)
                requires
                    p0 % 32 == 0,
                    p0 >= 0,
                    size >= 0,
            ;
            lemma_resources_push(resources@, res, buf@);
            lemma_subrange_adjacent(buf@, blocks_start, p0, c.pos as int);
            assert(res.block_bytes(buf@) =~= buf@.subrange(p0, c.pos as int));
            assert(res.entry_bytes(buf@) =~= row_bytes(rows@[i as int]));
        }
        resources.push(res);
        i = i + 1;
    }
    let p = Pak { resources };
    proof {
        lemma_rows_vs_entries(rows@, p.resources@, buf@);
        let head_end = table_start + 16 * count;
        assert((head_end - start) % 32 == head_end % 32) by (nonlinear_arith)
            requires
                start % 32 == 0,
                0 <= start <= head_end,
        ;
        assert(p.pak_bytes(buf@) =~= buf@.subrange(start, c.pos as int));
    }
    Some(p)
}

/// Table row bytes as read, before the sizes are known to match the blocks.
pub open spec fn row_bytes(r: (bool, u32, u32, u32)) -> Seq<u8> {
    u32_bytes(if r.0 { 1u32 } else { 0u32 }) + u32_bytes(r.1) + u32_bytes(r.2) + u32_bytes(r.3)
}

pub open spec fn rows_bytes(s: Seq<(bool, u32, u32, u32)>) -> Seq<u8>
    decreases s.len(),
{
    if s.len() == 0 {
        Seq::empty()
    } else {
        rows_bytes(s.drop_last()) + row_bytes(s.last())
    }
}

pub proof fn lemma_rows_bytes_push(s: Seq<(bool, u32, u32, u32)>, r: (bool, u32, u32, u32))
    ensures
        rows_bytes(s.push(r)) == rows_bytes(s) + row_bytes(r),
{
    assert(s.push(r).drop_last() =~= s);
    assert(s.push(r).last() == r);
}

pub proof fn lemma_rows_vs_entries(
    rows: Seq<(bool, u32, u32, u32)>,
    rs: Seq<Resource>,
    buf: Seq<u8>,
)
    requires
        rows.len() == rs.len(),
        forall|j: int| 0 <= j < rs.len() ==> rs[j].entry_bytes(buf) == row_bytes(rows[j]),
    ensures
        rows_bytes(rows) == entries_bytes(rs, buf),
    decreases rs.len(),
{
    if rs.len() > 0 {
        lemma_rows_vs_entries(rows.drop_last(), rs.drop_last(), buf);
    }
}

/// A still-raw resource payload taken out for decompression.
#[derive(Clone, Debug)]
pub struct ResourceData {
    pub is_compressed: bool,
    pub data: Cursor,
}

impl ResourceData {
    /// Only a still-raw resource may be wrapped.
    pub fn new(res: &Resource) -> (r: ResourceData)
        requires
            res.kind is Raw,
        ensures
            r.is_compressed == res.compressed,
            r.data == res.kind.arrow_Raw_0(),
    {
        let reader = match &res.kind {
            ResourceKind::Raw(c) => c.clone(),
            _ => { unreached() },
        };
        ResourceData { is_compressed: res.compressed, data: reader }
    }

    /// The 32-bit decompressed-size prefix of a compressed payload.
    pub open spec fn spec_size_prefix(self, buf: Seq<u8>) -> int {
        let raw = self.data.data(buf);
        be_u32(raw[0], raw[1], raw[2], raw[3])
    }

    /// The payload as plain bytes.  A compressed payload holds a 32-bit
    /// decompressed size, a 16-bit stream header, then a DEFLATE stream; the
    /// result is exactly the prefix-sized buffer holding the decoded stream
    /// (zero-filled past a shorter decode).  A corrupt or oversized stream
    /// is an error, never a partial result.
    pub fn decompress(&self, buf: &Vec<u8>) -> (r: Result<Vec<u8>, ()>)
        requires
            self.data.valid(buf@),
        ensures
            match r {
                Ok(v) => {
                    if self.is_compressed {
                        &&& self.data.remaining() >= 6
                        &&& v@.len() == self.spec_size_prefix(buf@)
                        &&& inflate_of(self.data.data(buf@).skip(6)) matches Some(d) && d.len()
                            <= v@.len() && v@ == d + zb(v@.len() - d.len())
                    } else {
                        v@ == self.data.data(buf@)
                    }
                },
                Err(_) => {
                    &&& self.is_compressed
                    &&& self.data.remaining() < 6 || !(inflate_of(
                        self.data.data(buf@).skip(6),
                    ) matches Some(d) && d.len() <= self.spec_size_prefix(buf@))
                },
            },
    {
        if self.is_compressed {
            let mut c = self.data.clone();
            let size = match c.read_u32(buf) {
                Some(v) => v,
                None => { return Err(()); },
            };
            let _header = match c.read_u16(buf) {
                Some(v) => v,
                None => { return Err(()); },
            };
            let rest = c.end - c.pos;
            let stream = match c.read_bytes(buf, rest) {
                Some(v) => v,
                None => { return Err(()); },
            };
            assert(stream@ =~= self.data.data(buf@).skip(6));
            let mut out = match inflate(&stream, size) {
                Ok(v) => v,
                Err(_) => { return Err(()); },
            };
            let ghost decoded = out@;
            assert(out@ =~= decoded + zb(0));
            // The game's buffers are always exactly the prefixed size.
            while out.len() < size as usize
                invariant
                    decoded.len() <= out@.len() <= size,
                    out@ == decoded + zb(out@.len() - decoded.len()),
                decreases size as usize - out@.len(),
            {
                out.push(0);
                assert(out@ =~= decoded + zb(out@.len() - decoded.len()));
            }
            proof {
                let raw = self.data.data(buf@);
                assert(raw[0] == buf@[self.data.pos as int]);
                assert(out@.len() == self.spec_size_prefix(buf@));
            }
            Ok(out)
        } else {
            let mut s = Sink::new();
            s.write_cursor(buf, &self.data);
            Ok(s.into_bytes())
        }
    }
}

} // verus!
