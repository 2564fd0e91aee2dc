//! The room resource: area metadata followed by counted, sized sections, one
//! of which is the scripting section.
//!
//! Sections stay as raw byte ranges until something asks for the scripting
//! section, which is then parsed in place and never re-parsed.  At write time
//! the section count and every section size are recomputed from the current
//! content, so a patched scripting section that grew or shrank is always
//! described correctly.

use vstd::prelude::*;
use crate::bytes::{Cursor, Sink, lemma_subrange_adjacent, pad_len, u32_bytes, zero_bytes};
use crate::scly::{Scly, parse_scly};

verus! {

pub const MREA_MAGIC: u32 = 0xDEADBEEF;

pub const MREA_VERSION: u32 = 0xF;

/// One section: still-raw bytes of the input buffer, or the parsed scripting
/// section.
#[derive(Clone, Debug)]
pub enum MreaSection {
    Unknown(Cursor),
    Scly(Scly),
}

impl MreaSection {
    #[verifier::opaque]
    pub open spec fn sec_bytes(self, buf: Seq<u8>) -> Seq<u8> {
        match self {
            MreaSection::Unknown(c) => c.data(buf),
            MreaSection::Scly(s) => s.scly_bytes(),
        }
    }

    #[verifier::opaque]
    pub open spec fn wf(self, buf: Seq<u8>) -> bool {
        match self {
            MreaSection::Unknown(c) => c.valid(buf),
            MreaSection::Scly(s) => s.wf(),
        }
    }

    /// The derived size field can describe the section.
    pub open spec fn size_ok(self, buf: Seq<u8>) -> bool {
        &&& self.sec_bytes(buf).len() < 0x1_0000_0000
        &&& match self {
            MreaSection::Unknown(_) => true,
            MreaSection::Scly(s) => s.size_ok(),
        }
    }

    /// Reinterpret a raw section as the scripting section, in place; once
    /// parsed, later calls find the parsed value and do not parse again.
    /// The serialized form never changes.  Returns false only when the raw
    /// bytes do not form a well-formed scripting section.
    pub fn convert_to_scly(&mut self, buf: &Vec<u8>) -> (ok: bool)
        requires
            old(self).wf(buf@),
        ensures
            final(self).wf(buf@),
            final(self).sec_bytes(buf@) == old(self).sec_bytes(buf@),
            ok ==> *final(self) is Scly,
            !ok ==> *final(self) == *old(self),
            *old(self) is Scly ==> ok && *final(self) == *old(self),
    {
        proof {
            reveal(MreaSection::wf);
            reveal(MreaSection::sec_bytes);
        }
        let mut c = match self {
            MreaSection::Unknown(c) => c.clone(),
            MreaSection::Scly(_) => { return true; },
        };
        let end = c.end;
        let parsed = match parse_scly(&mut c, buf) {
            Some(v) => v,
            None => { return false; },
        };
        if c.pos != end {
            // Trailing bytes that re-serialization would drop: refuse.
            return false;
        }
        *self = MreaSection::Scly(parsed);
        true
    }
}

pub open spec fn sections_bytes(s: Seq<MreaSection>, buf: Seq<u8>) -> Seq<u8>
    decreases s.len(),
{
    if s.len() == 0 {
        Seq::empty()
    } else {
        sections_bytes(s.drop_last(), buf) + s.last().sec_bytes(buf)
    }
}

pub open spec fn section_sizes_bytes(s: Seq<MreaSection>, buf: Seq<u8>) -> Seq<u8>
    decreases s.len(),
{
    if s.len() == 0 {
        Seq::empty()
    } else {
        section_sizes_bytes(s.drop_last(), buf) + u32_bytes(s.last().sec_bytes(buf).len() as u32)
    }
}

pub proof fn lemma_sections_push(s: Seq<MreaSection>, x: MreaSection, buf: Seq<u8>)
    ensures
        sections_bytes(s.push(x), buf) == sections_bytes(s, buf) + x.sec_bytes(buf),
        section_sizes_bytes(s.push(x), buf) == section_sizes_bytes(s, buf) + u32_bytes(
            x.sec_bytes(buf).len() as u32,
        ),
{
    assert(s.push(x).drop_last() =~= s);
    assert(s.push(x).last() == x);
}

/// A row of raw 32-bit values (the area transform).
pub open spec fn u32s_bytes(s: Seq<u32>) -> Seq<u8>
    decreases s.len(),
{
    if s.len() == 0 {
        Seq::empty()
    } else {
        u32s_bytes(s.drop_last()) + u32_bytes(s.last())
    }
}

pub proof fn lemma_u32s_bytes_push(s: Seq<u32>, v: u32)
    ensures
        u32s_bytes(s.push(v)) == u32s_bytes(s) + u32_bytes(v),
{
    assert(s.push(v).drop_last() =~= s);
    assert(s.push(v).last() == v);
}

/// Write a row of raw 32-bit values.
pub fn write_u32s(s: &mut Sink, vs: &Vec<u32>)
    ensures
        final(s)@ == old(s)@ + u32s_bytes(vs@),
{
    let mut i: usize = 0;
    while i < vs.len()
        invariant
            i <= vs@.len(),
            s@ == old(s)@ + u32s_bytes(vs@.take(i as int)),
        decreases vs@.len() - i,
    {
        s.write_u32(vs[i]);
        proof {
            lemma_u32s_bytes_push(vs@.take(i as int), vs@[i as int]);
            assert(vs@.take(i as int).push(vs@[i as int]) =~= vs@.take(i + 1));
        }
        i = i + 1;
    }
    assert(vs@.take(vs@.len() as int) =~= vs@);
}

/// Read `n` raw 32-bit values.  Succeeds exactly when the cursor still
/// holds that many.
pub fn read_u32s(c: &mut Cursor, buf: &Vec<u8>, n: usize) -> (r: Option<Vec<u32>>)
    requires
        old(c).valid(buf@),
    ensures
        final(c).valid(buf@),
        final(c).end == old(c).end,
        match r {
            Some(v) => {
                &&& v@.len() == n
                &&& old(c).pos <= final(c).pos
                &&& u32s_bytes(v@) == buf@.subrange(old(c).pos as int, final(c).pos as int)
            },
            None => true,
        },
        r is Some <==> n * 4 <= old(c).remaining(),
{
    if n > (c.end - c.pos) / 4 {
        return None;
    }
    let mut v: Vec<u32> = Vec::new();
    let ghost start = c.pos as int;
    let mut i: usize = 0;
    while i < n
        invariant
            c.valid(buf@),
            c.end == old(c).end,
            0 <= start <= c.pos,
            c.pos + (n - i) * 4 <= c.end,
            i <= n,
            v@.len() == i,
            u32s_bytes(v@) == buf@.subrange(start, c.pos as int),
        decreases n - i,
    {
        let ghost p0 = c.pos as int;
        proof {
            assert((n - i) * 4 >= 4) by (nonlinear_arith)
                requires
                    i < n,
            ;
        }
        let x = match c.read_u32(buf) {
            Some(x) => x,
            None => {
                proof {
                    assert(false);
                }
                return None;
            },
        };
        proof {
            lemma_u32s_bytes_push(v@, x);
            lemma_subrange_adjacent(buf@, start, p0, c.pos as int);
        }
        v.push(x);
        i = i + 1;
    }
    Some(v)
}

/// A room resource.  Only the scripting section is ever reinterpreted; all
/// other sections pass through as raw bytes.
#[derive(Clone, Debug)]
pub struct Mrea {
    pub area_transform: Vec<u32>,
    pub world_model_count: u32,
    pub world_geometry_section_idx: u32,
    pub scly_section_idx: u32,
    pub collision_section_idx: u32,
    pub unknown_section_idx: u32,
    pub lights_section_idx: u32,
    pub visibility_tree_section_idx: u32,
    pub path_section_idx: u32,
    pub area_octree_section_idx: u32,
    pub sections: Vec<MreaSection>,
}

impl Mrea {
    #[verifier::opaque]
    pub open spec fn head_bytes(self, buf: Seq<u8>) -> Seq<u8> {
        u32_bytes(MREA_MAGIC) + u32_bytes(MREA_VERSION) + u32s_bytes(self.area_transform@)
            + u32_bytes(self.world_model_count) + u32_bytes(self.sections@.len() as u32)
            + u32_bytes(self.world_geometry_section_idx) + u32_bytes(self.scly_section_idx)
            + u32_bytes(self.collision_section_idx) + u32_bytes(self.unknown_section_idx)
            + u32_bytes(self.lights_section_idx) + u32_bytes(self.visibility_tree_section_idx)
            + u32_bytes(self.path_section_idx) + u32_bytes(self.area_octree_section_idx)
            + section_sizes_bytes(self.sections@, buf)
    }

    /// Every derived size field of the room can describe its content.
    pub open spec fn size_ok(self, buf: Seq<u8>) -> bool {
        forall|i: int| 0 <= i < self.sections@.len() ==> self.sections@[i].size_ok(buf)
    }

    /// The serialized room: header and size table, padding to a 32-byte
    /// boundary, the sections back to back, and final padding.
    #[verifier::opaque]
    pub open spec fn mrea_bytes(self, buf: Seq<u8>) -> Seq<u8> {
        let head = self.head_bytes(buf);
        let aligned = head + zero_bytes(pad_len(head.len() as int, 32));
        let body = aligned + sections_bytes(self.sections@, buf);
        body + zero_bytes(pad_len(body.len() as int, 32))
    }

    #[verifier::opaque]
    pub open spec fn wf(self, buf: Seq<u8>) -> bool {
        &&& self.area_transform@.len() == 12
        &&& self.sections@.len() < 0x1_0000_0000
        &&& forall|i: int| 0 <= i < self.sections@.len() ==> self.sections@[i].wf(buf)
        &&& self.scly_section_idx < self.sections@.len()
    }

    /// Reinterpret the scripting section in place (memoized).
    pub fn convert_scly_section(&mut self, buf: &Vec<u8>) -> (ok: bool)
        requires
            old(self).wf(buf@),
        ensures
            final(self).wf(buf@),
            final(self).mrea_bytes(buf@) == old(self).mrea_bytes(buf@),
            final(self).sections@.len() == old(self).sections@.len(),
            final(self).scly_section_idx == old(self).scly_section_idx,
            final(self).sections@[final(self).scly_section_idx as int].sec_bytes(buf@) == old(
                self,
            ).sections@[old(self).scly_section_idx as int].sec_bytes(buf@),
            ok ==> final(self).sections@[final(self).scly_section_idx as int] is Scly,
            old(self).sections@[old(self).scly_section_idx as int] is Scly ==> ok,
            forall|i: int|
                0 <= i < old(self).sections@.len() && i != old(self).scly_section_idx
                    ==> final(self).sections@[i] == old(self).sections@[i],
            final(self).area_transform == old(self).area_transform,
            final(self).world_model_count == old(self).world_model_count,
            final(self).world_geometry_section_idx == old(self).world_geometry_section_idx,
            final(self).collision_section_idx == old(self).collision_section_idx,
            final(self).unknown_section_idx == old(self).unknown_section_idx,
            final(self).lights_section_idx == old(self).lights_section_idx,
            final(self).visibility_tree_section_idx == old(self).visibility_tree_section_idx,
            final(self).path_section_idx == old(self).path_section_idx,
            final(self).area_octree_section_idx == old(self).area_octree_section_idx,
    {
        proof {
            reveal(Mrea::wf);
            reveal(Mrea::mrea_bytes);
            reveal(Mrea::head_bytes);
        }
        let idx = self.scly_section_idx as usize;
        let mut sec = self.sections.remove(idx);
        let ok = sec.convert_to_scly(buf);
        self.sections.insert(idx, sec);
        proof {
            assert(self.sections@ =~= old(self).sections@.update(idx as int, sec));
            lemma_sections_bytes_update(old(self).sections@, idx as int, sec, buf@);
            assert(self.head_bytes(buf@) =~= old(self).head_bytes(buf@));
            assert(self.mrea_bytes(buf@) =~= old(self).mrea_bytes(buf@));
        }
        ok
    }
}

/// Replacing one section with one that serializes identically leaves the
/// concatenations unchanged.
pub proof fn lemma_sections_bytes_update(
    s: Seq<MreaSection>,
    i: int,
    x: MreaSection,
    buf: Seq<u8>,
)
    requires
        0 <= i < s.len(),
        x.sec_bytes(buf) == s[i].sec_bytes(buf),
    ensures
        sections_bytes(s.update(i, x), buf) == sections_bytes(s, buf),
        section_sizes_bytes(s.update(i, x), buf) == section_sizes_bytes(s, buf),
    decreases s.len(),
{
    if s.len() > 0 {
        if i == s.len() - 1 {
            assert(s.update(i, x).drop_last() =~= s.drop_last());
        } else {
            lemma_sections_bytes_update(s.drop_last(), i, x, buf);
            assert(s.update(i, x).drop_last() =~= s.drop_last().update(i, x));
            assert(s.update(i, x).last() == s.last());
        }
    }
}

/// Serialize a room resource.  The section count and every entry of the size
/// table equal the current sections' serialized lengths, whatever they were
/// when the room was parsed.  Fails exactly when some derived size outgrows
/// its 32-bit field.
pub fn try_write_mrea(m: &Mrea, buf: &Vec<u8>) -> (r: Result<Vec<u8>, ()>)
    requires
        m.wf(buf@),
    ensures
        match r {
            Ok(v) => m.size_ok(buf@) && v@ == m.mrea_bytes(buf@) && v@.len() as int % 32 == 0,
            Err(_) => !m.size_ok(buf@),
        },
{
    proof {
        reveal(Mrea::wf);
        reveal(MreaSection::wf);
        reveal(MreaSection::sec_bytes);
        reveal(Mrea::head_bytes);
        reveal(Mrea::mrea_bytes);
    }
    let mut s = Sink::new();
    s.write_u32(MREA_MAGIC);
    s.write_u32(MREA_VERSION);
    write_u32s(&mut s, &m.area_transform);
    s.write_u32(m.world_model_count);
    s.write_u32(m.sections.len() as u32);
    s.write_u32(m.world_geometry_section_idx);
    s.write_u32(m.scly_section_idx);
    s.write_u32(m.collision_section_idx);
    s.write_u32(m.unknown_section_idx);
    s.write_u32(m.lights_section_idx);
    s.write_u32(m.visibility_tree_section_idx);
    s.write_u32(m.path_section_idx);
    s.write_u32(m.area_octree_section_idx);
    let mut i: usize = 0;
    let ghost head0 = s@;
    while i < m.sections.len()
        invariant
            m.sections@.len() < 0x1_0000_0000,
            forall|j: int| 0 <= j < m.sections@.len() ==> m.sections@[j].wf(buf@),
            forall|j: int| 0 <= j < i ==> m.sections@[j].size_ok(buf@),
            i <= m.sections@.len(),
            s@ == head0 + section_sizes_bytes(m.sections@.take(i as int), buf@),
        decreases m.sections@.len() - i,
    {
        proof {
            reveal(MreaSection::wf);
            reveal(MreaSection::sec_bytes);
        }
        let sz = match &m.sections[i] {
            MreaSection::Unknown(c) => c.end - c.pos,
            MreaSection::Scly(sc) => {
                let blob = match try_serialize_scly_blob(sc) {
                    Ok(v) => v,
                    Err(_) => { return Err(()); },
                };
                blob.len()
            },
        };
        if (sz as u64) >= 0x1_0000_0000u64 {
            return Err(());
        }
        s.write_u32(sz as u32);
        proof {
            lemma_sections_push(m.sections@.take(i as int), m.sections@[i as int], buf@);
            assert(m.sections@.take(i as int).push(m.sections@[i as int]) =~= m.sections@.take(
                i + 1,
            ));
        }
        i = i + 1;
    }
    assert(m.sections@.take(m.sections@.len() as int) =~= m.sections@);
    assert(s@ == m.head_bytes(buf@));
    s.write_padding(32);
    assert(forall|j: int| 0 <= j < m.sections@.len() ==> m.sections@[j].size_ok(buf@));
    let ghost aligned0 = s@;
    let mut i: usize = 0;
    while i < m.sections.len()
        invariant
            m.sections@.len() < 0x1_0000_0000,
            forall|j: int| 0 <= j < m.sections@.len() ==> m.sections@[j].wf(buf@),
            forall|j: int| 0 <= j < m.sections@.len() ==> m.sections@[j].size_ok(buf@),
            i <= m.sections@.len(),
            s@ == aligned0 + sections_bytes(m.sections@.take(i as int), buf@),
        decreases m.sections@.len() - i,
    {
        proof {
            reveal(MreaSection::wf);
            reveal(MreaSection::sec_bytes);
        }
        match &m.sections[i] {
            MreaSection::Unknown(c) => s.write_cursor(buf, c),
            MreaSection::Scly(sc) => {
                match sc.try_write(&mut s) {
                    Ok(_) => (),
                    Err(_) => { proof { assert(false); } },
                };
            },
        };
        proof {
            lemma_sections_push(m.sections@.take(i as int), m.sections@[i as int], buf@);
            assert(m.sections@.take(i as int).push(m.sections@[i as int]) =~= m.sections@.take(
                i + 1,
            ));
        }
        i = i + 1;
    }
    assert(m.sections@.take(m.sections@.len() as int) =~= m.sections@);
    s.write_padding(32);
    assert(s@ == m.mrea_bytes(buf@));
    Ok(s.into_bytes())
}

/// Serialize a scripting section on its own (used to size it).
pub fn try_serialize_scly_blob(sc: &Scly) -> (r: Result<Vec<u8>, ()>)
    requires
        sc.wf(),
    ensures
        match r {
            Ok(v) => sc.size_ok() && v@ == sc.scly_bytes(),
            Err(_) => !sc.size_ok(),
        },
{
    let mut s = Sink::new();
    match sc.try_write(&mut s) {
        Ok(_) => Ok(s.into_bytes()),
        Err(_) => Err(()),
    }
}

/// Whether a size table's sections fit one after the other in `rem` bytes.
#[verifier::opaque]
pub open spec fn sections_fit(sizes: Seq<u32>, rem: int) -> bool
    decreases sizes.len(),
{
    if sizes.len() == 0 {
        true
    } else {
        sizes[0] <= rem && sections_fit(sizes.skip(1), rem - sizes[0])
    }
}

/// Slice `sizes.len()` raw sections off the cursor.  Succeeds exactly when
/// the declared sizes fit the remaining bytes; each section is an unparsed
/// raw range of exactly its declared size.
#[verifier::rlimit(60)]
pub fn parse_sections(c: &mut Cursor, buf: &Vec<u8>, sizes: &Vec<u32>) -> (r: Option<
    Vec<MreaSection>,
>)
    requires
        old(c).valid(buf@),
    ensures
        final(c).valid(buf@),
        final(c).end == old(c).end,
        match r {
            Some(v) => {
                &&& v@.len() == sizes@.len()
                &&& forall|j: int| 0 <= j < v@.len() ==> v@[j].wf(buf@)
                &&& forall|j: int| 0 <= j < v@.len() ==> #[trigger] v@[j] is Unknown
                &&& forall|j: int| 0 <= j < v@.len() ==> v@[j].sec_bytes(buf@).len() == sizes@[j]
                &&& old(c).pos <= final(c).pos
                &&& sections_bytes(v@, buf@) == buf@.subrange(
                    old(c).pos as int,
                    final(c).pos as int,
                )
            },
            None => true,
        },
        r is Some <==> sections_fit(sizes@, old(c).remaining()),
{
    proof {
        reveal(sections_fit);
    }
    let mut sections: Vec<MreaSection> = Vec::new();
    let ghost secs_start = c.pos as int;
    proof {
        assert(sizes@.skip(0) =~= sizes@);
    }
    let mut i: usize = 0;
    while i < sizes.len()
        invariant
            c.valid(buf@),
            c.end == old(c).end,
            0 <= secs_start <= c.pos,
            secs_start == old(c).pos,
            sections_fit(sizes@, old(c).remaining()) == sections_fit(
                sizes@.skip(i as int),
                c.remaining(),
            ),
            i <= sizes@.len(),
            sections@.len() == i,
            forall|j: int| 0 <= j < sections@.len() ==> sections@[j].wf(buf@),
            forall|j: int| 0 <= j < sections@.len() ==> #[trigger] sections@[j] is Unknown,
            forall|j: int|
                0 <= j < sections@.len() ==> sections@[j].sec_bytes(buf@).len() == sizes@[j],
            sections_bytes(sections@, buf@) == buf@.subrange(secs_start, c.pos as int),
        decreases sizes@.len() - i,
    {
        let sz = sizes[i];
        proof {
            reveal(sections_fit);
            assert(sizes@.skip(i as int)[0] == sizes@[i as int]);
            assert(sizes@.skip(i as int).skip(1) =~= sizes@.skip(i + 1));
        }
        if (sz as usize) > c.end - c.pos {
            proof {
                reveal(sections_fit);
                assert(!sections_fit(sizes@.skip(i as int), c.remaining()));
            }
            return None;
        }
        let ghost p0 = c.pos as int;
        let sec_cursor = c.truncated(sz as usize);
        let sec = MreaSection::Unknown(sec_cursor);
        proof {
            reveal(MreaSection::wf);
            reveal(MreaSection::sec_bytes);
            lemma_sections_push(sections@, sec, buf@);
            lemma_subrange_adjacent(buf@, secs_start, p0, p0 + sz);
        }
        sections.push(sec);
        c.pos = c.pos + sz as usize;
        i = i + 1;
    }
    proof {
        reveal(sections_fit);
        assert(sizes@.skip(sizes@.len() as int) =~= Seq::<u32>::empty());
    }
    Some(sections)
}

/// The room header's fixed fields, read as one unit.
pub struct MreaFields {
    pub area_transform: Vec<u32>,
    pub world_model_count: u32,
    pub section_count: u32,
    pub world_geometry_section_idx: u32,
    pub scly_section_idx: u32,
    pub collision_section_idx: u32,
    pub unknown_section_idx: u32,
    pub lights_section_idx: u32,
    pub visibility_tree_section_idx: u32,
    pub path_section_idx: u32,
    pub area_octree_section_idx: u32,
}

impl MreaFields {
    /// The serialized form of the fixed fields, magic and version included.
    pub open spec fn fields_bytes(self) -> Seq<u8> {
        u32_bytes(MREA_MAGIC) + u32_bytes(MREA_VERSION) + u32s_bytes(self.area_transform@)
            + u32_bytes(self.world_model_count) + u32_bytes(self.section_count) + u32_bytes(
            self.world_geometry_section_idx,
        ) + u32_bytes(self.scly_section_idx) + u32_bytes(self.collision_section_idx) + u32_bytes(
            self.unknown_section_idx,
        ) + u32_bytes(self.lights_section_idx) + u32_bytes(self.visibility_tree_section_idx)
            + u32_bytes(self.path_section_idx) + u32_bytes(self.area_octree_section_idx)
    }
}

/// Read the room header's fixed fields, checking the expected constants.
#[verifier::rlimit(60)]
fn parse_mrea_fields(c: &mut Cursor, buf: &Vec<u8>) -> (r: Option<MreaFields>)
    requires
        old(c).valid(buf@),
    ensures
        final(c).valid(buf@),
        final(c).end == old(c).end,
        match r {
            Some(h) => {
                &&& h.area_transform@.len() == 12
                &&& old(c).pos <= final(c).pos
                &&& h.fields_bytes() == buf@.subrange(old(c).pos as int, final(c).pos as int)
            },
            None => true,
        },
{
    match c.expect_u32(buf, MREA_MAGIC) {
        Some(v) => v,
        None => { return None; },
    };
    match c.expect_u32(buf, MREA_VERSION) {
        Some(v) => v,
        None => { return None; },
    };
    let area_transform = match read_u32s(c, buf, 12) {
        Some(v) => v,
        None => { return None; },
    };
    let world_model_count = match c.read_u32(buf) {
        Some(v) => v,
        None => { return None; },
    };
    let section_count = match c.read_u32(buf) {
        Some(v) => v,
        None => { return None; },
    };
    let world_geometry_section_idx = match c.read_u32(buf) {
        Some(v) => v,
        None => { return None; },
    };
    let scly_section_idx = match c.read_u32(buf) {
        Some(v) => v,
        None => { return None; },
    };
    let collision_section_idx = match c.read_u32(buf) {
        Some(v) => v,
        None => { return None; },
    };
    let unknown_section_idx = match c.read_u32(buf) {
        Some(v) => v,
        None => { return None; },
    };
    let lights_section_idx = match c.read_u32(buf) {
        Some(v) => v,
        None => { return None; },
    };
    let visibility_tree_section_idx = match c.read_u32(buf) {
        Some(v) => v,
        None => { return None; },
    };
    let path_section_idx = match c.read_u32(buf) {
        Some(v) => v,
        None => { return None; },
    };
    let area_octree_section_idx = match c.read_u32(buf) {
        Some(v) => v,
        None => { return None; },
    };
    let h = MreaFields {
        area_transform,
        world_model_count,
        section_count,
        world_geometry_section_idx,
        scly_section_idx,
        collision_section_idx,
        unknown_section_idx,
        lights_section_idx,
        visibility_tree_section_idx,
        path_section_idx,
        area_octree_section_idx,
    };
    proof {
        assert(h.fields_bytes() =~= buf@.subrange(old(c).pos as int, c.pos as int));
    }
    Some(h)
}

/// Parse a room resource whose bytes start at a 32-byte boundary of the
/// input buffer.  Sections are kept raw.
#[verifier::rlimit(100)]
pub fn parse_mrea(c: &mut Cursor, buf: &Vec<u8>) -> (r: Option<Mrea>)
    requires
        old(c).valid(buf@),
        old(c).pos as int % 32 == 0,
    ensures
        final(c).valid(buf@),
        final(c).end == old(c).end,
        match r {
            Some(m) => {
                &&& m.wf(buf@)
                &&& old(c).pos <= final(c).pos
                &&& m.mrea_bytes(buf@) == buf@.subrange(old(c).pos as int, final(c).pos as int)
            },
            None => true,
        },
{
    let ghost start = old(c).pos as int;
    let h = match parse_mrea_fields(c, buf) {
        Some(v) => v,
        None => { return None; },
    };
    let ghost fields_end = c.pos as int;
    if !(h.scly_section_idx < h.section_count) {
        return None;
    }
    let sizes = match read_u32s(c, buf, h.section_count as usize) {
        Some(v) => v,
        None => { return None; },
    };
    let ghost head_end = c.pos as int;
    match c.skip_padding(buf, 32) {
        Some(v) => v,
        None => { return None; },
    };
    let ghost secs_start = c.pos as int;
    let sections = match parse_sections(c, buf, &sizes) {
        Some(v) => v,
        None => { return None; },
    };
    let ghost secs_end = c.pos as int;
    match c.skip_padding(buf, 32) {
        Some(v) => v,
        None => { return None; },
    };
    let m = Mrea {
        area_transform: h.area_transform,
        world_model_count: h.world_model_count,
        world_geometry_section_idx: h.world_geometry_section_idx,
        scly_section_idx: h.scly_section_idx,
        collision_section_idx: h.collision_section_idx,
        unknown_section_idx: h.unknown_section_idx,
        lights_section_idx: h.lights_section_idx,
        visibility_tree_section_idx: h.visibility_tree_section_idx,
        path_section_idx: h.path_section_idx,
        area_octree_section_idx: h.area_octree_section_idx,
        sections,
    };
    proof {
        reveal(Mrea::wf);
        reveal(Mrea::head_bytes);
        reveal(Mrea::mrea_bytes);
        lemma_sizes_vs_sections(sizes@, m.sections@, buf@);
        lemma_subrange_adjacent(buf@, start, fields_end, head_end);
        assert(m.head_bytes(buf@) =~= buf@.subrange(start, head_end));
        assert((head_end - start) % 32 == head_end % 32) by (nonlinear_arith)
            requires
                start % 32 == 0,
                0 <= start <= head_end,
        ;
        assert((secs_end - start) % 32 == secs_end % 32) by (nonlinear_arith)
            requires
                start % 32 == 0,
                0 <= start <= secs_end,
        ;
        assert(m.mrea_bytes(buf@) =~= buf@.subrange(start, c.pos as int));
    }
    Some(m)
}

/// A size table whose entries equal the sections' serialized lengths encodes
/// the same bytes as the derived size table.
pub proof fn lemma_sizes_vs_sections(sizes: Seq<u32>, secs: Seq<MreaSection>, buf: Seq<u8>)
    requires
        sizes.len() == secs.len(),
        forall|j: int| 0 <= j < secs.len() ==> secs[j].sec_bytes(buf).len() == sizes[j],
    ensures
        u32s_bytes(sizes) == section_sizes_bytes(secs, buf),
    decreases secs.len(),
{
    if secs.len() > 0 {
        lemma_sizes_vs_sections(sizes.drop_last(), secs.drop_last(), buf);
    }
}

} // verus!
