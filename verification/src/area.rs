//! A room being patched: its scripting section, the layer-active bitmask and
//! the per-layer dependency lists, taken together so patches can mutate them
//! in one place.

use vstd::prelude::*;
use crate::mrea::{Mrea, MreaSection};
use crate::scly::{Scly, SclyLayer};
use crate::bytes::Cursor;

verus! {

/// A `(asset id, type tag)` reference a layer needs loaded.
#[derive(Clone, Copy, Debug, PartialEq, Eq, Structural)]
pub struct Dependency {
    pub asset_id: u32,
    pub asset_type: u32,
}

/// Which layers exist and which start active.
#[derive(Clone, Copy, Debug, PartialEq, Eq, Structural)]
pub struct LayerFlags {
    pub layer_count: u32,
    pub flags: u64,
}

/// A room under patching: area metadata, the live scripting section, and the
/// room resource whose scripting slot will be refilled at re-assembly.
#[derive(Debug)]
pub struct MlvlArea {
    pub internal_id: u32,
    pub layer_flags: LayerFlags,
    pub layer_names: Vec<Vec<u8>>,
    pub layer_deps: Vec<Vec<Dependency>>,
    pub scly: Scly,
    pub mrea: Mrea,
}

/// The dependency list after appending the keys that are not yet present,
/// in order, each at most once.
pub open spec fn add_deps_spec(cur: Seq<Dependency>, keys: Seq<Dependency>) -> Seq<Dependency>
    decreases keys.len(),
{
    if keys.len() == 0 {
        cur
    } else {
        let cur2 = if cur.contains(keys[0]) {
            cur
        } else {
            cur.push(keys[0])
        };
        add_deps_spec(cur2, keys.skip(1))
    }
}

/// Appending keys never removes anything and adds only keys.
pub proof fn lemma_add_deps_contains(cur: Seq<Dependency>, keys: Seq<Dependency>)
    ensures
        forall|d: Dependency|
            add_deps_spec(cur, keys).contains(d) <==> cur.contains(d) || keys.contains(d),
    decreases keys.len(),
{
    if keys.len() > 0 {
        let cur2 = if cur.contains(keys[0]) {
            cur
        } else {
            cur.push(keys[0])
        };
        lemma_add_deps_contains(cur2, keys.skip(1));
        assert forall|d: Dependency| cur2.contains(d) <==> cur.contains(d) || d == keys[0] by {
            if cur.contains(d) {
                assert(cur2.contains(d)) by {
                    let i = choose|i: int| 0 <= i < cur.len() && cur[i] == d;
                    assert(cur2[i] == d);
                }
            }
            if d == keys[0] && !cur.contains(d) {
                assert(cur2[cur.len() as int] == d);
            }
        }
        assert forall|d: Dependency| keys.contains(d) <==> d == keys[0] || keys.skip(1).contains(
            d,
        ) by {
            if keys.contains(d) {
                let i = choose|i: int| 0 <= i < keys.len() && keys[i] == d;
                if i > 0 {
                    assert(keys.skip(1)[i - 1] == d);
                }
            }
            if keys.skip(1).contains(d) {
                let i = choose|i: int| 0 <= i < keys.skip(1).len() && keys.skip(1)[i] == d;
                assert(keys[i + 1] == d);
            }
        }
    }
}

/// Keys that are all already present change nothing.
pub proof fn lemma_add_deps_absorbed(cur: Seq<Dependency>, keys: Seq<Dependency>)
    requires
        forall|d: Dependency| keys.contains(d) ==> cur.contains(d),
    ensures
        add_deps_spec(cur, keys) == cur,
    decreases keys.len(),
{
    if keys.len() > 0 {
        assert(keys.contains(keys[0]));
        assert forall|d: Dependency| keys.skip(1).contains(d) implies cur.contains(d) by {
            let i = choose|i: int| 0 <= i < keys.skip(1).len() && keys.skip(1)[i] == d;
            assert(keys[i + 1] == d);
        }
        lemma_add_deps_absorbed(cur, keys.skip(1));
    }
}

/// Injecting two key lists one after the other equals injecting their
/// concatenation: overlapping keys are absorbed, so two calls with
/// overlapping sets give the same list as one call with the union.
pub proof fn lemma_add_deps_idempotent(
    cur: Seq<Dependency>,
    a: Seq<Dependency>,
    b: Seq<Dependency>,
)
    ensures
        add_deps_spec(add_deps_spec(cur, a), b) == add_deps_spec(cur, a + b),
    decreases a.len(),
{
    if a.len() == 0 {
        assert(a + b =~= b);
        assert(add_deps_spec(cur, a) == cur);
    } else {
        let cur2 = if cur.contains(a[0]) {
            cur
        } else {
            cur.push(a[0])
        };
        lemma_add_deps_idempotent(cur2, a.skip(1), b);
        assert((a + b).skip(1) =~= a.skip(1) + b);
        assert((a + b)[0] == a[0]);
    }
}

/// Injecting the same keys twice changes nothing the second time.
pub proof fn lemma_add_deps_twice(cur: Seq<Dependency>, keys: Seq<Dependency>)
    ensures
        add_deps_spec(add_deps_spec(cur, keys), keys) == add_deps_spec(cur, keys),
{
    lemma_add_deps_contains(cur, keys);
    lemma_add_deps_absorbed(add_deps_spec(cur, keys), keys);
}

impl MlvlArea {
    pub open spec fn wf(self, buf: Seq<u8>) -> bool {
        &&& self.mrea.wf(buf)
        &&& self.scly.wf()
        &&& self.layer_flags.layer_count <= 64
        &&& self.layer_names@.len() == self.layer_flags.layer_count
        &&& self.layer_deps@.len() == self.layer_flags.layer_count
        &&& self.scly.layers@.len() == self.layer_flags.layer_count
        &&& (self.layer_flags.layer_count < 64 ==> self.layer_flags.flags
            >> self.layer_flags.layer_count as u64 == 0)
    }

    /// Wrap a parsed room.  The scripting section is reinterpreted (if it
    /// still is raw) and taken out of its slot; re-assembly puts the patched
    /// section back.  The taken section serializes to exactly the bytes the
    /// slot held.
    #[verifier::rlimit(100)]
    pub fn new(
        mut mrea: Mrea,
        buf: &Vec<u8>,
        internal_id: u32,
        layer_flags: LayerFlags,
        layer_names: Vec<Vec<u8>>,
        layer_deps: Vec<Vec<Dependency>>,
    ) -> (r: Option<MlvlArea>)
        requires
            mrea.wf(buf@),
            layer_flags.layer_count <= 64,
            layer_flags.layer_count < 64 ==> layer_flags.flags >> layer_flags.layer_count as u64
                == 0,
            layer_names@.len() == layer_flags.layer_count,
            layer_deps@.len() == layer_flags.layer_count,
        ensures
            match r {
                Some(a) => {
                    &&& a.wf(buf@)
                    &&& a.internal_id == internal_id
                    &&& a.layer_flags == layer_flags
                    &&& a.scly.scly_bytes() == mrea.sections@[mrea.scly_section_idx as int].sec_bytes(buf@)
                    &&& a.mrea.scly_section_idx == mrea.scly_section_idx
                    &&& a.mrea.sections@.len() == mrea.sections@.len()
                    &&& forall|i: int|
                        0 <= i < mrea.sections@.len() && i != mrea.scly_section_idx
                            ==> a.mrea.sections@[i] == mrea.sections@[i]
                    &&& a.mrea.area_transform == mrea.area_transform
                    &&& a.mrea.world_model_count == mrea.world_model_count
                    &&& a.mrea.world_geometry_section_idx == mrea.world_geometry_section_idx
                    &&& a.mrea.collision_section_idx == mrea.collision_section_idx
                    &&& a.mrea.unknown_section_idx == mrea.unknown_section_idx
                    &&& a.mrea.lights_section_idx == mrea.lights_section_idx
                    &&& a.mrea.visibility_tree_section_idx == mrea.visibility_tree_section_idx
                    &&& a.mrea.path_section_idx == mrea.path_section_idx
                    &&& a.mrea.area_octree_section_idx == mrea.area_octree_section_idx
                },
                None => true,
            },
    {
        proof {
            reveal(Mrea::wf);
            reveal(MreaSection::wf);
            reveal(MreaSection::sec_bytes);
        }
        let ok = mrea.convert_scly_section(buf);
        if !ok {
            return None;
        }
        let idx = mrea.scly_section_idx as usize;
        let sec = mrea.sections.remove(idx);
        let scly = match sec {
            MreaSection::Scly(s) => s,
            MreaSection::Unknown(_) => { return None; },
        };
        if scly.layers.len() != layer_flags.layer_count as usize {
            return None;
        }
        mrea.sections.insert(idx, MreaSection::Unknown(Cursor { pos: 0, end: 0 }));
        let area = MlvlArea { internal_id, layer_flags, layer_names, layer_deps, scly, mrea };
        Some(area)
    }

    /// Re-assemble the room resource: the patched scripting section goes
    /// back into its slot, every other section is as it was.
    pub fn into_mrea(self) -> (r: Mrea)
        requires
            self.mrea.scly_section_idx < self.mrea.sections@.len(),
        ensures
            r.sections@ == self.mrea.sections@.update(
                self.mrea.scly_section_idx as int,
                MreaSection::Scly(self.scly),
            ),
            r.scly_section_idx == self.mrea.scly_section_idx,
            r.area_transform == self.mrea.area_transform,
            r.world_model_count == self.mrea.world_model_count,
            r.world_geometry_section_idx == self.mrea.world_geometry_section_idx,
            r.collision_section_idx == self.mrea.collision_section_idx,
            r.unknown_section_idx == self.mrea.unknown_section_idx,
            r.lights_section_idx == self.mrea.lights_section_idx,
            r.visibility_tree_section_idx == self.mrea.visibility_tree_section_idx,
            r.path_section_idx == self.mrea.path_section_idx,
            r.area_octree_section_idx == self.mrea.area_octree_section_idx,
    {
        let mut mrea = self.mrea;
        let idx = mrea.scly_section_idx as usize;
        mrea.sections.remove(idx);
        mrea.sections.insert(idx, MreaSection::Scly(self.scly));
        proof {
            assert(mrea.sections@ =~= self.mrea.sections@.update(
                self.mrea.scly_section_idx as int,
                MreaSection::Scly(self.scly),
            ));
        }
        mrea
    }

    /// Append a new layer: the next bit of the bitmask is set (the layer
    /// starts active), an empty dependency list and an empty object list are
    /// created for it.
    pub fn add_layer(&mut self, name: Vec<u8>)
        requires
            old(self).layer_flags.layer_count < 64,
            old(self).layer_flags.flags >> old(self).layer_flags.layer_count as u64 == 0,
        ensures
            final(self).layer_flags.layer_count == old(self).layer_flags.layer_count + 1,
            final(self).layer_flags.flags == old(self).layer_flags.flags | (
            1u64 << old(self).layer_flags.layer_count),
            // the new layer's bit is exactly the one bit that was added, and
            // it starts set (the layer starts active)
            final(self).layer_flags.flags != old(self).layer_flags.flags,
            final(self).layer_flags.flags & !old(self).layer_flags.flags == (
            1u64 << old(self).layer_flags.layer_count),
            final(self).layer_flags.layer_count < 64 ==> final(self).layer_flags.flags
                >> final(self).layer_flags.layer_count as u64 == 0,
            final(self).layer_names@ == old(self).layer_names@.push(name),
            final(self).layer_deps@.len() == old(self).layer_deps@.len() + 1,
            final(self).layer_deps@[old(self).layer_deps@.len() as int]@
                == Seq::<Dependency>::empty(),
            forall|i: int|
                #![trigger final(self).layer_deps@[i]]
                0 <= i < old(self).layer_deps@.len()
                    ==> final(self).layer_deps@[i] == old(self).layer_deps@[i],
            final(self).scly.layers@.len() == old(self).scly.layers@.len() + 1,
            final(self).scly.layers@[old(self).scly.layers@.len() as int].objects@.len() == 0,
            forall|i: int|
                0 <= i < old(self).scly.layers@.len() ==> final(self).scly.layers@[i] == old(
                    self,
                ).scly.layers@[i],
            final(self).internal_id == old(self).internal_id,
            final(self).mrea == old(self).mrea,
    {
        let idx = self.layer_flags.layer_count;
        let ghost f0 = self.layer_flags.flags;
        self.layer_flags.layer_count = idx + 1;
        self.layer_flags.flags = self.layer_flags.flags | (1u64 << idx);
        proof {
            let f1 = self.layer_flags.flags;
            assert(f1 != f0 && f1 & !f0 == 1u64 << (idx as u64) && (idx as u64 + 1 < 64 ==> f1
                >> (idx as u64 + 1) == 0)) by (bit_vector)
                requires
                    idx < 64u32,
                    f0 >> (idx as u64) == 0,
                    f1 == f0 | (1u64 << (idx as u64)),
            ;
        }
        self.layer_names.push(name);
        self.layer_deps.push(Vec::new());
        self.scly.layers.push(SclyLayer { unknown: 0, objects: Vec::new() });
    }

    /// Declare dependencies on a layer; a key already declared is not
    /// duplicated, so repeated injection of overlapping sets is idempotent.
    pub fn add_dependencies(&mut self, layer_idx: usize, keys: &Vec<Dependency>)
        requires
            layer_idx < old(self).layer_deps@.len(),
        ensures
            final(self).layer_deps@.len() == old(self).layer_deps@.len(),
            final(self).layer_deps@[layer_idx as int]@ == add_deps_spec(
                old(self).layer_deps@[layer_idx as int]@,
                keys@,
            ),
            forall|i: int|
                #![trigger final(self).layer_deps@[i]]
                0 <= i < old(self).layer_deps@.len() && i != layer_idx
                    ==> final(self).layer_deps@[i] == old(self).layer_deps@[i],
            final(self).internal_id == old(self).internal_id,
            final(self).layer_flags == old(self).layer_flags,
            final(self).layer_names == old(self).layer_names,
            final(self).scly == old(self).scly,
            final(self).mrea == old(self).mrea,
    {
        let mut cur = self.layer_deps.remove(layer_idx);
        let ghost cur0 = cur@;
        assert(keys@.skip(0) =~= keys@);
        let mut i: usize = 0;
        while i < keys.len()
            invariant
                i <= keys@.len(),
                add_deps_spec(cur0, keys@) == add_deps_spec(cur@, keys@.skip(i as int)),
            decreases keys@.len() - i,
        {
            let k = keys[i];
            let mut found = false;
            let mut j: usize = 0;
            while j < cur.len()
                invariant
                    j <= cur@.len(),
                    found <==> exists|x: int| 0 <= x < j && cur@[x] == k,
                decreases cur@.len() - j,
            {
                if cur[j].asset_id == k.asset_id && cur[j].asset_type == k.asset_type {
                    found = true;
                }
                j = j + 1;
            }
            let ghost pre = cur@;
            if !found {
                assert(!cur@.contains(k));
                cur.push(k);
            } else {
                assert(cur@.contains(k));
            }
            proof {
                assert(keys@.skip(i as int)[0] == keys@[i as int]);
                assert(keys@.skip(i as int).skip(1) =~= keys@.skip(i + 1));
            }
            i = i + 1;
        }
        assert(keys@.skip(keys@.len() as int) =~= Seq::<Dependency>::empty());
        self.layer_deps.insert(layer_idx, cur);
        proof {
            assert(final(self).layer_deps@ =~= old(self).layer_deps@.update(
                layer_idx as int,
                final(self).layer_deps@[layer_idx as int],
            ));
        }
    }
}

/// Wrap a parsed room whose layer metadata is not separately available:
/// the layer count comes from the scripting section itself and every
/// existing layer starts active.
pub fn area_from_mrea(mut mrea: Mrea, buf: &Vec<u8>, internal_id: u32) -> (r: Option<MlvlArea>)
    requires
        mrea.wf(buf@),
    ensures
        match r {
            Some(a) => {
                &&& a.wf(buf@)
                &&& a.internal_id == internal_id
                &&& a.scly.scly_bytes() == mrea.sections@[mrea.scly_section_idx as int].sec_bytes(
                    buf@,
                )
            },
            None => true,
        },
{
    proof {
        reveal(crate::mrea::Mrea::wf);
    }
    let ok = mrea.convert_scly_section(buf);
    if !ok {
        return None;
    }
    let idx = mrea.scly_section_idx as usize;
    let count: usize = match &mrea.sections[idx] {
        MreaSection::Scly(s) => s.layers.len(),
        MreaSection::Unknown(_) => { return None; },
    };
    if count > 64 {
        return None;
    }
    let count32 = count as u32;
    let flags: u64 = if count == 64 {
        0xFFFF_FFFF_FFFF_FFFFu64
    } else {
        proof {
            let c = count32;
            assert(1u64 << c >= 1) by (bit_vector)
                requires
                    c < 64,
            ;
        }
        (1u64 << count32) - 1
    };
    proof {
        let c = count32;
        let f = flags;
        assert(c < 64 ==> f >> c == 0) by (bit_vector)
            requires
                c < 64 ==> f + 1 == (1u64 << c),
        ;
    }
    let mut layer_names: Vec<Vec<u8>> = Vec::new();
    let mut layer_deps: Vec<Vec<Dependency>> = Vec::new();
    let mut i: usize = 0;
    while i < count
        invariant
            i <= count,
            layer_names@.len() == i,
            layer_deps@.len() == i,
        decreases count - i,
    {
        layer_names.push(Vec::new());
        layer_deps.push(Vec::new());
        i = i + 1;
    }
    MlvlArea::new(
        mrea,
        buf,
        internal_id,
        LayerFlags { layer_count: count32, flags },
        layer_names,
        layer_deps,
    )
}

} // verus!
