//! Patch-run state: the fresh instance-id allocator, and the registry of
//! patches applied in registration order.

use vstd::prelude::*;
use crate::area::MlvlArea;
use crate::patches::{
    SclyPatchAction, apply_scly_patch, scly_action_ok, scly_action_rel, lemma_action_rel_widen,
};

verus! {

/// Fresh ids start well above every id the unpatched disc uses.
pub const FRESH_INSTANCE_ID_START: u32 = 0xDEAD0000;

/// Per-run state handed to every patch: a monotonically increasing counter
/// of instance ids.
#[derive(Clone, Copy, Debug, PartialEq, Eq, Structural)]
pub struct PatcherState {
    pub next_instance_id: u32,
}

impl PatcherState {
    pub fn new() -> (r: PatcherState)
        ensures
            r.next_instance_id == FRESH_INSTANCE_ID_START,
    {
        PatcherState { next_instance_id: FRESH_INSTANCE_ID_START }
    }

    /// Issue the next fresh id.  Ids are handed out strictly increasing, so
    /// every id from one run is distinct from every other.
    pub fn fresh_instance_id(&mut self) -> (r: u32)
        requires
            old(self).next_instance_id < 0xFFFF_FFFF,
        ensures
            r == old(self).next_instance_id,
            final(self).next_instance_id == old(self).next_instance_id + 1,
    {
        let id = self.next_instance_id;
        self.next_instance_id = id + 1;
        id
    }
}

/// The ids a run starting at `start` hands out: `start`, `start + 1`, ...
pub open spec fn issued_ids(start: u32, n: nat) -> Seq<u32> {
    Seq::new(n, |i: int| (start + i) as u32)
}

/// Fresh-id collision freedom: however many ids one run allocates, they are
/// pairwise distinct, and all distinct from every id that existed before the
/// run began (every id below the starting point).
pub proof fn lemma_fresh_ids_collision_free(start: u32, n: nat, existing: Set<u32>)
    requires
        start + n <= 0x1_0000_0000,
        forall|e: u32| existing.contains(e) ==> e < start,
    ensures
        forall|i: int, j: int|
            0 <= i < j < n ==> issued_ids(start, n)[i] != issued_ids(start, n)[j],
        forall|i: int, e: u32|
            0 <= i < n && existing.contains(e) ==> issued_ids(start, n)[i] != e,
{
}

/// An id carrying its owning layer in the top six bits and a local id below:
/// the exact encoding the game reads back.
pub fn layer_encoded_id(layer: u32, local: u32) -> (r: u32)
    requires
        layer < 64,
        local < 0x4000000,
    ensures
        r == layer * 0x4000000 + local,
        r == (layer << 26u32) | local,
{
    proof {
        assert((layer << 26u32) | local == layer * 0x4000000 + local) by (bit_vector)
            requires
                layer < 64 && local < 0x4000000,
        ;
    }
    (layer << 26u32) | local
}

/// Two layer-encoded ids collide only if both the layer and the local id
/// agree: ids minted for different layers never collide, whatever the
/// allocation order within each layer was.
pub proof fn lemma_layer_encoded_ids_distinct(l1: u32, o1: u32, l2: u32, o2: u32)
    requires
        l1 < 64,
        l2 < 64,
        o1 < 0x4000000,
        o2 < 0x4000000,
        l1 != l2 || o1 != o2,
    ensures
        l1 * 0x4000000 + o1 != l2 * 0x4000000 + o2,
{
    assert(l1 * 0x4000000 + o1 != l2 * 0x4000000 + o2) by (nonlinear_arith)
        requires
            l1 < 64 && l2 < 64 && o1 < 0x4000000 && o2 < 0x4000000 && (l1 != l2 || o1 != o2),
    ;
}



/// One registered patch applied to every room carrying its resource id:
/// matching rooms relate to their old selves by the action's effect, the
/// rest are untouched, and fresh ids come from `[id_lo, id_hi)`.
pub open spec fn patch_applies(
    patch: SclyPatch,
    id_lo: u32,
    rooms0: Seq<(u32, MlvlArea)>,
    id_hi: u32,
    rooms1: Seq<(u32, MlvlArea)>,
) -> bool {
    &&& rooms1.len() == rooms0.len()
    &&& id_lo <= id_hi
    &&& (exists|j: int| 0 <= j < rooms0.len() && rooms0[j].0 == patch.mrea_id)
    &&& (forall|j: int|
        #![trigger rooms1[j]]
        0 <= j < rooms0.len() ==> rooms1[j].0 == rooms0[j].0 && (if rooms0[j].0 == patch.mrea_id {
            scly_action_ok(patch.action, rooms0[j].1) && scly_action_rel(
                patch.action,
                rooms0[j].1,
                rooms1[j].1,
                id_lo,
                id_hi,
            )
        } else {
            rooms1[j] == rooms0[j]
        }))
}

/// The whole run: the registered patches applied one after the other, in
/// registration order.
pub open spec fn run_rel(
    patches: Seq<SclyPatch>,
    id_lo: u32,
    rooms0: Seq<(u32, MlvlArea)>,
    id_hi: u32,
    rooms1: Seq<(u32, MlvlArea)>,
) -> bool
    decreases patches.len(),
{
    if patches.len() == 0 {
        id_hi == id_lo && rooms1 == rooms0
    } else {
        exists|mid: u32, roomsm: Seq<(u32, MlvlArea)>|
            #[trigger] patch_applies(patches[0], id_lo, rooms0, mid, roomsm) && run_rel(
                patches.skip(1),
                mid,
                roomsm,
                id_hi,
                rooms1,
            )
    }
}

/// Extending a run by one more applied patch.
pub proof fn lemma_run_rel_snoc(
    patches: Seq<SclyPatch>,
    p: SclyPatch,
    id_lo: u32,
    rooms0: Seq<(u32, MlvlArea)>,
    id_mid: u32,
    roomsm: Seq<(u32, MlvlArea)>,
    id_hi: u32,
    rooms1: Seq<(u32, MlvlArea)>,
)
    requires
        run_rel(patches, id_lo, rooms0, id_mid, roomsm),
        patch_applies(p, id_mid, roomsm, id_hi, rooms1),
    ensures
        run_rel(patches.push(p), id_lo, rooms0, id_hi, rooms1),
    decreases patches.len(),
{
    if patches.len() == 0 {
        assert(patches.push(p)[0] == p);
        assert(patches.push(p).skip(1) =~= Seq::<SclyPatch>::empty());
        assert(rooms0 == roomsm && id_lo == id_mid);
        assert(run_rel(patches.push(p).skip(1), id_hi, rooms1, id_hi, rooms1));
    } else {
        let (m0, r0): (u32, Seq<(u32, MlvlArea)>) = choose|m: u32, r: Seq<(u32, MlvlArea)>|
            #[trigger] patch_applies(patches[0], id_lo, rooms0, m, r) && run_rel(
                patches.skip(1),
                m,
                r,
                id_mid,
                roomsm,
            );
        lemma_run_rel_snoc(patches.skip(1), p, m0, r0, id_mid, roomsm, id_hi, rooms1);
        assert(patches.push(p)[0] == patches[0]);
        assert(patches.push(p).skip(1) =~= patches.skip(1).push(p));
    }
}

/// The patch can make no progress on these rooms: no room carries its id,
/// or some room that does cannot take the action.
pub open spec fn patch_blocked(patch: SclyPatch, rooms: Seq<(u32, MlvlArea)>) -> bool {
    ||| (forall|j: int| 0 <= j < rooms.len() ==> rooms[j].0 != patch.mrea_id)
    ||| (exists|j: int|
        0 <= j < rooms.len() && rooms[j].0 == patch.mrea_id && !scly_action_ok(
            patch.action,
            rooms[j].1,
        ))
}

/// Some prefix of the registered patches applies, after which the next
/// patch can make no progress: the reason a run fails.
pub open spec fn run_blocked(
    patches: Seq<SclyPatch>,
    id0: u32,
    rooms0: Seq<(u32, MlvlArea)>,
) -> bool {
    exists|k: int, mid: u32, roomsm: Seq<(u32, MlvlArea)>|
        {
            &&& 0 <= k < patches.len()
            &&& #[trigger] run_rel(patches.take(k), id0, rooms0, mid, roomsm)
            &&& patch_blocked(patches[k], roomsm)
        }
}

/// A registered room patch: the room's resource id and the mutation to run
/// on it.
#[derive(Clone, Copy, Debug, PartialEq, Eq, Structural)]
pub struct SclyPatch {
    pub mrea_id: u32,
    pub action: SclyPatchAction,
}

/// The patch registry: patches apply in registration order, each exactly
/// once.
pub struct PrimePatcher {
    pub scly_patches: Vec<SclyPatch>,
}

impl PrimePatcher {
    pub fn new() -> (r: PrimePatcher)
        ensures
            r.scly_patches@.len() == 0,
    {
        PrimePatcher { scly_patches: Vec::new() }
    }

    /// Register a room patch; registration order is the order of the list.
    pub fn add_scly_patch(&mut self, mrea_id: u32, action: SclyPatchAction)
        ensures
            final(self).scly_patches@ == old(self).scly_patches@.push(
                SclyPatch { mrea_id, action },
            ),
    {
        self.scly_patches.push(SclyPatch { mrea_id, action });
    }

    /// Run every registered patch, in registration order.  A patch mutates
    /// every room carrying its resource id, so later patches on the same
    /// room observe earlier patches' changes.  On success the final rooms
    /// relate to the initial ones by the in-order application of the
    /// registered actions; a failure means some applied prefix left the next
    /// patch without a room or without an applicable target, and the run
    /// aborted there.  The id budget keeps the allocator from running out
    /// mid-run (each application draws at most one id).
    pub fn run_patches(&self, ps: &mut PatcherState, rooms: &mut Vec<(u32, MlvlArea)>) -> (r:
        Result<(), ()>)
        requires
            old(ps).next_instance_id >= FRESH_INSTANCE_ID_START,
            old(ps).next_instance_id + self.scly_patches@.len() * old(rooms)@.len()
                < 0x1_0000_0000,
        ensures
            final(ps).next_instance_id >= old(ps).next_instance_id,
            final(rooms)@.len() == old(rooms)@.len(),
            forall|i: int|
                #![trigger final(rooms)@[i]]
                0 <= i < old(rooms)@.len() ==> final(rooms)@[i].0 == old(rooms)@[i].0,
            r is Ok ==> run_rel(
                self.scly_patches@,
                old(ps).next_instance_id,
                old(rooms)@,
                final(ps).next_instance_id,
                final(rooms)@,
            ),
            r is Err ==> run_blocked(self.scly_patches@, old(ps).next_instance_id, old(rooms)@),
            self.scly_patches@.len() == 0 ==> r is Ok,
    {
        let ghost rooms_start = old(rooms)@;
        let ghost ps_start = old(ps).next_instance_id;
        proof {
            assert(self.scly_patches@.take(0) =~= Seq::<SclyPatch>::empty());
        }
        let mut i: usize = 0;
        while i < self.scly_patches.len()
            invariant
                ps.next_instance_id >= FRESH_INSTANCE_ID_START,
                ps.next_instance_id >= ps_start,
                ps.next_instance_id <= ps_start + i * rooms_start.len(),
                ps_start + self.scly_patches@.len() * rooms_start.len() < 0x1_0000_0000,
                ps_start == old(ps).next_instance_id,
                rooms_start == old(rooms)@,
                rooms@.len() == rooms_start.len(),
                forall|k: int|
                    #![trigger rooms@[k]]
                    0 <= k < rooms_start.len() ==> rooms@[k].0 == rooms_start[k].0,
                i <= self.scly_patches@.len(),
                run_rel(
                    self.scly_patches@.take(i as int),
                    ps_start,
                    rooms_start,
                    ps.next_instance_id,
                    rooms@,
                ),
            decreases self.scly_patches@.len() - i,
        {
            let patch = self.scly_patches[i];
            let ghost mid_ps = ps.next_instance_id;
            let ghost mid_rooms = rooms@;
            let mut matched = false;
            let mut j: usize = 0;
            while j < rooms.len()
                invariant
                    ps.next_instance_id >= FRESH_INSTANCE_ID_START,
                    ps_start == old(ps).next_instance_id,
                    rooms_start == old(rooms)@,
                    ps_start <= mid_ps <= ps.next_instance_id,
                    ps.next_instance_id <= mid_ps + j,
                    mid_ps <= ps_start + i * rooms_start.len(),
                    ps_start + self.scly_patches@.len() * rooms_start.len() < 0x1_0000_0000,
                    patch == self.scly_patches@[i as int],
                    run_rel(
                        self.scly_patches@.take(i as int),
                        ps_start,
                        rooms_start,
                        mid_ps,
                        mid_rooms,
                    ),
                    mid_rooms.len() == rooms_start.len(),
                    forall|q: int|
                        #![trigger mid_rooms[q]]
                        0 <= q < rooms_start.len() ==> mid_rooms[q].0 == rooms_start[q].0,
                    rooms@.len() == mid_rooms.len(),
                    i < self.scly_patches@.len(),
                    j <= mid_rooms.len(),
                    matched ==> exists|q: int|
                        0 <= q < j && mid_rooms[q].0 == patch.mrea_id,
                    !matched ==> forall|q: int|
                        0 <= q < j ==> mid_rooms[q].0 != patch.mrea_id,
                    forall|q: int|
                        #![trigger rooms@[q]]
                        0 <= q < mid_rooms.len() ==> rooms@[q].0 == mid_rooms[q].0,
                    forall|q: int|
                        #![trigger rooms@[q]]
                        j <= q < mid_rooms.len() ==> rooms@[q] == mid_rooms[q],
                    forall|q: int|
                        #![trigger rooms@[q]]
                        0 <= q < j && mid_rooms[q].0 != patch.mrea_id ==> rooms@[q]
                            == mid_rooms[q],
                    forall|q: int|
                        #![trigger rooms@[q]]
                        0 <= q < j && mid_rooms[q].0 == patch.mrea_id ==> scly_action_ok(
                            patch.action,
                            mid_rooms[q].1,
                        ) && scly_action_rel(
                            patch.action,
                            mid_rooms[q].1,
                            rooms@[q].1,
                            mid_ps,
                            ps.next_instance_id,
                        ),
                decreases mid_rooms.len() - j,
            {
                if rooms[j].0 == patch.mrea_id {
                    let ghost pre_rooms = rooms@;
                    let ghost pre_ps = ps.next_instance_id;
                    proof {
                        // within the id budget, the allocator cannot run out
                        let n = rooms_start.len() as int;
                        let np = self.scly_patches@.len() as int;
                        let ii = i as int;
                        let jj = j as int;
                        assert(ii * n + jj < np * n) by (nonlinear_arith)
                            requires
                                0 <= ii,
                                ii < np,
                                0 <= jj,
                                jj < n,
                        ;
                        assert(ps.next_instance_id < 0xFFFF_FFFF);
                    }
                    let (id, mut room) = rooms.remove(j);
                    let applied = apply_scly_patch(ps, &mut room, patch.action);
                    rooms.insert(j, (id, room));
                    proof {
                        assert(rooms@ =~= pre_rooms.update(j as int, rooms@[j as int]));
                    }
                    match applied {
                        Ok(_) => (),
                        Err(_) => {
                            proof {
                                // the target room refused the action: the
                                // run is blocked after the applied prefix
                                assert(!scly_action_ok(patch.action, mid_rooms[j as int].1));
                                assert(patch_blocked(patch, mid_rooms));
                                assert(run_rel(
                                    self.scly_patches@.take(i as int),
                                    ps_start,
                                    rooms_start,
                                    mid_ps,
                                    mid_rooms,
                                ) && patch_blocked(self.scly_patches@[i as int], mid_rooms));
                                assert(run_blocked(self.scly_patches@, ps_start, rooms_start));
                            }
                            return Err(());
                        },
                    };
                    matched = true;
                    proof {
                        lemma_action_rel_widen(
                            patch.action,
                            mid_rooms[j as int].1,
                            rooms@[j as int].1,
                            pre_ps,
                            ps.next_instance_id,
                            mid_ps,
                            ps.next_instance_id,
                        );
                        assert(scly_action_ok(patch.action, mid_rooms[j as int].1)
                            && scly_action_rel(
                            patch.action,
                            mid_rooms[j as int].1,
                            rooms@[j as int].1,
                            mid_ps,
                            ps.next_instance_id,
                        ));
                        // earlier applications stay within the widened window
                        assert forall|q: int|
                            0 <= q < j && mid_rooms[q].0 == patch.mrea_id implies scly_action_ok(
                            patch.action,
                            mid_rooms[q].1,
                        ) && scly_action_rel(
                            patch.action,
                            mid_rooms[q].1,
                            rooms@[q].1,
                            mid_ps,
                            ps.next_instance_id,
                        ) by {
                            lemma_action_rel_widen(
                                patch.action,
                                mid_rooms[q].1,
                                rooms@[q].1,
                                mid_ps,
                                pre_ps,
                                mid_ps,
                                ps.next_instance_id,
                            );
                        }
                    }
                    proof {
                        assert forall|q: int|
                            0 <= q < j + 1 && mid_rooms[q].0 == patch.mrea_id
                                implies scly_action_ok(patch.action, mid_rooms[q].1)
                            && scly_action_rel(
                            patch.action,
                            mid_rooms[q].1,
                            rooms@[q].1,
                            mid_ps,
                            ps.next_instance_id,
                        ) by {
                            if q < j {
                            } else {
                                assert(q == j);
                            }
                        }
                    }
                } else {
                    proof {
                        assert(rooms@[j as int] == mid_rooms[j as int]);
                        assert(mid_rooms[j as int].0 != patch.mrea_id);
                        assert forall|q: int|
                            0 <= q < j + 1 && mid_rooms[q].0 == patch.mrea_id
                                implies scly_action_ok(patch.action, mid_rooms[q].1)
                            && scly_action_rel(
                            patch.action,
                            mid_rooms[q].1,
                            rooms@[q].1,
                            mid_ps,
                            ps.next_instance_id,
                        ) by {
                            assert(q != j);
                            assert(q < j);
                            let room_q = rooms@[q];
                            assert(scly_action_rel(
                                patch.action,
                                mid_rooms[q].1,
                                room_q.1,
                                mid_ps,
                                ps.next_instance_id,
                            ) && scly_action_ok(patch.action, mid_rooms[q].1));
                        }
                    }
                }
                j = j + 1;
            }
            if !matched {
                // a patch whose room is absent is a lookup error: the run is
                // blocked after the applied prefix
                proof {
                    assert(forall|q: int|
                        0 <= q < mid_rooms.len() ==> mid_rooms[q].0 != patch.mrea_id);
                    assert(patch_blocked(patch, mid_rooms));
                    assert(run_rel(
                        self.scly_patches@.take(i as int),
                        ps_start,
                        rooms_start,
                        mid_ps,
                        mid_rooms,
                    ) && patch_blocked(self.scly_patches@[i as int], mid_rooms));
                    assert(run_blocked(self.scly_patches@, ps_start, rooms_start));
                }
                return Err(());
            }
            proof {
                assert(patch_applies(
                    patch,
                    mid_ps,
                    mid_rooms,
                    ps.next_instance_id,
                    rooms@,
                ));
                lemma_run_rel_snoc(
                    self.scly_patches@.take(i as int),
                    patch,
                    ps_start,
                    rooms_start,
                    mid_ps,
                    mid_rooms,
                    ps.next_instance_id,
                    rooms@,
                );
                assert(self.scly_patches@.take(i as int).push(patch)
                    =~= self.scly_patches@.take(i + 1));
                let n = rooms_start.len() as int;
                let ii = i as int;
                assert(ps.next_instance_id <= ps_start + (ii + 1) * n) by (nonlinear_arith)
                    requires
                        ps.next_instance_id <= mid_ps + n,
                        mid_ps <= ps_start + ii * n,
                        n >= 0,
                ;
            }
            i = i + 1;
        }
        proof {
            assert(self.scly_patches@.take(self.scly_patches@.len() as int)
                =~= self.scly_patches@);
        }
        Ok(())
    }
}

} // verus!
