//! The patch catalog's primitives: game versions, item kinds, and the
//! room-specific mutations of the scripting graph that the engine applies.
//!
//! A mutation that cannot find its target object reports a lookup error and
//! leaves the room untouched; nothing is ever half-applied.

use vstd::prelude::*;
use crate::area::{Dependency, MlvlArea};
use crate::patcher::PatcherState;
use crate::scly::{
    Connection, MSG_ACTION, MSG_DEACTIVATE, MSG_INCREMENT, MSG_PLAY, OBJ_WATER, STATE_ENTERED,
    STATE_MAX_REACHED, STATE_ZERO, SclyLayer, SclyObject, SclyProperty,
};
use crate::scly_props::{Relay, SpecialFunction};

verus! {

/// The recognized disc versions, detected from the header's identifier
/// tuple.
#[derive(Clone, Copy, Debug, PartialEq, Eq, Structural)]
pub enum Version {
    NtscU0_00,
    NtscU0_01,
    NtscU0_02,
    NtscJ,
    Pal,
    NtscUTrilogy,
    NtscJTrilogy,
    PalTrilogy,
}

/// Which disc container encoding the output uses.
#[derive(Debug)]
pub enum IsoFormat {
    Iso,
    Gcz,
    Ciso,
}

impl Default for IsoFormat {
    fn default() -> (r: IsoFormat)
        ensures
            r is Iso,
    {
        IsoFormat::Iso
    }
}

/// How artifact location hints behave.
#[derive(Clone, Copy, Debug)]
pub enum ArtifactHintBehavior {
    Default,
    Disabled,
    All,
}

impl Default for ArtifactHintBehavior {
    fn default() -> (r: ArtifactHintBehavior)
        ensures
            r is Default,
    {
        ArtifactHintBehavior::Default
    }
}

/// The expected version-detection outcome for a header identifier tuple.
pub open spec fn spec_version_of(game_id: Seq<u8>, disc_id: u8, version: u8) -> Option<Version> {
    if disc_id != 0 {
        None
    } else if game_id == "GM8E01"@.map_values(|c: char| c as u8) && version == 0 {
        Some(Version::NtscU0_00)
    } else if game_id == "GM8E01"@.map_values(|c: char| c as u8) && version == 1 {
        Some(Version::NtscU0_01)
    } else if game_id == "GM8E01"@.map_values(|c: char| c as u8) && version == 2 {
        Some(Version::NtscU0_02)
    } else if game_id == "GM8J01"@.map_values(|c: char| c as u8) && version == 0 {
        Some(Version::NtscJ)
    } else if game_id == "GM8P01"@.map_values(|c: char| c as u8) && version == 0 {
        Some(Version::Pal)
    } else if game_id == "R3ME01"@.map_values(|c: char| c as u8) && version == 0 {
        Some(Version::NtscUTrilogy)
    } else if game_id == "R3IJ01"@.map_values(|c: char| c as u8) && version == 0 {
        Some(Version::NtscJTrilogy)
    } else if game_id == "R3MP01"@.map_values(|c: char| c as u8) && version == 0 {
        Some(Version::PalTrilogy)
    } else {
        None
    }
}

/// Match a 6-byte game identifier against a known one given as bytes.
fn game_id_is(game_id: &Vec<u8>, expected: [u8; 6]) -> (r: bool)
    ensures
        r <==> game_id@ == expected@,
{
    if game_id.len() != 6 {
        assert(game_id@.len() != expected@.len());
        return false;
    }
    let r = game_id[0] == expected[0] && game_id[1] == expected[1] && game_id[2] == expected[2]
        && game_id[3] == expected[3] && game_id[4] == expected[4] && game_id[5] == expected[5];
    proof {
        if r {
            assert(game_id@ =~= expected@);
        }
    }
    r
}

/// Recognize the disc from its fixed-offset identifier tuple; an
/// unrecognized tuple fails fast before any patch runs.
pub fn detect_version(game_id: &Vec<u8>, disc_id: u8, version: u8) -> (r: Option<Version>)
    ensures
        r == spec_version_of(game_id@, disc_id, version),
{
    proof {
        reveal_strlit("GM8E01");
        reveal_strlit("GM8J01");
        reveal_strlit("GM8P01");
        reveal_strlit("R3ME01");
        reveal_strlit("R3IJ01");
        reveal_strlit("R3MP01");
        assert("GM8E01"@.map_values(|c: char| c as u8) =~= seq![
            0x47u8, 0x4Du8, 0x38u8, 0x45u8, 0x30u8, 0x31u8,
        ]);
        assert("GM8J01"@.map_values(|c: char| c as u8) =~= seq![
            0x47u8, 0x4Du8, 0x38u8, 0x4Au8, 0x30u8, 0x31u8,
        ]);
        assert("GM8P01"@.map_values(|c: char| c as u8) =~= seq![
            0x47u8, 0x4Du8, 0x38u8, 0x50u8, 0x30u8, 0x31u8,
        ]);
        assert("R3ME01"@.map_values(|c: char| c as u8) =~= seq![
            0x52u8, 0x33u8, 0x4Du8, 0x45u8, 0x30u8, 0x31u8,
        ]);
        assert("R3IJ01"@.map_values(|c: char| c as u8) =~= seq![
            0x52u8, 0x33u8, 0x49u8, 0x4Au8, 0x30u8, 0x31u8,
        ]);
        assert("R3MP01"@.map_values(|c: char| c as u8) =~= seq![
            0x52u8, 0x33u8, 0x4Du8, 0x50u8, 0x30u8, 0x31u8,
        ]);
    }
    if disc_id != 0 {
        return None;
    }
    if game_id_is(game_id, [0x47, 0x4D, 0x38, 0x45, 0x30, 0x31]) {
        if version == 0 {
            return Some(Version::NtscU0_00);
        }
        if version == 1 {
            return Some(Version::NtscU0_01);
        }
        if version == 2 {
            return Some(Version::NtscU0_02);
        }
        return None;
    }
    if version != 0 {
        return None;
    }
    if game_id_is(game_id, [0x47, 0x4D, 0x38, 0x4A, 0x30, 0x31]) {
        return Some(Version::NtscJ);
    }
    if game_id_is(game_id, [0x47, 0x4D, 0x38, 0x50, 0x30, 0x31]) {
        return Some(Version::Pal);
    }
    if game_id_is(game_id, [0x52, 0x33, 0x4D, 0x45, 0x30, 0x31]) {
        return Some(Version::NtscUTrilogy);
    }
    if game_id_is(game_id, [0x52, 0x33, 0x49, 0x4A, 0x30, 0x31]) {
        return Some(Version::NtscJTrilogy);
    }
    if game_id_is(game_id, [0x52, 0x33, 0x4D, 0x50, 0x30, 0x31]) {
        return Some(Version::PalTrilogy);
    }
    None
}

/// The liquid kinds a liquid-volume patch can place.
#[derive(Clone, Copy, Debug)]
pub enum WaterType {
    Normal,
    Poision,
    Lava,
}

impl WaterType {
    /// The assets a layer must load for this liquid to render.
    pub open spec fn spec_dependencies(self) -> Seq<Dependency> {
        match self {
            WaterType::Normal => seq![
                Dependency { asset_id: 0xB4A658C3, asset_type: 0x54585452 },
            ],
            WaterType::Poision => seq![
                Dependency { asset_id: 0xF86621C9, asset_type: 0x54585452 },
            ],
            WaterType::Lava => seq![
                Dependency { asset_id: 0x6579A4F3, asset_type: 0x54585452 },
            ],
        }
    }

    pub fn dependencies(&self) -> (r: Vec<Dependency>)
        ensures
            r@ == self.spec_dependencies(),
    {
        let mut v: Vec<Dependency> = Vec::new();
        match self {
            WaterType::Normal => v.push(
                Dependency { asset_id: 0xB4A658C3, asset_type: 0x54585452 },
            ),
            WaterType::Poision => v.push(
                Dependency { asset_id: 0xF86621C9, asset_type: 0x54585452 },
            ),
            WaterType::Lava => v.push(
                Dependency { asset_id: 0x6579A4F3, asset_type: 0x54585452 },
            ),
        };
        proof {
            assert(v@ =~= self.spec_dependencies());
        }
        v
    }
}

/// Whether the object is a liquid volume.
pub open spec fn spec_is_water(o: SclyObject) -> bool {
    o.property_data.spec_object_type() == OBJ_WATER
}

pub fn is_water(obj: &SclyObject) -> (r: bool)
    ensures
        r == spec_is_water(*obj),
{
    obj.property_data.object_type() == OBJ_WATER
}

/// The first object of the layer with the given instance id.
pub fn find_object_idx(layer: &SclyLayer, instance_id: u32) -> (r: Option<usize>)
    ensures
        match r {
            Some(i) => {
                &&& i < layer.objects@.len()
                &&& layer.objects@[i as int].instance_id == instance_id
                &&& forall|j: int| 0 <= j < i ==> layer.objects@[j].instance_id != instance_id
            },
            None => forall|j: int|
                0 <= j < layer.objects@.len() ==> layer.objects@[j].instance_id != instance_id,
        },
{
    let mut i: usize = 0;
    while i < layer.objects.len()
        invariant
            i <= layer.objects@.len(),
            forall|j: int| 0 <= j < i ==> layer.objects@[j].instance_id != instance_id,
        decreases layer.objects@.len() - i,
    {
        if layer.objects[i].instance_id == instance_id {
            return Some(i);
        }
        i = i + 1;
    }
    None
}

/// Everything outside one touched layer is as it was: ids, bitmask, names,
/// dependency lists, the room resource, and every other layer.
pub open spec fn area_frame_except(a0: MlvlArea, a1: MlvlArea, touched: int) -> bool {
    &&& a1.internal_id == a0.internal_id
    &&& a1.layer_flags == a0.layer_flags
    &&& a1.layer_names == a0.layer_names
    &&& a1.layer_deps == a0.layer_deps
    &&& a1.mrea == a0.mrea
    &&& a1.scly.unknown == a0.scly.unknown
    &&& a1.scly.layers@.len() == a0.scly.layers@.len()
    &&& (forall|l: int|
        #![trigger a1.scly.layers@[l]]
        0 <= l < a0.scly.layers@.len() && l != touched ==> a1.scly.layers@[l]
            == a0.scly.layers@[l])
    &&& (0 <= touched < a0.scly.layers@.len() ==> a1.scly.layers@[touched].unknown
        == a0.scly.layers@[touched].unknown)
}

/// There is an object with the id, and the first such object has room for
/// one more connection.
pub open spec fn conn_target_ok(objects: Seq<SclyObject>, instance_id: u32) -> bool {
    exists|i: int|
        {
            &&& 0 <= i < objects.len()
            &&& objects[i].instance_id == instance_id
            &&& (forall|j: int| 0 <= j < i ==> objects[j].instance_id != instance_id)
            &&& objects[i].connections@.len() < 0xFFFF_FFFE
        }
}

/// Append a connection to the object with `instance_id` on layer
/// `layer_idx`.  The object keeps its identity and property data; only its
/// connection list grows by the one edge.  Fails, leaving the area
/// untouched, when the object is absent.
pub fn add_connection_to_object(
    area: &mut MlvlArea,
    layer_idx: usize,
    instance_id: u32,
    conn: Connection,
) -> (r: Result<(), ()>)
    requires
        layer_idx < old(area).scly.layers@.len(),
    ensures
        final(area).internal_id == old(area).internal_id,
        final(area).layer_flags == old(area).layer_flags,
        final(area).layer_names == old(area).layer_names,
        final(area).layer_deps == old(area).layer_deps,
        final(area).mrea == old(area).mrea,
        final(area).scly.unknown == old(area).scly.unknown,
        final(area).scly.layers@.len() == old(area).scly.layers@.len(),
        forall|l: int|
            #![trigger final(area).scly.layers@[l]]
            0 <= l < old(area).scly.layers@.len() && l != layer_idx ==> final(area).scly.layers@[l] == old(area).scly.layers@[l],
        match r {
            Ok(_) => {
                &&& final(area).scly.layers@[layer_idx as int].unknown == old(area).scly.layers@[layer_idx as int].unknown
                &&& exists|i: int|
                    {
                        &&& 0 <= i < old(area).scly.layers@[layer_idx as int].objects@.len()
                        &&& old(area).scly.layers@[layer_idx as int].objects@[i].instance_id
                            == instance_id
                        &&& final(area).scly.layers@[layer_idx as int].objects@ == old(area).scly.layers@[layer_idx as int].objects@.update(
                            i,
                            SclyObject {
                                instance_id: old(area).scly.layers@[layer_idx as int].objects@[i].instance_id,
                                connections: final(area).scly.layers@[layer_idx as int].objects@[i].connections,
                                property_data: old(area).scly.layers@[layer_idx as int].objects@[i].property_data,
                            },
                        )
                        &&& final(area).scly.layers@[layer_idx as int].objects@[i].connections@ == old(area).scly.layers@[layer_idx as int].objects@[i].connections@.push(conn)
                    }
            },
            Err(_) => final(area).scly.layers@ == old(area).scly.layers@,
        },
        r is Ok <==> conn_target_ok(old(area).scly.layers@[layer_idx as int].objects@, instance_id),
{
    let mut layer = area.scly.layers.remove(layer_idx);
    let ghost layers0 = old(area).scly.layers@;
    let idx = match find_object_idx(&layer, instance_id) {
        Some(i) => i,
        None => {
            area.scly.layers.insert(layer_idx, layer);
            proof {
                assert(area.scly.layers@ =~= layers0);
                assert(!conn_target_ok(layers0[layer_idx as int].objects@, instance_id));
            }
            return Err(());
        },
    };
    if layer.objects[idx].connections.len() >= 0xFFFF_FFFEusize {
        proof {
            let objs = layer.objects@;
            assert forall|i: int|
                !(0 <= i < objs.len() && objs[i].instance_id == instance_id && (forall|j: int|
                    0 <= j < i ==> objs[j].instance_id != instance_id) && objs[i].connections@.len()
                    < 0xFFFF_FFFE) by {
                if 0 <= i < objs.len() && objs[i].instance_id == instance_id && (forall|j: int|
                    0 <= j < i ==> objs[j].instance_id != instance_id) {
                    // both are the first match, so they are the same object
                    assert(i == idx);
                }
            }
        }
        area.scly.layers.insert(layer_idx, layer);
        proof {
            assert(area.scly.layers@ =~= layers0);
            assert(!conn_target_ok(layers0[layer_idx as int].objects@, instance_id));
        }
        return Err(());
    }
    proof {
        let objs = layer.objects@;
        assert(0 <= idx < objs.len() && objs[idx as int].instance_id == instance_id && (
        forall|j: int| 0 <= j < idx ==> objs[j].instance_id != instance_id)
            && objs[idx as int].connections@.len() < 0xFFFF_FFFE);
        assert(conn_target_ok(layers0[layer_idx as int].objects@, instance_id));
    }
    let mut obj = layer.objects.remove(idx);
    obj.connections.push(conn);
    layer.objects.insert(idx, obj);
    proof {
        assert(layer.objects@ =~= layers0[layer_idx as int].objects@.update(
            idx as int,
            layer.objects@[idx as int],
        ));
    }
    area.scly.layers.insert(layer_idx, layer);
    proof {
        assert(area.scly.layers@ =~= layers0.update(
            layer_idx as int,
            area.scly.layers@[layer_idx as int],
        ));
    }
    Ok(())
}

/// Remove every object of the layer whose instance id is `instance_id`.
pub fn remove_object_by_id(area: &mut MlvlArea, layer_idx: usize, instance_id: u32)
    requires
        layer_idx < old(area).scly.layers@.len(),
    ensures
        final(area).internal_id == old(area).internal_id,
        final(area).layer_flags == old(area).layer_flags,
        final(area).layer_names == old(area).layer_names,
        final(area).layer_deps == old(area).layer_deps,
        final(area).mrea == old(area).mrea,
        final(area).scly.unknown == old(area).scly.unknown,
        final(area).scly.layers@.len() == old(area).scly.layers@.len(),
        forall|l: int|
            #![trigger final(area).scly.layers@[l]]
            0 <= l < old(area).scly.layers@.len() && l != layer_idx ==> final(area).scly.layers@[l] == old(area).scly.layers@[l],
        final(area).scly.layers@[layer_idx as int].unknown == old(area).scly.layers@[layer_idx as int].unknown,
        final(area).scly.layers@[layer_idx as int].objects@ == old(area).scly.layers@[layer_idx as int].objects@.filter(
            |o: SclyObject| o.instance_id != instance_id,
        ),
{
    let ghost layers0 = old(area).scly.layers@;
    let mut layer = area.scly.layers.remove(layer_idx);
    let ghost orig = layer.objects@;
    let mut i: usize = 0;
    let ghost k: int = 0;
    proof {
        assert(orig.take(0).filter(|o: SclyObject| o.instance_id != instance_id) =~= Seq::empty());
        assert(layer.objects@ =~= orig.take(0).filter(
            |o: SclyObject| o.instance_id != instance_id,
        ) + orig.skip(0));
    }
    while i < layer.objects.len()
        invariant
            0 <= k <= orig.len(),
            i == orig.take(k).filter(|o: SclyObject| o.instance_id != instance_id).len(),
            i <= layer.objects@.len(),
            layer.objects@ == orig.take(k).filter(|o: SclyObject| o.instance_id != instance_id)
                + orig.skip(k),
            layer.unknown == old(area).scly.layers@[layer_idx as int].unknown,
            orig == old(area).scly.layers@[layer_idx as int].objects@,
            area.internal_id == old(area).internal_id,
            area.layer_flags == old(area).layer_flags,
            area.layer_names == old(area).layer_names,
            area.layer_deps == old(area).layer_deps,
            area.mrea == old(area).mrea,
            area.scly.unknown == old(area).scly.unknown,
            layer_idx < old(area).scly.layers@.len(),
            area.scly.layers@ == old(area).scly.layers@.remove(layer_idx as int),
        decreases orig.len() - k,
    {
        let ghost pre = layer.objects@;
        let keep = layer.objects[i].instance_id != instance_id;
        proof {
            assert(orig.skip(k)[0] == orig[k]);
            assert(layer.objects@[i as int] == orig[k]);
            assert(orig.take(k + 1).drop_last() =~= orig.take(k));
            assert(orig.take(k + 1).last() == orig[k]);
            reveal_with_fuel(Seq::filter, 2);
        }
        if keep {
            proof {
                assert(orig.skip(k).skip(1) =~= orig.skip(k + 1));
                assert(layer.objects@ =~= orig.take(k + 1).filter(
                    |o: SclyObject| o.instance_id != instance_id,
                ) + orig.skip(k + 1));
            }
            i = i + 1;
        } else {
            layer.objects.remove(i);
            proof {
                assert(orig.skip(k).skip(1) =~= orig.skip(k + 1));
                assert(pre.remove(i as int) =~= orig.take(k + 1).filter(
                    |o: SclyObject| o.instance_id != instance_id,
                ) + orig.skip(k + 1));
            }
        }
        proof {
            k = k + 1;
        }
    }
    proof {
        assert(orig.skip(orig.len() as int) =~= Seq::empty());
        assert(k == orig.len()) by {
            if k < orig.len() {
                assert(orig.skip(k).len() > 0);
                assert(layer.objects@.len() > i);
            }
        };
        assert(orig.take(orig.len() as int) =~= orig);
        assert(layer.objects@ =~= orig.filter(|o: SclyObject| o.instance_id != instance_id));
    }
    area.scly.layers.insert(layer_idx, layer);
    proof {
        assert(area.scly.layers@ =~= layers0.update(
            layer_idx as int,
            area.scly.layers@[layer_idx as int],
        ));
    }
}


/// Append a freshly built object to a layer.
pub fn add_object_to_layer(area: &mut MlvlArea, layer_idx: usize, obj: SclyObject) -> (r: Result<
    (),
    (),
>)
    requires
        layer_idx < old(area).scly.layers@.len(),
    ensures
        final(area).internal_id == old(area).internal_id,
        final(area).layer_flags == old(area).layer_flags,
        final(area).layer_names == old(area).layer_names,
        final(area).layer_deps == old(area).layer_deps,
        final(area).mrea == old(area).mrea,
        final(area).scly.unknown == old(area).scly.unknown,
        final(area).scly.layers@.len() == old(area).scly.layers@.len(),
        forall|l: int|
            #![trigger final(area).scly.layers@[l]]
            0 <= l < old(area).scly.layers@.len() && l != layer_idx ==> final(area).scly.layers@[l]
                == old(area).scly.layers@[l],
        final(area).scly.layers@[layer_idx as int].unknown == old(
            area,
        ).scly.layers@[layer_idx as int].unknown,
        match r {
            Ok(_) => final(area).scly.layers@[layer_idx as int].objects@ == old(
                area,
            ).scly.layers@[layer_idx as int].objects@.push(obj),
            Err(_) => final(area).scly.layers@ == old(area).scly.layers@,
        },
        r is Ok <==> old(area).scly.layers@[layer_idx as int].objects@.len() < 0xFFFF_FFFE,
{
    let ghost layers0 = old(area).scly.layers@;
    let mut layer = area.scly.layers.remove(layer_idx);
    if layer.objects.len() >= 0xFFFF_FFFEusize {
        area.scly.layers.insert(layer_idx, layer);
        proof {
            assert(area.scly.layers@ =~= layers0);
        }
        return Err(());
    }
    layer.objects.push(obj);
    area.scly.layers.insert(layer_idx, layer);
    proof {
        assert(area.scly.layers@ =~= layers0.update(
            layer_idx as int,
            area.scly.layers@[layer_idx as int],
        ));
    }
    Ok(())
}

/// Remove every object of a layer (cinematics are cut by emptying their
/// layer).
pub fn clear_layer_objects(area: &mut MlvlArea, layer_idx: usize)
    requires
        layer_idx < old(area).scly.layers@.len(),
    ensures
        final(area).internal_id == old(area).internal_id,
        final(area).layer_flags == old(area).layer_flags,
        final(area).layer_names == old(area).layer_names,
        final(area).layer_deps == old(area).layer_deps,
        final(area).mrea == old(area).mrea,
        final(area).scly.unknown == old(area).scly.unknown,
        final(area).scly.layers@.len() == old(area).scly.layers@.len(),
        forall|l: int|
            #![trigger final(area).scly.layers@[l]]
            0 <= l < old(area).scly.layers@.len() && l != layer_idx ==> final(area).scly.layers@[l]
                == old(area).scly.layers@[l],
        final(area).scly.layers@[layer_idx as int].unknown == old(
            area,
        ).scly.layers@[layer_idx as int].unknown,
        final(area).scly.layers@[layer_idx as int].objects@.len() == 0,
{
    let ghost layers0 = old(area).scly.layers@;
    let mut layer = area.scly.layers.remove(layer_idx);
    let unknown = layer.unknown;
    area.scly.layers.insert(layer_idx, SclyLayer { unknown, objects: Vec::new() });
    proof {
        assert(area.scly.layers@ =~= layers0.update(
            layer_idx as int,
            area.scly.layers@[layer_idx as int],
        ));
    }
}

/// The engine-built layer-switch function an artifact pickup triggers.  The
/// artifact's pickup kind selects which layer of the target room it toggles.
pub fn artifact_layer_change_template(instance_id: u32, pickup_kind: u32) -> (r: SclyObject)
    requires
        29 <= pickup_kind <= 40,
    ensures
        r.instance_id == instance_id,
        r.connections@.len() == 0,
        r.property_data matches SclyProperty::SpecialFunction(sf) && sf.type_ == 16
            && sf.layer_change_room_id == 0xCD2B0EA2 && sf.layer_change_layer_id == (
        if pickup_kind > 29 {
            (pickup_kind - 28) as u32
        } else {
            24u32
        }),
{
    let layer = if pickup_kind > 29 {
        pickup_kind - 28
    } else {
        24
    };
    SclyObject {
        instance_id,
        connections: Vec::new(),
        property_data: SclyProperty::SpecialFunction(
            SpecialFunction::layer_change_fn(artifact_switch_name(), 0xCD2B0EA2, layer),
        ),
    }
}

/// Name bytes for the artifact layer switch.
fn artifact_switch_name() -> (r: Vec<u8>)
    ensures
        crate::bytes::cstr_ok(r@),
{
    let mut v: Vec<u8> = Vec::new();
    v.push(0x41);
    v.push(0x4C);
    v.push(0x53);
    v
}

/// The relay inserted behind a pickup to drive cutscene skipping.
pub fn post_pickup_relay_template(instance_id: u32, connections: Vec<Connection>) -> (r:
    SclyObject)
    ensures
        r.instance_id == instance_id,
        r.connections == connections,
        r.property_data matches SclyProperty::Relay(rel) && rel.active == 1 && rel.name@
            == "Randomizer Post Pickup Relay"@.map_values(|c: char| c as u8),
{
    proof {
        reveal_strlit("Randomizer Post Pickup Relay");
        assert("Randomizer Post Pickup Relay".is_ascii());
    }
    let name = str_bytes("Randomizer Post Pickup Relay");
    SclyObject {
        instance_id,
        connections,
        property_data: SclyProperty::Relay(Relay { name, active: 1 }),
    }
}

/// The bytes of an ASCII name.
pub fn str_bytes(s: &str) -> (r: Vec<u8>)
    requires
        s.is_ascii(),
    ensures
        r@ == s@.map_values(|c: char| c as u8),
{
    let mut v: Vec<u8> = Vec::new();
    let n = s.unicode_len();
    let mut i: usize = 0;
    while i < n
        invariant
            s.is_ascii(),
            n == s@.len(),
            i <= n,
            v@ == s@.map_values(|c: char| c as u8).take(i as int),
        decreases n - i,
    {
        let b = s.get_ascii(i);
        v.push(b);
        proof {
            assert(v@ =~= s@.map_values(|c: char| c as u8).take(i + 1));
        }
        i = i + 1;
    }
    assert(s@.map_values(|c: char| c as u8).take(s@.len() as int) =~= s@.map_values(
        |c: char| c as u8,
    ));
    v
}


/// Remove the invisible wall so the room can be crossed.
pub fn patch_arboretum_invisible_wall(ps: &mut PatcherState, area: &mut MlvlArea) -> (r: Result<(), ()>)
    requires
        old(area).scly.layers@.len() > 0,
    ensures
        *final(ps) == *old(ps),
        area_frame_except(*old(area), *final(area), 0),
        final(area).scly.layers@[0].objects@ == old(area).scly.layers@[0].objects@.filter(
            |o: SclyObject| o.instance_id != 0x1302AA,
        ),
        r is Ok,
{
    remove_object_by_id(area, 0, 0x1302AA);
    Ok(())
}

/// Remove the door lock left in this revision of the room.
pub fn patch_main_quarry_door_lock_0_02(ps: &mut PatcherState, area: &mut MlvlArea) -> (r: Result<(), ()>)
    requires
        old(area).scly.layers@.len() > 0,
    ensures
        *final(ps) == *old(ps),
        area_frame_except(*old(area), *final(area), 0),
        final(area).scly.layers@[0].objects@ == old(area).scly.layers@[0].objects@.filter(
            |o: SclyObject| o.instance_id != 132563,
        ),
        r is Ok,
{
    remove_object_by_id(area, 0, 132563);
    Ok(())
}

/// Remove the door lock left in this revision of the room.
pub fn patch_geothermal_core_door_lock_0_02(ps: &mut PatcherState, area: &mut MlvlArea) -> (r: Result<(), ()>)
    requires
        old(area).scly.layers@.len() > 0,
    ensures
        *final(ps) == *old(ps),
        area_frame_except(*old(area), *final(area), 0),
        final(area).scly.layers@[0].objects@ == old(area).scly.layers@[0].objects@.filter(
            |o: SclyObject| o.instance_id != 1311646,
        ),
        r is Ok,
{
    remove_object_by_id(area, 0, 1311646);
    Ok(())
}

/// Remove the object that turns the stalactites layer off.
pub fn patch_gravity_chamber_stalactite_grapple_point(ps: &mut PatcherState, area: &mut MlvlArea) -> (r: Result<(), ()>)
    requires
        old(area).scly.layers@.len() > 0,
    ensures
        *final(ps) == *old(ps),
        area_frame_except(*old(area), *final(area), 0),
        final(area).scly.layers@[0].objects@ == old(area).scly.layers@[0].objects@.filter(
            |o: SclyObject| o.instance_id != 3473722,
        ),
        r is Ok,
{
    remove_object_by_id(area, 0, 3473722);
    Ok(())
}

/// Connect the ending trigger straight to the credits function.
pub fn patch_ending_scene_straight_to_credits(ps: &mut PatcherState, area: &mut MlvlArea) -> (r: Result<(), ()>)
    requires
        old(area).scly.layers@.len() > 0,
    ensures
        *final(ps) == *old(ps),
        area_frame_except(*old(area), *final(area), 0),
        r is Ok <==> conn_target_ok(old(area).scly.layers@[0].objects@, 1103),
        r is Err ==> final(area).scly.layers@ == old(area).scly.layers@,
        r is Ok ==> exists|i: int|
            {
                &&& 0 <= i < old(area).scly.layers@[0].objects@.len()
                &&& old(area).scly.layers@[0].objects@[i].instance_id == 1103
                &&& final(area).scly.layers@[0].objects@ == old(
                    area,
                ).scly.layers@[0].objects@.update(
                    i,
                    SclyObject {
                        instance_id: old(area).scly.layers@[0].objects@[i].instance_id,
                        connections: final(area).scly.layers@[0].objects@[i].connections,
                        property_data: old(area).scly.layers@[0].objects@[i].property_data,
                    },
                )
                &&& final(area).scly.layers@[0].objects@[i].connections@ == old(
                    area,
                ).scly.layers@[0].objects@[i].connections@.push(
                    Connection {
                        state: STATE_ENTERED,
                        message: MSG_ACTION,
                        target_object_id: 1241,
                    },
                )
            },
{
    add_connection_to_object(
        area,
        0,
        1103,
        Connection { state: STATE_ENTERED, message: MSG_ACTION, target_object_id: 1241 },
    )
}

/// Keep the boss music playing when the opening cinematic is skipped.
pub fn patch_essence_cinematic_skip_nomusic(ps: &mut PatcherState, area: &mut MlvlArea) -> (r: Result<(), ()>)
    requires
        old(area).scly.layers@.len() > 0,
    ensures
        *final(ps) == *old(ps),
        area_frame_except(*old(area), *final(area), 0),
        r is Ok <==> conn_target_ok(old(area).scly.layers@[0].objects@, 0xB01DC),
        r is Err ==> final(area).scly.layers@ == old(area).scly.layers@,
        r is Ok ==> exists|i: int|
            {
                &&& 0 <= i < old(area).scly.layers@[0].objects@.len()
                &&& old(area).scly.layers@[0].objects@[i].instance_id == 0xB01DC
                &&& final(area).scly.layers@[0].objects@ == old(
                    area,
                ).scly.layers@[0].objects@.update(
                    i,
                    SclyObject {
                        instance_id: old(area).scly.layers@[0].objects@[i].instance_id,
                        connections: final(area).scly.layers@[0].objects@[i].connections,
                        property_data: old(area).scly.layers@[0].objects@[i].property_data,
                    },
                )
                &&& final(area).scly.layers@[0].objects@[i].connections@ == old(
                    area,
                ).scly.layers@[0].objects@[i].connections@.push(
                    Connection {
                        state: STATE_ZERO,
                        message: MSG_PLAY,
                        target_object_id: 0xB019E,
                    },
                )
            },
{
    add_connection_to_object(
        area,
        0,
        0xB01DC,
        Connection { state: STATE_ZERO, message: MSG_PLAY, target_object_id: 0xB019E },
    )
}

/// Disable the room's capture trigger once every pirate is dead.
pub fn patch_mines_security_station_soft_lock(ps: &mut PatcherState, area: &mut MlvlArea) -> (r: Result<(), ()>)
    requires
        old(area).scly.layers@.len() > 0,
    ensures
        *final(ps) == *old(ps),
        area_frame_except(*old(area), *final(area), 0),
        r is Ok <==> conn_target_ok(old(area).scly.layers@[0].objects@, 460074),
        r is Err ==> final(area).scly.layers@ == old(area).scly.layers@,
        r is Ok ==> exists|i: int|
            {
                &&& 0 <= i < old(area).scly.layers@[0].objects@.len()
                &&& old(area).scly.layers@[0].objects@[i].instance_id == 460074
                &&& final(area).scly.layers@[0].objects@ == old(
                    area,
                ).scly.layers@[0].objects@.update(
                    i,
                    SclyObject {
                        instance_id: old(area).scly.layers@[0].objects@[i].instance_id,
                        connections: final(area).scly.layers@[0].objects@[i].connections,
                        property_data: old(area).scly.layers@[0].objects@[i].property_data,
                    },
                )
                &&& final(area).scly.layers@[0].objects@[i].connections@ == old(
                    area,
                ).scly.layers@[0].objects@[i].connections@.push(
                    Connection {
                        state: STATE_MAX_REACHED,
                        message: MSG_DEACTIVATE,
                        target_object_id: 67568447,
                    },
                )
            },
{
    add_connection_to_object(
        area,
        0,
        460074,
        Connection { state: STATE_MAX_REACHED, message: MSG_DEACTIVATE, target_object_id: 67568447 },
    )
}

/// Empty the cinematic layer of this room.
pub fn patch_ridley_phendrana_shorelines_cinematic(
    ps: &mut PatcherState,
    area: &mut MlvlArea,
) -> (r: Result<(), ()>)
    requires
        old(area).scly.layers@.len() > 4,
    ensures
        *final(ps) == *old(ps),
        area_frame_except(*old(area), *final(area), 4),
        final(area).scly.layers@[4].objects@.len() == 0,
        r is Ok,
{
    clear_layer_objects(area, 4);
    Ok(())
}

/// Make the relay that fires on the boss's death also enable the layer
/// switch of the neighbouring room, so it cannot be entered too early.
/// Succeeds exactly when layer 1 holds the relay (with room for one more
/// connection): a fresh layer-change function is appended to layer 1 and
/// the relay gains the edge that increments it.  On failure nothing changes.
pub fn patch_sunchamber_prevent_wild_before_flaahgra(
    ps: &mut PatcherState,
    area: &mut MlvlArea,
) -> (r: Result<(), ()>)
    requires
        old(area).scly.layers@.len() > 1,
        crate::patcher::FRESH_INSTANCE_ID_START <= old(ps).next_instance_id < 0xFFFF_FFFF,
    ensures
        area_frame_except(*old(area), *final(area), 1),
        r is Ok <==> conn_target_ok(old(area).scly.layers@[1].objects@, 0x42500D4) && old(
            area,
        ).scly.layers@[1].objects@.len() < 0xFFFF_FFFE,
        r is Err ==> *final(area) == *old(area) && *final(ps) == *old(ps),
        r is Ok ==> {
            &&& final(ps).next_instance_id == old(ps).next_instance_id + 1
            &&& final(area).scly.layers@[1].objects@.len() == old(
                area,
            ).scly.layers@[1].objects@.len() + 1
            &&& {
                let new_obj = final(area).scly.layers@[1].objects@[old(
                    area,
                ).scly.layers@[1].objects@.len() as int];
                &&& new_obj.instance_id == old(ps).next_instance_id
                &&& new_obj.connections@.len() == 0
                &&& new_obj.property_data matches SclyProperty::SpecialFunction(sf) && sf.type_
                    == 16 && sf.layer_change_room_id == 0xCF4C7AA5 && sf.layer_change_layer_id
                    == 1
            }
            &&& exists|i: int|
                #![trigger old(area).scly.layers@[1].objects@[i]]
                {
                    let olds = old(area).scly.layers@[1].objects@;
                    let news = final(area).scly.layers@[1].objects@;
                    &&& 0 <= i < olds.len()
                    &&& olds[i].instance_id == 0x42500D4
                    &&& news == olds.push(news[olds.len() as int]).update(
                        i,
                        SclyObject {
                            instance_id: olds[i].instance_id,
                            connections: news[i].connections,
                            property_data: olds[i].property_data,
                        },
                    )
                    &&& news[i].connections@ == olds[i].connections@.push(
                        Connection {
                            state: STATE_ZERO,
                            message: MSG_INCREMENT,
                            target_object_id: old(ps).next_instance_id,
                        },
                    )
                }
        },
{
    // Check everything up front so a failure mutates nothing.
    if area.scly.layers[1].objects.len() >= 0xFFFF_FFFEusize {
        return Err(());
    }
    let relay_idx = match find_object_idx(&area.scly.layers[1], 0x42500D4) {
        Some(i) => i,
        None => {
            proof {
                assert(!conn_target_ok(area.scly.layers@[1].objects@, 0x42500D4));
            }
            return Err(());
        },
    };
    if area.scly.layers[1].objects[relay_idx].connections.len() >= 0xFFFF_FFFEusize {
        proof {
            let objs = area.scly.layers@[1].objects@;
            assert forall|i: int|
                !(0 <= i < objs.len() && objs[i].instance_id == 0x42500D4 && (forall|j: int|
                    0 <= j < i ==> objs[j].instance_id != 0x42500D4) && objs[i].connections@.len()
                    < 0xFFFF_FFFE) by {
                if 0 <= i < objs.len() && objs[i].instance_id == 0x42500D4 && (forall|j: int|
                    0 <= j < i ==> objs[j].instance_id != 0x42500D4) {
                    assert(i == relay_idx);
                }
            }
        }
        return Err(());
    }
    let ghost objs0 = area.scly.layers@[1].objects@;
    let ghost conn_len0 = area.scly.layers@[1].objects@[relay_idx as int].connections@.len();
    let enable_sun_tower_layer_id = ps.fresh_instance_id();
    let sf = SclyObject {
        instance_id: enable_sun_tower_layer_id,
        connections: Vec::new(),
        property_data: SclyProperty::SpecialFunction(
            SpecialFunction::layer_change_fn(artifact_switch_name(), 0xCF4C7AA5, 1),
        ),
    };
    proof {
        assert(objs0.len() < 0xFFFF_FFFE);
    }
    match add_object_to_layer(area, 1, sf) {
        Ok(_) => (),
        Err(_) => {
            proof {
                assert(false);
            }
            return Err(());
        },
    };
    proof {
        let objs1 = area.scly.layers@[1].objects@;
        assert(objs1 == objs0.push(sf));
        assert(objs1[relay_idx as int] == objs0[relay_idx as int]);
        assert(forall|j: int| 0 <= j < relay_idx ==> objs1[j].instance_id != 0x42500D4);
        assert(conn_target_ok(objs1, 0x42500D4));
    }
    match add_connection_to_object(
        area,
        1,
        0x42500D4,
        Connection {
            state: STATE_ZERO,
            message: MSG_INCREMENT,
            target_object_id: enable_sun_tower_layer_id,
        },
    ) {
        Ok(_) => Ok(()),
        Err(_) => {
            proof {
                assert(false);
            }
            Err(())
        },
    }
}


// Custom asset ids minted by the patcher; they sit far above every id the
// unpatched disc uses.
pub const NOTHING_ACQUIRED_HUDMEMO_STRG: u32 = 0xDEAF0006;

pub const SKIP_HUDMEMO_STRG_START: u32 = 0xDEAF0040;

/// The item kinds the patcher can place (the artifacts form the contiguous
/// kind range the game reserves for them).
#[derive(Clone, Copy, Debug, PartialEq, Eq, Structural)]
pub enum PickupType {
    Missile,
    EnergyTank,
    MorphBall,
    SpaceJumpBoots,
    ArtifactOfTruth,
    ArtifactOfStrength,
    Nothing,
}

impl PickupType {
    /// The position of the variant in the catalog's order.
    pub open spec fn spec_idx(self) -> u32 {
        match self {
            PickupType::Missile => 0,
            PickupType::EnergyTank => 1,
            PickupType::MorphBall => 2,
            PickupType::SpaceJumpBoots => 3,
            PickupType::ArtifactOfTruth => 4,
            PickupType::ArtifactOfStrength => 5,
            PickupType::Nothing => 6,
        }
    }

    pub fn idx(&self) -> (r: u32)
        ensures
            r == self.spec_idx(),
    {
        match self {
            PickupType::Missile => 0,
            PickupType::EnergyTank => 1,
            PickupType::MorphBall => 2,
            PickupType::SpaceJumpBoots => 3,
            PickupType::ArtifactOfTruth => 4,
            PickupType::ArtifactOfStrength => 5,
            PickupType::Nothing => 6,
        }
    }

    /// The in-game pickup kind; artifact kinds occupy 29 and up.
    pub open spec fn spec_kind(self) -> u32 {
        match self {
            PickupType::Missile => 4,
            PickupType::EnergyTank => 9,
            PickupType::MorphBall => 16,
            PickupType::SpaceJumpBoots => 15,
            PickupType::ArtifactOfTruth => 29,
            PickupType::ArtifactOfStrength => 30,
            PickupType::Nothing => 26,
        }
    }

    pub fn kind(&self) -> (r: u32)
        ensures
            r == self.spec_kind(),
    {
        match self {
            PickupType::Missile => 4,
            PickupType::EnergyTank => 9,
            PickupType::MorphBall => 16,
            PickupType::SpaceJumpBoots => 15,
            PickupType::ArtifactOfTruth => 29,
            PickupType::ArtifactOfStrength => 30,
            PickupType::Nothing => 26,
        }
    }

    pub fn is_artifact(&self) -> (r: bool)
        ensures
            r <==> 29 <= self.spec_kind() <= 40,
    {
        let k = self.kind();
        29 <= k && k <= 40
    }

    /// The message resource shown when the item is acquired.
    pub fn hudmemo_strg(&self) -> (r: u32)
        ensures
            r == NOTHING_ACQUIRED_HUDMEMO_STRG + self.spec_idx(),
    {
        NOTHING_ACQUIRED_HUDMEMO_STRG + self.idx()
    }

    /// The non-modal variant of the acquisition message.
    pub fn skip_hudmemos_strg(&self) -> (r: u32)
        ensures
            r == SKIP_HUDMEMO_STRG_START + self.spec_idx(),
    {
        SKIP_HUDMEMO_STRG_START + self.idx()
    }

    /// The streamed jingle played when the item is acquired.
    pub open spec fn spec_attainment_audio_file_name(self) -> Seq<char> {
        match self {
            PickupType::ArtifactOfTruth => "audio/jin_artifact.dsp"@,
            PickupType::ArtifactOfStrength => "audio/jin_artifact.dsp"@,
            _ => "audio/jin_itemattain.dsp"@,
        }
    }

    pub fn attainment_audio_file_name(&self) -> (r: &'static str)
        ensures
            r@ == self.spec_attainment_audio_file_name(),
    {
        match self {
            PickupType::ArtifactOfTruth => "audio/jin_artifact.dsp",
            PickupType::ArtifactOfStrength => "audio/jin_artifact.dsp",
            _ => "audio/jin_itemattain.dsp",
        }
    }
}

/// A placed item, possibly disguised as another model.
#[derive(Clone, Copy, Debug)]
pub enum MaybeObfuscatedPickup {
    Unobfuscated(PickupType),
    Obfuscated(PickupType),
}

impl MaybeObfuscatedPickup {
    /// The item actually granted, whatever the disguise.
    pub open spec fn spec_orig(self) -> PickupType {
        match self {
            MaybeObfuscatedPickup::Unobfuscated(pt) => pt,
            MaybeObfuscatedPickup::Obfuscated(pt) => pt,
        }
    }

    pub fn orig(&self) -> (r: PickupType)
        ensures
            r == self.spec_orig(),
    {
        match self {
            MaybeObfuscatedPickup::Unobfuscated(pt) => *pt,
            MaybeObfuscatedPickup::Obfuscated(pt) => *pt,
        }
    }

    pub fn hudmemo_strg(&self) -> (r: u32)
        ensures
            r == NOTHING_ACQUIRED_HUDMEMO_STRG + self.spec_orig().spec_idx(),
    {
        let o = self.orig();
        o.hudmemo_strg()
    }

    pub fn skip_hudmemos_strg(&self) -> (r: u32)
        ensures
            r == SKIP_HUDMEMO_STRG_START + self.spec_orig().spec_idx(),
    {
        let o = self.orig();
        o.skip_hudmemos_strg()
    }

    /// The acquisition jingle of the granted item, never of the disguise.
    pub fn attainment_audio_file_name(&self) -> (r: &'static str)
        ensures
            r@ == self.spec_orig().spec_attainment_audio_file_name(),
    {
        let o = self.orig();
        o.attainment_audio_file_name()
    }
}


/// The registered room mutations the engine can run.
#[derive(Clone, Copy, Debug, PartialEq, Eq, Structural)]
pub enum SclyPatchAction {
    ArboretumInvisibleWall,
    MainQuarryDoorLock,
    GeothermalCoreDoorLock,
    GravityChamberGrapplePoint,
    EndingSceneStraightToCredits,
    EssenceCinematicSkipNomusic,
    MinesSecurityStationSoftLock,
    RidleyShorelinesCinematic,
    SunchamberPreventWild,
}

/// Whether the action can apply to the room as it stands: the layers it
/// touches exist and its target object is present with room to grow.
pub open spec fn scly_action_ok(action: SclyPatchAction, a: MlvlArea) -> bool {
    match action {
        SclyPatchAction::ArboretumInvisibleWall => a.scly.layers@.len() > 0,
        SclyPatchAction::MainQuarryDoorLock => a.scly.layers@.len() > 0,
        SclyPatchAction::GeothermalCoreDoorLock => a.scly.layers@.len() > 0,
        SclyPatchAction::GravityChamberGrapplePoint => a.scly.layers@.len() > 0,
        SclyPatchAction::EndingSceneStraightToCredits => a.scly.layers@.len() > 0
            && conn_target_ok(a.scly.layers@[0].objects@, 1103),
        SclyPatchAction::EssenceCinematicSkipNomusic => a.scly.layers@.len() > 0
            && conn_target_ok(a.scly.layers@[0].objects@, 0xB01DC),
        SclyPatchAction::MinesSecurityStationSoftLock => a.scly.layers@.len() > 0
            && conn_target_ok(a.scly.layers@[0].objects@, 460074),
        SclyPatchAction::RidleyShorelinesCinematic => a.scly.layers@.len() > 4,
        SclyPatchAction::SunchamberPreventWild => a.scly.layers@.len() > 1 && conn_target_ok(
            a.scly.layers@[1].objects@,
            0x42500D4,
        ) && a.scly.layers@[1].objects@.len() < 0xFFFF_FFFE,
    }
}

/// A connection appended to the first object with the id, everything else
/// of the layer as it was.
pub open spec fn conn_added(
    objs0: Seq<SclyObject>,
    objs1: Seq<SclyObject>,
    target: u32,
    conn: Connection,
) -> bool {
    exists|i: int|
        {
            &&& 0 <= i < objs0.len()
            &&& objs0[i].instance_id == target
            &&& objs1 == objs0.update(
                i,
                SclyObject {
                    instance_id: objs0[i].instance_id,
                    connections: objs1[i].connections,
                    property_data: objs0[i].property_data,
                },
            )
            &&& objs1[i].connections@ == objs0[i].connections@.push(conn)
        }
}

/// What the action does to the room.  A fresh id, where one is drawn, lies
/// in `[id_lo, id_hi)`.
pub open spec fn scly_action_rel(
    action: SclyPatchAction,
    a0: MlvlArea,
    a1: MlvlArea,
    id_lo: u32,
    id_hi: u32,
) -> bool {
    match action {
        SclyPatchAction::ArboretumInvisibleWall => area_frame_except(a0, a1, 0)
            && a1.scly.layers@[0].objects@ == a0.scly.layers@[0].objects@.filter(
            |o: SclyObject| o.instance_id != 0x1302AA,
        ),
        SclyPatchAction::MainQuarryDoorLock => area_frame_except(a0, a1, 0)
            && a1.scly.layers@[0].objects@ == a0.scly.layers@[0].objects@.filter(
            |o: SclyObject| o.instance_id != 132563,
        ),
        SclyPatchAction::GeothermalCoreDoorLock => area_frame_except(a0, a1, 0)
            && a1.scly.layers@[0].objects@ == a0.scly.layers@[0].objects@.filter(
            |o: SclyObject| o.instance_id != 1311646,
        ),
        SclyPatchAction::GravityChamberGrapplePoint => area_frame_except(a0, a1, 0)
            && a1.scly.layers@[0].objects@ == a0.scly.layers@[0].objects@.filter(
            |o: SclyObject| o.instance_id != 3473722,
        ),
        SclyPatchAction::EndingSceneStraightToCredits => area_frame_except(a0, a1, 0)
            && conn_added(
            a0.scly.layers@[0].objects@,
            a1.scly.layers@[0].objects@,
            1103,
            Connection { state: STATE_ENTERED, message: MSG_ACTION, target_object_id: 1241 },
        ),
        SclyPatchAction::EssenceCinematicSkipNomusic => area_frame_except(a0, a1, 0)
            && conn_added(
            a0.scly.layers@[0].objects@,
            a1.scly.layers@[0].objects@,
            0xB01DC,
            Connection { state: STATE_ZERO, message: MSG_PLAY, target_object_id: 0xB019E },
        ),
        SclyPatchAction::MinesSecurityStationSoftLock => area_frame_except(a0, a1, 0)
            && conn_added(
            a0.scly.layers@[0].objects@,
            a1.scly.layers@[0].objects@,
            460074,
            Connection {
                state: STATE_MAX_REACHED,
                message: MSG_DEACTIVATE,
                target_object_id: 67568447,
            },
        ),
        SclyPatchAction::RidleyShorelinesCinematic => area_frame_except(a0, a1, 4)
            && a1.scly.layers@[4].objects@.len() == 0,
        SclyPatchAction::SunchamberPreventWild => {
            let new_obj = a1.scly.layers@[1].objects@[a0.scly.layers@[1].objects@.len() as int];
            &&& area_frame_except(a0, a1, 1)
            &&& a1.scly.layers@[1].objects@.len() == a0.scly.layers@[1].objects@.len() + 1
            &&& id_lo <= new_obj.instance_id < id_hi
            &&& new_obj.connections@.len() == 0
            &&& (new_obj.property_data matches SclyProperty::SpecialFunction(sf) && sf.type_
                == 16 && sf.layer_change_room_id == 0xCF4C7AA5 && sf.layer_change_layer_id == 1)
            &&& exists|i: int|
                #![trigger a0.scly.layers@[1].objects@[i]]
                {
                    let olds = a0.scly.layers@[1].objects@;
                    let news = a1.scly.layers@[1].objects@;
                    &&& 0 <= i < olds.len()
                    &&& olds[i].instance_id == 0x42500D4
                    &&& news == olds.push(news[olds.len() as int]).update(
                        i,
                        SclyObject {
                            instance_id: olds[i].instance_id,
                            connections: news[i].connections,
                            property_data: olds[i].property_data,
                        },
                    )
                    &&& news[i].connections@ == olds[i].connections@.push(
                        Connection {
                            state: STATE_ZERO,
                            message: MSG_INCREMENT,
                            target_object_id: new_obj.instance_id,
                        },
                    )
                }
        },
    }
}

/// A wider fresh-id window keeps the relation.
pub proof fn lemma_action_rel_widen(
    action: SclyPatchAction,
    a0: MlvlArea,
    a1: MlvlArea,
    lo: u32,
    hi: u32,
    lo2: u32,
    hi2: u32,
)
    requires
        scly_action_rel(action, a0, a1, lo, hi),
        lo2 <= lo,
        hi <= hi2,
    ensures
        scly_action_rel(action, a0, a1, lo2, hi2),
{
}

/// Dispatch one registered mutation against a room.  Succeeds exactly when
/// the action can apply (and, where a fresh id is needed, the allocator has
/// one left); then the room relates to its old self by the action's effect.
/// On failure the room's content is untouched.
pub fn apply_scly_patch(ps: &mut PatcherState, area: &mut MlvlArea, action: SclyPatchAction)
    -> (r: Result<(), ()>)
    requires
        old(ps).next_instance_id >= crate::patcher::FRESH_INSTANCE_ID_START,
    ensures
        final(ps).next_instance_id >= old(ps).next_instance_id,
        final(ps).next_instance_id <= old(ps).next_instance_id + 1,
        final(ps).next_instance_id >= crate::patcher::FRESH_INSTANCE_ID_START,
        r is Ok <==> scly_action_ok(action, *old(area)) && (action is SunchamberPreventWild
            ==> old(ps).next_instance_id < 0xFFFF_FFFF),
        r is Ok ==> scly_action_rel(
            action,
            *old(area),
            *final(area),
            old(ps).next_instance_id,
            final(ps).next_instance_id,
        ),
        r is Err ==> *final(ps) == *old(ps) && area_frame_except(*old(area), *final(area), -1)
            && final(area).scly.layers@ == old(area).scly.layers@,
{
    match action {
        SclyPatchAction::ArboretumInvisibleWall => {
            if area.scly.layers.len() == 0 {
                return Err(());
            }
            patch_arboretum_invisible_wall(ps, area)
        },
        SclyPatchAction::MainQuarryDoorLock => {
            if area.scly.layers.len() == 0 {
                return Err(());
            }
            patch_main_quarry_door_lock_0_02(ps, area)
        },
        SclyPatchAction::GeothermalCoreDoorLock => {
            if area.scly.layers.len() == 0 {
                return Err(());
            }
            patch_geothermal_core_door_lock_0_02(ps, area)
        },
        SclyPatchAction::GravityChamberGrapplePoint => {
            if area.scly.layers.len() == 0 {
                return Err(());
            }
            patch_gravity_chamber_stalactite_grapple_point(ps, area)
        },
        SclyPatchAction::EndingSceneStraightToCredits => {
            if area.scly.layers.len() == 0 {
                return Err(());
            }
            patch_ending_scene_straight_to_credits(ps, area)
        },
        SclyPatchAction::EssenceCinematicSkipNomusic => {
            if area.scly.layers.len() == 0 {
                return Err(());
            }
            patch_essence_cinematic_skip_nomusic(ps, area)
        },
        SclyPatchAction::MinesSecurityStationSoftLock => {
            if area.scly.layers.len() == 0 {
                return Err(());
            }
            patch_mines_security_station_soft_lock(ps, area)
        },
        SclyPatchAction::RidleyShorelinesCinematic => {
            if area.scly.layers.len() <= 4 {
                return Err(());
            }
            patch_ridley_phendrana_shorelines_cinematic(ps, area)
        },
        SclyPatchAction::SunchamberPreventWild => {
            if area.scly.layers.len() <= 1 {
                return Err(());
            }
            if ps.next_instance_id >= 0xFFFF_FFFF {
                return Err(());
            }
            patch_sunchamber_prevent_wild_before_flaahgra(ps, area)
        },
    }
}




// The rooms the catalog's mutations target, by their room-resource id.
pub const ROOM_ARBORETUM: u32 = 0x18100206;

pub const ROOM_MAIN_QUARRY: u32 = 0x1B200901;

pub const ROOM_GEOTHERMAL_CORE: u32 = 0x1C300B05;

pub const ROOM_GRAVITY_CHAMBER: u32 = 0x19400D02;

pub const ROOM_ENDING_SCENE: u32 = 0x1A500F01;

pub const ROOM_ESSENCE_CHAMBER: u32 = 0x1A500E03;

pub const ROOM_MINES_SECURITY: u32 = 0x1B201104;

pub const ROOM_PHENDRANA_SHORELINES: u32 = 0x19401301;

pub const ROOM_SUNCHAMBER: u32 = 0x18101507;

/// The caller's choices that decide which mutations are registered.
#[derive(Clone, Copy, Debug, PartialEq, Eq, Structural, Default)]
pub struct PatchConfig {
    pub skip_impact_crater: bool,
    pub qol_cutscenes: bool,
    pub qol_game_breaking: bool,
}

/// The registration list a configuration produces, in the order the engine
/// will apply it.
pub open spec fn spec_registrations(version: Version, cfg: PatchConfig) -> Seq<
    crate::patcher::SclyPatch,
> {
    let base = seq![
        crate::patcher::SclyPatch {
            mrea_id: ROOM_SUNCHAMBER,
            action: SclyPatchAction::SunchamberPreventWild,
        },
    ];
    let gb = if cfg.qol_game_breaking {
        seq![
            crate::patcher::SclyPatch {
                mrea_id: ROOM_ARBORETUM,
                action: SclyPatchAction::ArboretumInvisibleWall,
            },
            crate::patcher::SclyPatch {
                mrea_id: ROOM_MINES_SECURITY,
                action: SclyPatchAction::MinesSecurityStationSoftLock,
            },
            crate::patcher::SclyPatch {
                mrea_id: ROOM_GRAVITY_CHAMBER,
                action: SclyPatchAction::GravityChamberGrapplePoint,
            },
        ]
    } else {
        Seq::empty()
    };
    let locks = if version is NtscU0_02 {
        seq![
            crate::patcher::SclyPatch {
                mrea_id: ROOM_MAIN_QUARRY,
                action: SclyPatchAction::MainQuarryDoorLock,
            },
            crate::patcher::SclyPatch {
                mrea_id: ROOM_GEOTHERMAL_CORE,
                action: SclyPatchAction::GeothermalCoreDoorLock,
            },
        ]
    } else {
        Seq::empty()
    };
    let cutscenes = if cfg.qol_cutscenes {
        seq![
            crate::patcher::SclyPatch {
                mrea_id: ROOM_ESSENCE_CHAMBER,
                action: SclyPatchAction::EssenceCinematicSkipNomusic,
            },
            crate::patcher::SclyPatch {
                mrea_id: ROOM_PHENDRANA_SHORELINES,
                action: SclyPatchAction::RidleyShorelinesCinematic,
            },
        ]
    } else {
        Seq::empty()
    };
    let crater = if cfg.skip_impact_crater {
        seq![
            crate::patcher::SclyPatch {
                mrea_id: ROOM_ENDING_SCENE,
                action: SclyPatchAction::EndingSceneStraightToCredits,
            },
        ]
    } else {
        Seq::empty()
    };
    base + gb + locks + cutscenes + crater
}

/// Turn the configuration into the registration list the engine runs, in
/// registration order.
pub fn build_patches(version: Version, cfg: &PatchConfig) -> (r: crate::patcher::PrimePatcher)
    ensures
        r.scly_patches@ == spec_registrations(version, *cfg),
{
    let mut patcher = crate::patcher::PrimePatcher::new();
    patcher.add_scly_patch(ROOM_SUNCHAMBER, SclyPatchAction::SunchamberPreventWild);
    if cfg.qol_game_breaking {
        patcher.add_scly_patch(ROOM_ARBORETUM, SclyPatchAction::ArboretumInvisibleWall);
        patcher.add_scly_patch(ROOM_MINES_SECURITY, SclyPatchAction::MinesSecurityStationSoftLock);
        patcher.add_scly_patch(
            ROOM_GRAVITY_CHAMBER,
            SclyPatchAction::GravityChamberGrapplePoint,
        );
    }
    let is_0_02 = match version {
        Version::NtscU0_02 => true,
        _ => false,
    };
    if is_0_02 {
        patcher.add_scly_patch(ROOM_MAIN_QUARRY, SclyPatchAction::MainQuarryDoorLock);
        patcher.add_scly_patch(ROOM_GEOTHERMAL_CORE, SclyPatchAction::GeothermalCoreDoorLock);
    }
    if cfg.qol_cutscenes {
        patcher.add_scly_patch(ROOM_ESSENCE_CHAMBER, SclyPatchAction::EssenceCinematicSkipNomusic);
        patcher.add_scly_patch(
            ROOM_PHENDRANA_SHORELINES,
            SclyPatchAction::RidleyShorelinesCinematic,
        );
    }
    if cfg.skip_impact_crater {
        patcher.add_scly_patch(ROOM_ENDING_SCENE, SclyPatchAction::EndingSceneStraightToCredits);
    }
    proof {
        assert(patcher.scly_patches@ =~= spec_registrations(version, *cfg));
    }
    patcher
}

} // verus!
