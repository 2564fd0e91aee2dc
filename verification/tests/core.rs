use randomprime::area::{Dependency, LayerFlags, MlvlArea};
use randomprime::bytes::{Cursor, Sink};
use std::io::Read;
use randomprime::fst::{FstEntry, FstEntryFile, GcDisc, split_path, unresolved_keys};
use randomprime::mrea::{Mrea, MreaSection, parse_mrea, try_write_mrea};
use randomprime::pak::{Pak, Resource, ResourceData, ResourceKind, parse_pak, try_write_pak};
use randomprime::patcher::{PatcherState, PrimePatcher, layer_encoded_id};
use randomprime::patches::{
    ArtifactHintBehavior, IsoFormat, MaybeObfuscatedPickup, PatchConfig, PickupType, Version,
    WaterType, SclyPatchAction, build_patches, detect_version, patch_arboretum_invisible_wall,
    patch_ending_scene_straight_to_credits, patch_sunchamber_prevent_wild_before_flaahgra,
    post_pickup_relay_template, ROOM_SUNCHAMBER, ROOM_ENDING_SCENE,
};
use randomprime::scly::{
    Connection, OBJ_TRIGGER, STATE_ENTERED, MSG_ACTION, Scly, SclyLayer, SclyObject,
    SclyProperty,
};
use randomprime::scly_props::{Relay, Trigger};
use randomprime::writers::{CisoWriter, DiscWrite, FlatWriter, GczWriter};

fn seg(parts: &[&str]) -> Vec<Vec<u8>> {
    parts.iter().map(|p| p.as_bytes().to_vec()).collect()
}

fn relay_object(id: u32) -> SclyObject {
    SclyObject {
        instance_id: id,
        connections: vec![],
        property_data: SclyProperty::Relay(Relay { name: b"r".to_vec(), active: 1 }),
    }
}

fn small_area(layer0_ids: &[u32]) -> MlvlArea {
    let objects: Vec<SclyObject> = layer0_ids.iter().map(|&i| relay_object(i)).collect();
    MlvlArea {
        internal_id: 0xCAFE,
        layer_flags: LayerFlags { layer_count: 1, flags: 1 },
        layer_names: vec![b"Default".to_vec()],
        layer_deps: vec![vec![]],
        scly: Scly { unknown: 1, layers: vec![SclyLayer { unknown: 0, objects }] },
        mrea: Mrea {
            area_transform: vec![0; 12],
            world_model_count: 0,
            world_geometry_section_idx: 1,
            scly_section_idx: 0,
            collision_section_idx: 1,
            unknown_section_idx: 1,
            lights_section_idx: 1,
            visibility_tree_section_idx: 1,
            path_section_idx: 1,
            area_octree_section_idx: 1,
            sections: vec![MreaSection::Unknown(Cursor { pos: 0, end: 0 })],
        },
    }
}

// Round-trip: a parsed archive re-serializes to exactly the input bytes.
#[test]
fn pak_round_trip_unmodified() {
    let empty_buf: Vec<u8> = Vec::new();
    let pak = Pak {
        resources: vec![
            Resource {
                compressed: false,
                fourcc: 0x54585452,
                id: 0x1234,
                kind: ResourceKind::External(vec![1, 2, 3, 4, 5]),
            },
            Resource {
                compressed: false,
                fourcc: 0x53545247,
                id: 0x9999,
                kind: ResourceKind::External(vec![7; 40]),
            },
        ],
    };
    let bytes = try_write_pak(&pak, &empty_buf).unwrap();
    let mut c = Cursor::new(&bytes);
    let parsed = parse_pak(&mut c, &bytes).expect("well-formed archive must parse");
    assert_eq!(c.pos, bytes.len());
    let again = try_write_pak(&parsed, &bytes).unwrap();
    assert_eq!(bytes, again);
}

// Format corruption: a wrong expected-constant is rejected.
#[test]
fn pak_wrong_version_rejected() {
    let empty_buf: Vec<u8> = Vec::new();
    let pak = Pak { resources: vec![] };
    let mut bytes = try_write_pak(&pak, &empty_buf).unwrap();
    bytes[0] ^= 0xFF;
    let mut c = Cursor::new(&bytes);
    assert!(parse_pak(&mut c, &bytes).is_none());
}

// Derived fields: after a patch changes a section's byte length, the
// persisted count and size fields match the new content.
#[test]
fn mrea_derived_sizes_follow_mutation() {
    let empty_buf: Vec<u8> = Vec::new();
    let scly = Scly {
        unknown: 1,
        layers: vec![SclyLayer { unknown: 0, objects: vec![relay_object(7)] }],
    };
    let mut mrea = small_area(&[]).mrea;
    mrea.sections = vec![MreaSection::Scly(scly)];
    let bytes1 = try_write_mrea(&mrea, &empty_buf).unwrap();
    // section count field sits after magic, version, 12-word transform and
    // the world-model count: offset 4 + 4 + 48 + 4.
    let count = u32::from_be_bytes(bytes1[60..64].try_into().unwrap());
    assert_eq!(count, 1);
    let size1 = u32::from_be_bytes(bytes1[96..100].try_into().unwrap());

    // Grow the scripting section by one object and re-serialize.
    match &mut mrea.sections[0] {
        MreaSection::Scly(s) => s.layers[0].objects.push(relay_object(8)),
        _ => unreachable!(),
    }
    let bytes2 = try_write_mrea(&mrea, &empty_buf).unwrap();
    let size2 = u32::from_be_bytes(bytes2[96..100].try_into().unwrap());
    assert!(size2 > size1);

    // And the re-serialized form still parses, reproducing its own bytes.
    let mut c = Cursor::new(&bytes2);
    let parsed = parse_mrea(&mut c, &bytes2).expect("must parse");
    let bytes3 = try_write_mrea(&parsed, &bytes2).unwrap();
    assert_eq!(bytes2, bytes3);
}

// Scenario: a compressed resource decompresses through the real DEFLATE
// implementation back to the uncompressed payload.
#[test]
fn resource_decompression() {
    let payload: Vec<u8> = (0..200u32).map(|i| (i * 7 % 251) as u8).collect();
    let mut stream = Vec::new();
    let mut enc = flate2::bufread::DeflateEncoder::new(
        &payload[..],
        flate2::Compression::default(),
    );
    enc.read_to_end(&mut stream).unwrap();

    let mut buf = Vec::new();
    buf.extend_from_slice(&(payload.len() as u32).to_be_bytes());
    buf.extend_from_slice(&[0x78, 0xDA]);
    buf.extend_from_slice(&stream);

    let res = Resource {
        compressed: true,
        fourcc: 0x54585452,
        id: 1,
        kind: ResourceKind::Raw(Cursor { pos: 0, end: buf.len() }),
    };
    let data = ResourceData::new(&res);
    let out = data.decompress(&buf).expect("stream is valid");
    assert_eq!(out, payload);
}

// Idempotent dependency injection: twice with overlapping sets equals once
// with the union.
#[test]
fn dependency_injection_idempotent() {
    let d1 = Dependency { asset_id: 1, asset_type: 10 };
    let d2 = Dependency { asset_id: 2, asset_type: 20 };
    let d3 = Dependency { asset_id: 3, asset_type: 30 };

    let mut area_a = small_area(&[]);
    area_a.add_dependencies(0, &vec![d1, d2]);
    area_a.add_dependencies(0, &vec![d2, d3]);

    let mut area_b = small_area(&[]);
    area_b.add_dependencies(0, &vec![d1, d2, d2, d3]);

    assert_eq!(area_a.layer_deps[0], vec![d1, d2, d3]);
    assert_eq!(area_a.layer_deps[0], area_b.layer_deps[0]);

    // And injecting the same keys again changes nothing.
    area_a.add_dependencies(0, &vec![d1, d2, d3]);
    assert_eq!(area_a.layer_deps[0], vec![d1, d2, d3]);
}

// Scenario: one layer with ids {1,2,3}; a new layer plus two fresh objects
// collide neither with the old ids nor with each other, and the bitmask
// gains exactly one bit.
#[test]
fn fresh_ids_and_new_layer() {
    let mut area = small_area(&[1, 2, 3]);
    let flags_before = area.layer_flags.flags;
    area.add_layer(b"Fresh Layer".to_vec());
    let flags_after = area.layer_flags.flags;
    assert_eq!(area.layer_flags.layer_count, 2);
    let added_bits = flags_after & !flags_before;
    assert_eq!(added_bits.count_ones(), 1);

    let mut ps = PatcherState::new();
    let a = ps.fresh_instance_id();
    let b = ps.fresh_instance_id();
    assert_ne!(a, b);
    for old in [1u32, 2, 3] {
        assert_ne!(a, old);
        assert_ne!(b, old);
    }
}

#[test]
fn layer_encoded_ids() {
    assert_eq!(layer_encoded_id(2, 5), 2 * 0x4000000 + 5);
    assert_ne!(layer_encoded_id(1, 5), layer_encoded_id(2, 5));
    assert_ne!(layer_encoded_id(1, 5), layer_encoded_id(1, 6));
}

// Compressed-block writer completeness, bitmap format: a block is present
// in the output iff some byte of its range was written.
#[test]
fn ciso_block_presence() {
    let bs = 16usize;
    let mut w = CisoWriter::new(bs, 4);
    w.write_block_data(20, &vec![0xAB, 0xCD]);  // touches only block 1
    let out = w.finish();
    // magic, block size, count
    assert_eq!(&out[0..4], &0x4349534Fu32.to_be_bytes());
    assert_eq!(u32::from_be_bytes(out[4..8].try_into().unwrap()), bs as u32);
    assert_eq!(u32::from_be_bytes(out[8..12].try_into().unwrap()), 4);
    // bitmap: exactly block 1 present
    assert_eq!(&out[12..16], &[0, 1, 0, 0]);
    // body: exactly one block, holding the written bytes at local offsets
    assert_eq!(out.len(), 16 + bs);
    let block = &out[16..16 + bs];
    assert_eq!(block[4], 0xAB);
    assert_eq!(block[5], 0xCD);
    // a zero write still marks its block present
    let mut w2 = CisoWriter::new(bs, 4);
    w2.write_block_data(0, &vec![0]);
    let out2 = w2.finish();
    assert_eq!(&out2[12..16], &[1, 0, 0, 0]);
}

// Compressed-block writer completeness, indexed format: every present block
// decompresses back to the exact bytes last written.
#[test]
fn gcz_blocks_decompress_to_last_write() {
    let bs = 16usize;
    let mut w = GczWriter::new(bs, 3);
    w.write_at(0, &vec![9; 16]);
    // overwrite part of block 0 again: the last write must win
    w.write_at(2, &vec![1, 2, 3]);
    let blocks = w.finish();
    assert!(blocks[0].is_some());
    assert!(blocks[1].is_none());
    assert!(blocks[2].is_none());
    let blob = blocks[0].as_ref().unwrap();
    let mut dec = flate2::bufread::DeflateDecoder::new(&blob[..]);
    let mut content = Vec::new();
    dec.read_to_end(&mut content).unwrap();
    let mut expect = vec![9u8; 16];
    expect[2] = 1;
    expect[3] = 2;
    expect[4] = 3;
    assert_eq!(content, expect);
}

// Scenario: the same writes through the plain and the bitmap-block writer
// give byte-identical logical content.
#[test]
fn flat_and_ciso_logical_content_agree() {
    let bs = 8usize;
    let total = 4 * bs;
    let mut flat = FlatWriter::new(total);
    let mut ciso = CisoWriter::new(bs, 4);
    let writes: Vec<(usize, Vec<u8>)> = vec![
        (0, vec![0xAA, 0xBB, 0xCC]),
        (12, vec![1, 2, 3, 4, 5, 6, 7, 8, 9, 10]),
        (2, vec![0xEE]),  // overlapping, out of order
    ];
    for (off, data) in &writes {
        flat.write_at(*off, data);
        ciso.write_at(*off, data);
    }
    let flat_bytes = flat.into_bytes();
    let mut logical = Vec::new();
    for b in &ciso.blocks {
        match b {
            Some(v) => logical.extend_from_slice(v),
            None => logical.extend_from_slice(&vec![0u8; bs]),
        }
    }
    assert_eq!(flat_bytes, logical);
}

// Scenario: adding a file at "a/b/c.bin" where "a" does not exist creates
// the directories and the file with the given bytes.
#[test]
fn add_file_creates_directories() {
    let mut disc = GcDisc {
        game_id: b"GM8E01".to_vec(),
        disc_id: 0,
        version: 0,
        file_system_root: vec![],
    };
    let path = seg(&["a", "b", "c.bin"]);
    disc.add_file(&path, FstEntryFile::ExternalFile(vec![0xDE, 0xAD])).unwrap();

    match disc.find_file(&seg(&["a"])) {
        Some(FstEntry::Dir(n, _)) => assert_eq!(n, b"a"),
        other => panic!("expected directory, got {:?}", other),
    }
    match disc.find_file(&seg(&["a", "b"])) {
        Some(FstEntry::Dir(n, _)) => assert_eq!(n, b"b"),
        other => panic!("expected directory, got {:?}", other),
    }
    match disc.find_file(&path) {
        Some(FstEntry::File(n, FstEntryFile::ExternalFile(data))) => {
            assert_eq!(n, b"c.bin");
            assert_eq!(data, &vec![0xDE, 0xAD]);
        },
        other => panic!("expected file, got {:?}", other),
    }
    // a segment that names a file cannot be used as a directory
    assert!(disc.add_file(&seg(&["a", "b", "c.bin", "d"]), FstEntryFile::ExternalFile(vec![]))
        .is_err());
}

#[test]
fn split_path_skips_empty_segments() {
    let segs = split_path(&b"/a//b/c.bin".to_vec());
    assert_eq!(segs, seg(&["a", "b", "c.bin"]));
}

// Scenario: dependency resolution with a key absent from every archive
// fails, listing exactly that key.
#[test]
fn unresolved_dependency_reported() {
    let pak1 = Pak {
        resources: vec![Resource {
            compressed: false,
            fourcc: 0x41424344,  // "ABCD"
            id: 10,
            kind: ResourceKind::External(vec![1]),
        }],
    };
    let pak2 = Pak { resources: vec![] };
    let keys = vec![
        Dependency { asset_id: 10, asset_type: 0x41424344 },
        Dependency { asset_id: 20, asset_type: 0x5758595A },  // "WXYZ"
    ];
    let missing = unresolved_keys(&vec![pak1, pak2], &keys);
    assert_eq!(missing, vec![Dependency { asset_id: 20, asset_type: 0x5758595A }]);
}

// The header identifier tuple selects the version; unknown tuples fail fast.
#[test]
fn version_detection() {
    assert_eq!(detect_version(&b"GM8E01".to_vec(), 0, 0), Some(Version::NtscU0_00));
    assert_eq!(detect_version(&b"GM8E01".to_vec(), 0, 2), Some(Version::NtscU0_02));
    assert_eq!(detect_version(&b"GM8P01".to_vec(), 0, 0), Some(Version::Pal));
    assert_eq!(detect_version(&b"R3ME01".to_vec(), 0, 0), Some(Version::NtscUTrilogy));
    assert_eq!(detect_version(&b"XXXXXX".to_vec(), 0, 0), None);
    assert_eq!(detect_version(&b"GM8E01".to_vec(), 1, 0), None);
}

#[test]
fn default_formats() {
    assert!(matches!(IsoFormat::default(), IsoFormat::Iso));
    assert!(matches!(ArtifactHintBehavior::default(), ArtifactHintBehavior::Default));
}

#[test]
fn water_dependencies_are_typed() {
    let deps = WaterType::Normal.dependencies();
    assert_eq!(deps.len(), 1);
    assert_eq!(deps[0].asset_type, 0x54585452);
    assert_ne!(
        WaterType::Normal.dependencies()[0].asset_id,
        WaterType::Lava.dependencies()[0].asset_id,
    );
}

#[test]
fn pickup_attainment_audio() {
    let p = MaybeObfuscatedPickup::Obfuscated(PickupType::ArtifactOfTruth);
    assert_eq!(p.attainment_audio_file_name(), "audio/jin_artifact.dsp");
    let q = MaybeObfuscatedPickup::Unobfuscated(PickupType::Missile);
    assert_eq!(q.attainment_audio_file_name(), "audio/jin_itemattain.dsp");
    assert_ne!(p.hudmemo_strg(), p.skip_hudmemos_strg());
}

// A removal patch deletes exactly its target object.
#[test]
fn arboretum_wall_removed() {
    let mut area = small_area(&[5, 0x1302AA, 9]);
    let mut ps = PatcherState::new();
    patch_arboretum_invisible_wall(&mut ps, &mut area).unwrap();
    let ids: Vec<u32> = area.scly.layers[0].objects.iter().map(|o| o.instance_id).collect();
    assert_eq!(ids, vec![5, 9]);
}

// A connection patch adds exactly one edge to its target object.
#[test]
fn ending_scene_connection_added() {
    let mut area = small_area(&[1103, 42]);
    let mut ps = PatcherState::new();
    patch_ending_scene_straight_to_credits(&mut ps, &mut area).unwrap();
    let obj = &area.scly.layers[0].objects[0];
    assert_eq!(obj.instance_id, 1103);
    assert_eq!(obj.connections.len(), 1);
    let c = obj.connections[0];
    assert_eq!(c.state, STATE_ENTERED);
    assert_eq!(c.message, MSG_ACTION);
    assert_eq!(c.target_object_id, 1241);
    // missing target: error, area untouched
    let mut area2 = small_area(&[42]);
    assert!(patch_ending_scene_straight_to_credits(&mut ps, &mut area2).is_err());
    assert_eq!(area2.scly.layers[0].objects.len(), 1);
    assert_eq!(area2.scly.layers[0].objects[0].connections.len(), 0);
}

// A layer-creating patch mints an id that collides with nothing.
#[test]
fn sunchamber_patch_inserts_function() {
    let mut area = small_area(&[]);
    area.add_layer(b"Layer 1".to_vec());
    // the relay the patch hooks into
    area.scly.layers[1].objects.push(relay_object(0x42500D4));
    let mut ps = PatcherState::new();
    patch_sunchamber_prevent_wild_before_flaahgra(&mut ps, &mut area).unwrap();
    assert_eq!(area.scly.layers[1].objects.len(), 2);
    let new_obj = &area.scly.layers[1].objects[1];
    assert!(new_obj.instance_id >= 0xDEAD0000);
    let relay = &area.scly.layers[1].objects[0];
    assert_eq!(relay.connections.len(), 1);
    assert_eq!(relay.connections[0].target_object_id, new_obj.instance_id);
}

// Lazy reinterpretation: an object parsed from bytes promotes to its typed
// form in place, and the promoted object re-serializes byte-exactly.
#[test]
fn scly_parse_promote_write_round_trip() {
    let trigger = Trigger {
        name: b"Trigger".to_vec(),
        position: randomprime::scly_props::Xyz { x: 1, y: 2, z: 3 },
        scale: randomprime::scly_props::Xyz { x: 4, y: 5, z: 6 },
        damage_info: randomprime::scly_props::DamageInfo {
            weapon_type: 0,
            damage: 0,
            radius: 0,
            knockback_power: 0,
        },
        force: randomprime::scly_props::Xyz { x: 0, y: 0, z: 0 },
        flags: 1,
        active: 1,
        deactivate_on_enter: 1,
        deactivate_on_exit: 0,
    };
    let scly = Scly {
        unknown: 1,
        layers: vec![SclyLayer {
            unknown: 0,
            objects: vec![SclyObject {
                instance_id: 221,
                connections: vec![Connection {
                    state: STATE_ENTERED,
                    message: MSG_ACTION,
                    target_object_id: 7,
                }],
                property_data: SclyProperty::Trigger(trigger),
            }],
        }],
    };
    let mut sink = Sink::new();
    scly.try_write(&mut sink).unwrap();
    let bytes = sink.into_bytes();

    let mut c = Cursor::new(&bytes);
    let mut parsed = randomprime::scly::parse_scly(&mut c, &bytes).expect("must parse");
    // fresh from the disc the object is raw
    assert!(matches!(
        parsed.layers[0].objects[0].property_data,
        SclyProperty::Unknown { object_type: OBJ_TRIGGER, .. }
    ));
    // promotion reinterprets it in place
    assert!(parsed.layers[0].objects[0].property_data.promote());
    match &parsed.layers[0].objects[0].property_data {
        SclyProperty::Trigger(t) => {
            assert_eq!(t.name, b"Trigger");
            assert_eq!(t.active, 1);
        },
        other => panic!("expected trigger, got {:?}", other),
    }
    // and the promoted form serializes to the same bytes
    let mut sink2 = Sink::new();
    parsed.try_write(&mut sink2).unwrap();
    assert_eq!(bytes, sink2.into_bytes());
}

// Registration order: two patches on the same room apply in order against
// the same instance, so the second observes the first's changes.
#[test]
fn patches_apply_in_registration_order() {
    let mut patcher = PrimePatcher::new();
    patcher.add_scly_patch(0x1111, SclyPatchAction::EndingSceneStraightToCredits);
    patcher.add_scly_patch(0x1111, SclyPatchAction::ArboretumInvisibleWall);
    let mut rooms = vec![(0x1111u32, small_area(&[1103, 0x1302AA]))];
    let mut ps = PatcherState::new();
    patcher.run_patches(&mut ps, &mut rooms).unwrap();
    let objs = &rooms[0].1.scly.layers[0].objects;
    // first patch added the connection, second removed the wall object
    assert_eq!(objs.len(), 1);
    assert_eq!(objs[0].instance_id, 1103);
    assert_eq!(objs[0].connections.len(), 1);

    // a patch whose room is absent aborts the run
    let mut patcher2 = PrimePatcher::new();
    patcher2.add_scly_patch(0x2222, SclyPatchAction::ArboretumInvisibleWall);
    let mut rooms2 = vec![(0x1111u32, small_area(&[]))];
    assert!(patcher2.run_patches(&mut ps, &mut rooms2).is_err());
}

// Registration list: the configuration decides exactly which mutations are
// registered and in which order.
#[test]
fn registrations_follow_configuration() {
    let cfg = PatchConfig { skip_impact_crater: true, qol_cutscenes: false, qol_game_breaking: false };
    let patcher = build_patches(Version::NtscU0_00, &cfg);
    assert_eq!(patcher.scly_patches.len(), 2);
    assert_eq!(patcher.scly_patches[0].mrea_id, ROOM_SUNCHAMBER);
    assert!(matches!(patcher.scly_patches[0].action, SclyPatchAction::SunchamberPreventWild));
    assert_eq!(patcher.scly_patches[1].mrea_id, ROOM_ENDING_SCENE);
    // the door-lock fixes are registered only for the revision that needs them
    let patcher2 = build_patches(Version::NtscU0_02, &cfg);
    assert_eq!(patcher2.scly_patches.len(), 4);
}

// The relay template stores the full relay name that ends up on the disc.
#[test]
fn post_pickup_relay_name() {
    let obj = post_pickup_relay_template(77, vec![]);
    match obj.property_data {
        SclyProperty::Relay(rel) => {
            assert_eq!(rel.name, b"Randomizer Post Pickup Relay");
            assert_eq!(rel.active, 1);
        },
        other => panic!("expected relay, got {:?}", other),
    }
}

// A patch whose target object is absent aborts the run (the room exists but
// the action cannot apply).
#[test]
fn run_aborts_on_inapplicable_action() {
    let mut patcher = PrimePatcher::new();
    patcher.add_scly_patch(0x3333, SclyPatchAction::EndingSceneStraightToCredits);
    // the room exists, but no object 1103 is in it
    let mut rooms = vec![(0x3333u32, small_area(&[42]))];
    let mut ps = PatcherState::new();
    assert!(patcher.run_patches(&mut ps, &mut rooms).is_err());
    // the room's objects are untouched
    assert_eq!(rooms[0].1.scly.layers[0].objects.len(), 1);
    assert_eq!(rooms[0].1.scly.layers[0].objects[0].connections.len(), 0);
}

// A patch applies to every room that carries its resource id.
#[test]
fn patch_applies_to_every_matching_room() {
    let mut patcher = PrimePatcher::new();
    patcher.add_scly_patch(0x4444, SclyPatchAction::ArboretumInvisibleWall);
    let mut rooms = vec![
        (0x4444u32, small_area(&[0x1302AA, 5])),
        (0x5555u32, small_area(&[0x1302AA])),
        (0x4444u32, small_area(&[6, 0x1302AA])),
    ];
    let mut ps = PatcherState::new();
    patcher.run_patches(&mut ps, &mut rooms).unwrap();
    assert_eq!(rooms[0].1.scly.layers[0].objects.len(), 1);
    // a room with another id is untouched
    assert_eq!(rooms[1].1.scly.layers[0].objects.len(), 1);
    assert_eq!(rooms[2].1.scly.layers[0].objects.len(), 1);
}
