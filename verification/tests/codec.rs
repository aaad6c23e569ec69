use kkdlib::arena::{Arena, FlatItem, FlatLayer, FlatParent, FlatScene, FlatSet};
use kkdlib::count::{count_set, SetCounts};
use kkdlib::curve::{alloc_fcurve, decode_fcurve, fcurve_eq, FlatCurve};
use kkdlib::flags::{BlendMode, LayerFlags, LayerQuality};
use kkdlib::flatten::flatten;
use kkdlib::model::{
    Audio, Composition, FCurve, FCurveKey, Item, Layer, Scene, SceneSet, TransferMode, Video,
    VideoSource,
};
use kkdlib::scalar::{scalar_eq, scalar_is_zero, SCALAR_NEG_ZERO, SCALAR_ZERO};
use kkdlib::unflatten::{unflatten, DecodeError};

fn key(frame: u32, value: u32, tangent: u32) -> FCurveKey {
    FCurveKey { frame, value, tangent }
}

fn curve(keys: Vec<FCurveKey>) -> FCurve {
    FCurve { keys }
}

fn two_sample_curve() -> FCurve {
    curve(vec![key(10, 100, 1), key(20, 200, 2)])
}

fn bare_layer(id: u64, name: &str) -> Layer {
    Layer {
        id,
        name: String::from(name),
        start_time: 1,
        end_time: 2,
        offset_time: 3,
        time_scale: 4,
        flags: LayerFlags { bits: 5 },
        quality: LayerQuality::Best,
        item: Item::Empty,
        markers: Vec::new(),
        video: Option::None,
        audio: Option::None,
        parent: Option::None,
    }
}

fn one_scene_set(root: Composition) -> SceneSet {
    SceneSet {
        modern: true,
        big_endian: false,
        is_x: false,
        scenes: vec![Scene {
            name: String::from("scene"),
            start_time: 0,
            end_time: 100,
            fps: 60,
            color: [1, 2, 3],
            width: 1280,
            height: 720,
            camera: Option::None,
            root,
        }],
    }
}

#[test]
fn scalar_zero_encodings() {
    assert!(scalar_is_zero(SCALAR_ZERO));
    assert!(scalar_is_zero(SCALAR_NEG_ZERO));
    assert!(!scalar_is_zero(1));
    assert!(scalar_eq(SCALAR_ZERO, SCALAR_NEG_ZERO));
    assert!(scalar_eq(7, 7));
    assert!(!scalar_eq(7, 8));
}

#[test]
fn blend_mode_bits_round_trip() {
    assert_eq!(BlendMode::Unset.to_bits(), 0);
    assert_eq!(BlendMode::Divide.to_bits(), 39);
    assert_eq!(BlendMode::from_bits(3), Some(BlendMode::Normal));
    assert_eq!(BlendMode::from_bits(40), None);
    assert_eq!(LayerQuality::from_bits(3), Some(LayerQuality::Best));
    assert_eq!(LayerQuality::from_bits(4), None);
}

#[test]
fn empty_and_zero_valued_curves_encode_absent() {
    let mut pool: Vec<u32> = Vec::new();
    let mut table: Vec<FlatCurve> = Vec::new();
    let empty = curve(Vec::new());
    let r = alloc_fcurve(&empty, &mut pool, &mut table);
    assert_eq!(r.keys_count, 0);
    assert!(r.keys.is_none());
    // a single sample whose value is zero, either encoding, stores nothing
    let zero_sample = curve(vec![key(5, SCALAR_ZERO, 9)]);
    let r = alloc_fcurve(&zero_sample, &mut pool, &mut table);
    assert_eq!(r.keys_count, 0);
    let neg_zero_sample = curve(vec![key(5, SCALAR_NEG_ZERO, 9)]);
    let r = alloc_fcurve(&neg_zero_sample, &mut pool, &mut table);
    assert_eq!(r.keys_count, 0);
    assert_eq!(pool.len(), 0);
    assert_eq!(table.len(), 0);
}

#[test]
fn single_nonzero_sample_encodes_one_count() {
    let mut pool: Vec<u32> = Vec::new();
    let mut table: Vec<FlatCurve> = Vec::new();
    let c = curve(vec![key(7, 42, 8)]);
    let r = alloc_fcurve(&c, &mut pool, &mut table);
    assert_eq!(r.keys_count, 1);
    assert_eq!(pool.len(), 1);
    let back = decode_fcurve(&pool, &r);
    assert_eq!(back.keys.len(), 1);
    assert_eq!(back.keys[0].frame, 0);
    assert_eq!(back.keys[0].value, 42);
    assert_eq!(back.keys[0].tangent, 0);
}

#[test]
fn multi_sample_layout_frames_then_pairs() {
    let mut pool: Vec<u32> = Vec::new();
    let mut table: Vec<FlatCurve> = Vec::new();
    let c = two_sample_curve();
    let r = alloc_fcurve(&c, &mut pool, &mut table);
    assert_eq!(r.keys_count, 2);
    // all frames contiguously, then all value-tangent pairs contiguously
    assert_eq!(pool, vec![10, 20, 100, 1, 200, 2]);
    let back = decode_fcurve(&pool, &r);
    assert_eq!(back.keys.len(), 2);
    assert_eq!(back.keys[0].frame, 10);
    assert_eq!(back.keys[0].value, 100);
    assert_eq!(back.keys[0].tangent, 1);
    assert_eq!(back.keys[1].frame, 20);
    assert_eq!(back.keys[1].value, 200);
    assert_eq!(back.keys[1].tangent, 2);
}

#[test]
fn identical_curves_store_one_record() {
    let mut pool: Vec<u32> = Vec::new();
    let mut table: Vec<FlatCurve> = Vec::new();
    let r1 = alloc_fcurve(&two_sample_curve(), &mut pool, &mut table);
    let r2 = alloc_fcurve(&two_sample_curve(), &mut pool, &mut table);
    assert_eq!(table.len(), 1);
    assert_eq!(pool.len(), 6);
    assert_eq!(r1.keys, r2.keys);
    // one differing field yields a second record
    let different = curve(vec![key(10, 100, 1), key(20, 201, 2)]);
    let _ = alloc_fcurve(&different, &mut pool, &mut table);
    assert_eq!(table.len(), 2);
    assert_eq!(pool.len(), 12);
}

#[test]
fn fcurve_eq_compares_by_value() {
    let mut pool: Vec<u32> = Vec::new();
    let mut table: Vec<FlatCurve> = Vec::new();
    let r = alloc_fcurve(&two_sample_curve(), &mut pool, &mut table);
    assert!(fcurve_eq(&two_sample_curve(), &pool, &r));
    let other = curve(vec![key(10, 100, 1), key(20, 200, 3)]);
    assert!(!fcurve_eq(&other, &pool, &r));
    let shorter = curve(vec![key(10, 100, 1)]);
    assert!(!fcurve_eq(&shorter, &pool, &r));
}

fn video_item() -> Item {
    Item::Video(Video {
        color: [9, 8, 7],
        width: 64,
        height: 32,
        fpf: 1000,
        sources: vec![VideoSource { name: String::from("spr_a"), id: 11 }],
    })
}

#[test]
fn identical_videos_and_audios_store_one_record() {
    let mut l1 = bare_layer(1, "a");
    l1.item = video_item();
    let mut l2 = bare_layer(2, "b");
    l2.item = video_item();
    let mut l3 = bare_layer(3, "c");
    l3.item = Item::Audio(Audio { sound_index: 5 });
    let mut l4 = bare_layer(4, "d");
    l4.item = Item::Audio(Audio { sound_index: 5 });
    let set = one_scene_set(Composition { layers: vec![l1, l2, l3, l4] });
    let (flat, unresolved) = flatten(&set);
    assert!(unresolved.is_empty());
    assert_eq!(flat.arena.videos.len(), 1);
    assert_eq!(flat.arena.audios.len(), 1);
    // both video layers address the same record
    match (&flat.arena.layers[0].item, &flat.arena.layers[1].item) {
        (FlatItem::Video(i), FlatItem::Video(j)) => assert_eq!(i, j),
        _ => panic!("expected video items"),
    }
}

#[test]
fn differing_audio_stores_two_records() {
    let mut l1 = bare_layer(1, "a");
    l1.item = Item::Audio(Audio { sound_index: 5 });
    let mut l2 = bare_layer(2, "b");
    l2.item = Item::Audio(Audio { sound_index: 6 });
    let set = one_scene_set(Composition { layers: vec![l1, l2] });
    let (flat, _) = flatten(&set);
    assert_eq!(flat.arena.audios.len(), 2);
}

fn nested_comp_item(id_base: u64) -> Item {
    Item::Composition(Composition { layers: vec![bare_layer(id_base, "inner")] })
}

#[test]
fn identical_compositions_store_one_record() {
    // two layers holding structurally identical nested compositions
    let mut l1 = bare_layer(1, "a");
    l1.item = nested_comp_item(10);
    let mut l2 = bare_layer(2, "b");
    l2.item = nested_comp_item(10);
    let set = one_scene_set(Composition { layers: vec![l1, l2] });
    let (flat, _) = flatten(&set);
    // one shared nested composition plus the root
    assert_eq!(flat.arena.comps.len(), 2);
    // layers: two outer plus one inner (the second nested comp was reused)
    assert_eq!(flat.arena.layers.len(), 3);
}

#[test]
fn differing_compositions_store_two_records() {
    let mut l1 = bare_layer(1, "a");
    l1.item = nested_comp_item(10);
    let mut l2 = bare_layer(2, "b");
    l2.item = Item::Composition(Composition { layers: vec![bare_layer(11, "other")] });
    let set = one_scene_set(Composition { layers: vec![l1, l2] });
    let (flat, _) = flatten(&set);
    assert_eq!(flat.arena.comps.len(), 3);
    assert_eq!(flat.arena.layers.len(), 4);
}

#[test]
fn counts_bound_arena_and_are_exact_without_duplicates() {
    let mut l1 = bare_layer(1, "a");
    l1.item = video_item();
    l1.markers = vec![(String::from("m1"), 30)];
    let mut l2 = bare_layer(2, "b");
    l2.item = Item::Audio(Audio { sound_index: 5 });
    let set = one_scene_set(Composition { layers: vec![l1, l2] });
    let counts: SetCounts = count_set(&set);
    let (flat, _) = flatten(&set);
    let a: &Arena = &flat.arena;
    // a duplicate-free graph fills every category to exactly its tally
    assert_eq!(a.scenes.len(), counts.scene_count);
    assert_eq!(a.comps.len(), counts.comp_count);
    assert_eq!(a.layers.len(), counts.layer_count);
    assert_eq!(a.markers.len(), counts.marker_count);
    assert_eq!(a.names.len(), counts.name_count);
    assert_eq!(a.videos.len(), counts.video_count);
    assert_eq!(a.video_sources.len(), counts.video_source_count);
    assert_eq!(a.audios.len(), counts.audio_count);
    assert_eq!(a.cameras.len(), counts.camera_count);
    assert_eq!(a.curve_keys.len(), counts.fcurve_key_count);
    assert_eq!(a.layer_videos.len(), counts.layer_video_count);
    assert_eq!(a.layer_video_3ds.len(), counts.layer_video_3d_count);
    assert_eq!(a.layer_audios.len(), counts.layer_audio_count);
}

#[test]
fn counts_never_exceeded_with_duplicates() {
    // the tally predicts two curves' scalars; dedup stores one
    let mut l1 = bare_layer(1, "a");
    l1.item = nested_comp_item(10);
    let mut l2 = bare_layer(2, "b");
    l2.item = nested_comp_item(10);
    let set = one_scene_set(Composition { layers: vec![l1, l2] });
    let counts = count_set(&set);
    let (flat, _) = flatten(&set);
    assert!(flat.arena.comps.len() <= counts.comp_count);
    assert!(flat.arena.layers.len() <= counts.layer_count);
    assert!(flat.arena.layers.len() < counts.layer_count);
}

#[test]
fn parent_in_later_nested_composition_resolves() {
    // the outer layer's parent lives in a nested composition that is
    // flattened after the outer layer's record was emitted; the nested
    // layer in turn is parented back to an outer layer
    let mut inner = bare_layer(10, "target");
    inner.parent = Some(2);
    let mut l1 = bare_layer(1, "outer");
    l1.parent = Some(10);
    let mut l2 = bare_layer(2, "holder");
    l2.item = Item::Composition(Composition { layers: vec![inner] });
    let set = one_scene_set(Composition { layers: vec![l1, l2] });
    let (flat, unresolved) = flatten(&set);
    assert!(unresolved.is_empty());
    // layer 0 is "outer"; the nested layer was emitted at index 2
    match flat.arena.layers[0].parent {
        FlatParent::Addr(idx) => {
            assert_eq!(idx, 2);
        },
        _ => panic!("parent should have resolved to an address"),
    }
    match flat.arena.layers[2].parent {
        FlatParent::Addr(idx) => {
            assert_eq!(idx, 1);
        },
        _ => panic!("nested parent should have resolved to an address"),
    }
    // and the rebuilt graph points at the same layers by identity, the
    // nested layer included
    let back = unflatten(&flat).unwrap();
    assert_eq!(back.scenes[0].root.layers[0].parent, Some(2));
    match &back.scenes[0].root.layers[1].item {
        Item::Composition(c) => assert_eq!(c.layers[0].parent, Some(1)),
        _ => panic!("expected a nested composition"),
    }
}

#[test]
fn parent_never_flattened_is_surfaced_and_absent() {
    let mut l1 = bare_layer(1, "orphan");
    l1.parent = Some(99);
    let set = one_scene_set(Composition { layers: vec![l1] });
    let (flat, unresolved) = flatten(&set);
    assert_eq!(unresolved, vec![99]);
    match flat.arena.layers[0].parent {
        FlatParent::Absent => {},
        _ => panic!("unresolvable parent should be absent"),
    }
}

#[test]
fn shared_opacity_curve_stored_once() {
    // one composition, two layers, both with an identical two-sample
    // opacity curve: the arena holds exactly one record of count two and
    // both layers' video blocks address the same storage
    let absent = || curve(Vec::new());
    let video_block = || kkdlib::model::LayerVideo {
        transfer_mode: TransferMode { mode: BlendMode::Normal, flag: 0, matte: 0 },
        anchor_x: absent(),
        anchor_y: absent(),
        pos_x: absent(),
        pos_y: absent(),
        rot_z: absent(),
        scale_x: absent(),
        scale_y: absent(),
        opacity: two_sample_curve(),
        _3d: Option::None,
    };
    let mut l1 = bare_layer(1, "a");
    l1.video = Some(video_block());
    let mut l2 = bare_layer(2, "b");
    l2.video = Some(video_block());
    let set = one_scene_set(Composition { layers: vec![l1, l2] });
    let (flat, _) = flatten(&set);
    assert_eq!(flat.arena.curve_keys.len(), 6);
    let op1 = flat.arena.layer_videos[0].opacity;
    let op2 = flat.arena.layer_videos[1].opacity;
    assert_eq!(op1.keys_count, 2);
    assert_eq!(op2.keys_count, 2);
    assert_eq!(op1.keys, op2.keys);
    assert!(op1.keys.is_some());
}

#[test]
fn round_trip_rebuilds_the_same_graph() {
    let mut l1 = bare_layer(1, "first");
    l1.item = video_item();
    l1.markers = vec![(String::from("cue"), 15)];
    let mut l2 = bare_layer(2, "second");
    l2.item = Item::Audio(Audio { sound_index: 5 });
    let set = one_scene_set(Composition { layers: vec![l1, l2] });
    let (flat, unresolved) = flatten(&set);
    assert!(unresolved.is_empty());
    let back = unflatten(&flat).unwrap();
    assert!(kkdlib::model::set_value_eq(&set, &back));
    assert_eq!(back.modern, true);
    assert_eq!(back.big_endian, false);
    assert_eq!(back.scenes.len(), 1);
    let scene = &back.scenes[0];
    assert_eq!(scene.name, "scene");
    assert_eq!(scene.fps, 60);
    assert_eq!(scene.color, [1, 2, 3]);
    assert_eq!(scene.width, 1280);
    assert_eq!(scene.height, 720);
    assert_eq!(scene.root.layers.len(), 2);
    let b1 = &scene.root.layers[0];
    assert_eq!(b1.name, "first");
    assert_eq!(b1.start_time, 1);
    assert_eq!(b1.end_time, 2);
    assert_eq!(b1.offset_time, 3);
    assert_eq!(b1.time_scale, 4);
    assert_eq!(b1.flags.bits, 5);
    assert_eq!(b1.quality, LayerQuality::Best);
    assert_eq!(b1.markers.len(), 1);
    assert_eq!(b1.markers[0].0, "cue");
    assert_eq!(b1.markers[0].1, 15);
    match &b1.item {
        Item::Video(v) => {
            assert_eq!(v.color, [9, 8, 7]);
            assert_eq!(v.width, 64);
            assert_eq!(v.height, 32);
            assert_eq!(v.fpf, 1000);
            assert_eq!(v.sources.len(), 1);
            assert_eq!(v.sources[0].name, "spr_a");
            assert_eq!(v.sources[0].id, 11);
        },
        _ => panic!("expected a video item"),
    }
    let b2 = &scene.root.layers[1];
    assert_eq!(b2.name, "second");
    match &b2.item {
        Item::Audio(x) => assert_eq!(x.sound_index, 5),
        _ => panic!("expected an audio item"),
    }
}

#[test]
fn round_trip_keeps_curve_values() {
    let absent = || curve(Vec::new());
    let mut l1 = bare_layer(1, "a");
    l1.video = Some(kkdlib::model::LayerVideo {
        transfer_mode: TransferMode { mode: BlendMode::Add, flag: 1, matte: 2 },
        anchor_x: curve(vec![key(3, 33, 4)]),
        anchor_y: absent(),
        pos_x: absent(),
        pos_y: absent(),
        rot_z: absent(),
        scale_x: absent(),
        scale_y: absent(),
        opacity: two_sample_curve(),
        _3d: Option::None,
    });
    let set = one_scene_set(Composition { layers: vec![l1] });
    let (flat, _) = flatten(&set);
    let back = unflatten(&flat).unwrap();
    assert!(kkdlib::model::set_value_eq(&set, &back));
    let v = back.scenes[0].root.layers[0].video.as_ref().unwrap();
    assert_eq!(v.transfer_mode.mode, BlendMode::Add);
    assert_eq!(v.transfer_mode.flag, 1);
    assert_eq!(v.transfer_mode.matte, 2);
    // the one-sample anchor comes back as a constant at frame zero
    assert_eq!(v.anchor_x.keys.len(), 1);
    assert_eq!(v.anchor_x.keys[0].frame, 0);
    assert_eq!(v.anchor_x.keys[0].value, 33);
    assert_eq!(v.anchor_x.keys[0].tangent, 0);
    assert_eq!(v.anchor_y.keys.len(), 0);
    assert_eq!(v.opacity.keys.len(), 2);
    assert_eq!(v.opacity.keys[1].value, 200);
}

#[test]
fn reencode_is_identity_on_canonical_sets() {
    let mut l1 = bare_layer(1, "first");
    l1.item = video_item();
    let mut l2 = bare_layer(2, "second");
    l2.item = nested_comp_item(10);
    let set = one_scene_set(Composition { layers: vec![l1, l2] });
    let back = kkdlib::unflatten::reencode(&set).unwrap();
    assert!(kkdlib::model::set_value_eq(&set, &back));
}

#[test]
fn unflatten_rejects_out_of_range_reference() {
    let mut arena = Arena::new();
    arena.names.push(String::from("s"));
    arena.layers.push(FlatLayer {
        name: 7,  // past the name table
        start_time: 0,
        end_time: 0,
        offset_time: 0,
        time_scale: 0,
        flags: 0,
        quality: 0,
        item: FlatItem::Empty,
        parent: FlatParent::Absent,
        markers_count: 0,
        markers: None,
        video: None,
        audio: None,
    });
    arena.comps.push(kkdlib::arena::FlatComp { layers_count: 1, layers: 0 });
    arena.scenes.push(FlatScene {
        name: 0,
        start_time: 0,
        end_time: 0,
        fps: 0,
        color: [0, 0, 0],
        width: 0,
        height: 0,
        camera: None,
        comp_count: 1,
        comp: 0,
        video_count: 0,
        video: 0,
        audio_count: 0,
        audio: 0,
    });
    let flat = FlatSet { modern: false, big_endian: false, is_x: false, arena };
    match unflatten(&flat) {
        Err(e) => assert_eq!(e, DecodeError::BadReference),
        Ok(_) => panic!("malformed arena must be rejected"),
    }
}

#[test]
fn unflatten_rejects_bad_quality_byte() {
    let mut arena = Arena::new();
    arena.names.push(String::from("s"));
    arena.layers.push(FlatLayer {
        name: 0,
        start_time: 0,
        end_time: 0,
        offset_time: 0,
        time_scale: 0,
        flags: 0,
        quality: 200,  // no quality has this byte
        item: FlatItem::Empty,
        parent: FlatParent::Absent,
        markers_count: 0,
        markers: None,
        video: None,
        audio: None,
    });
    arena.comps.push(kkdlib::arena::FlatComp { layers_count: 1, layers: 0 });
    arena.scenes.push(FlatScene {
        name: 0,
        start_time: 0,
        end_time: 0,
        fps: 0,
        color: [0, 0, 0],
        width: 0,
        height: 0,
        camera: None,
        comp_count: 1,
        comp: 0,
        video_count: 0,
        video: 0,
        audio_count: 0,
        audio: 0,
    });
    let flat = FlatSet { modern: false, big_endian: false, is_x: false, arena };
    match unflatten(&flat) {
        Err(e) => assert_eq!(e, DecodeError::BadEnum),
        Ok(_) => panic!("bad enum byte must be rejected"),
    }
}

#[test]
fn unflatten_rejects_pending_parent() {
    let mut l1 = bare_layer(1, "a");
    l1.parent = None;
    let set = one_scene_set(Composition { layers: vec![l1] });
    let (mut flat, _) = flatten(&set);
    flat.arena.layers[0].parent = FlatParent::Pending(7);
    match unflatten(&flat) {
        Err(e) => assert_eq!(e, DecodeError::PendingParent),
        Ok(_) => panic!("a pending parent must be rejected"),
    }
}

#[test]
fn parent_address_outside_decoded_tree_is_dropped() {
    // a parent address pointing at a layer no composition reaches
    // resolves to no parent rather than failing the decode
    let mut l1 = bare_layer(1, "a");
    l1.parent = None;
    let set = one_scene_set(Composition { layers: vec![l1] });
    let (mut flat, _) = flatten(&set);
    flat.arena.layers[0].parent = FlatParent::Addr(999);
    let back = unflatten(&flat).unwrap();
    assert_eq!(back.scenes[0].root.layers[0].parent, None);
}
