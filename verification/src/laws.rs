use vstd::prelude::*;

use crate::arena::{
    camera_matches, comp_matches, curve_matches, item_matches, layer_audio_matches, layer_matches,
    layer_video_matches, marker_matches, source_matches, video_matches, Arena, FlatCamera,
    FlatLayer, FlatLayerAudio, FlatLayerVideo, FlatScene, FlatVideo,
};
use crate::curve::FlatCurve;
use crate::flags::{blend_mode_bits, quality_bits, BlendMode, LayerQuality};
use crate::arena::{FlatItem, FlatParent};
use crate::flatten::{
    comp_flat_eq, item_flat_eq, layer_flat_eq, layer_same_mod_parent, parent_pend_eq, ptr_lookup,
    scene_matches,
};
use crate::model::{
    eq_camera, eq_comp, eq_curve, eq_item, eq_layer, eq_layer_audio, eq_layer_shallow,
    eq_layer_video, eq_marker, eq_markers, eq_scene, eq_scene_set, eq_video, Camera, Composition,
    Item, Layer, LayerAudio, LayerVideo, Scene, SceneSet, Video,
};

verus! {

/// Two blend modes with one encoding are one mode.
proof fn lemma_blend_mode_bits_injective(x: BlendMode, y: BlendMode)
    requires
        blend_mode_bits(x) == blend_mode_bits(y),
    ensures
        x == y,
{
}

/// Two qualities with one encoding are one quality.
proof fn lemma_quality_bits_injective(x: LayerQuality, y: LayerQuality)
    requires
        quality_bits(x) == quality_bits(y),
    ensures
        x == y,
{
}

/// Two curves denoted by one record are value-equal.
proof fn lemma_curve_agree(a: Arena, r: FlatCurve, x: crate::model::FCurve, y: crate::model::FCurve)
    requires
        curve_matches(a, r, x),
        curve_matches(a, r, y),
    ensures
        eq_curve(x.keys@, y.keys@),
{
    let d = crate::curve::flat_curve_keys(a.curve_keys@, r);
    crate::curve::lemma_eq_curve_equivalence(x.keys@, d, y.keys@);
    crate::curve::lemma_eq_curve_equivalence(d, y.keys@, y.keys@);
    crate::curve::lemma_eq_curve_equivalence(y.keys@, d, x.keys@);
    crate::curve::lemma_eq_curve_equivalence(x.keys@, y.keys@, y.keys@);
}

/// Two video blocks denoted by one record are value-equal.
proof fn lemma_layer_video_agree(a: Arena, r: FlatLayerVideo, x: LayerVideo, y: LayerVideo)
    requires
        layer_video_matches(a, r, x),
        layer_video_matches(a, r, y),
    ensures
        eq_layer_video(x, y),
{
    lemma_blend_mode_bits_injective(x.transfer_mode.mode, y.transfer_mode.mode);
    lemma_curve_agree(a, r.anchor_x, x.anchor_x, y.anchor_x);
    lemma_curve_agree(a, r.anchor_y, x.anchor_y, y.anchor_y);
    lemma_curve_agree(a, r.pos_x, x.pos_x, y.pos_x);
    lemma_curve_agree(a, r.pos_y, x.pos_y, y.pos_y);
    lemma_curve_agree(a, r.rot_z, x.rot_z, y.rot_z);
    lemma_curve_agree(a, r.scale_x, x.scale_x, y.scale_x);
    lemma_curve_agree(a, r.scale_y, x.scale_y, y.scale_y);
    lemma_curve_agree(a, r.opacity, x.opacity, y.opacity);
    match (r._3d, x._3d, y._3d) {
        (Option::Some(i), Option::Some(xv), Option::Some(yv)) => {
            let r3 = a.layer_video_3ds@[i as int];
            lemma_curve_agree(a, r3.anchor_z, xv.anchor_z, yv.anchor_z);
            lemma_curve_agree(a, r3.pos_z, xv.pos_z, yv.pos_z);
            lemma_curve_agree(a, r3.dir_x, xv.dir_x, yv.dir_x);
            lemma_curve_agree(a, r3.dir_y, xv.dir_y, yv.dir_y);
            lemma_curve_agree(a, r3.dir_z, xv.dir_z, yv.dir_z);
            lemma_curve_agree(a, r3.rot_x, xv.rot_x, yv.rot_x);
            lemma_curve_agree(a, r3.rot_y, xv.rot_y, yv.rot_y);
            lemma_curve_agree(a, r3.scale_z, xv.scale_z, yv.scale_z);
        },
        _ => {},
    }
}

/// Two audio blocks denoted by one record are value-equal.
proof fn lemma_layer_audio_agree(a: Arena, r: FlatLayerAudio, x: LayerAudio, y: LayerAudio)
    requires
        layer_audio_matches(a, r, x),
        layer_audio_matches(a, r, y),
    ensures
        eq_layer_audio(x, y),
{
    lemma_curve_agree(a, r.volume_l, x.volume_l, y.volume_l);
    lemma_curve_agree(a, r.volume_r, x.volume_r, y.volume_r);
    lemma_curve_agree(a, r.pan_l, x.pan_l, y.pan_l);
    lemma_curve_agree(a, r.pan_r, x.pan_r, y.pan_r);
}

/// Two cameras denoted by one record are value-equal.
proof fn lemma_camera_agree(a: Arena, r: FlatCamera, x: Camera, y: Camera)
    requires
        camera_matches(a, r, x),
        camera_matches(a, r, y),
    ensures
        eq_camera(x, y),
{
    lemma_curve_agree(a, r.eye_x, x.eye_x, y.eye_x);
    lemma_curve_agree(a, r.eye_y, x.eye_y, y.eye_y);
    lemma_curve_agree(a, r.eye_z, x.eye_z, y.eye_z);
    lemma_curve_agree(a, r.pos_x, x.pos_x, y.pos_x);
    lemma_curve_agree(a, r.pos_y, x.pos_y, y.pos_y);
    lemma_curve_agree(a, r.pos_z, x.pos_z, y.pos_z);
    lemma_curve_agree(a, r.dir_x, x.dir_x, y.dir_x);
    lemma_curve_agree(a, r.dir_y, x.dir_y, y.dir_y);
    lemma_curve_agree(a, r.dir_z, x.dir_z, y.dir_z);
    lemma_curve_agree(a, r.rot_x, x.rot_x, y.rot_x);
    lemma_curve_agree(a, r.rot_y, x.rot_y, y.rot_y);
    lemma_curve_agree(a, r.rot_z, x.rot_z, y.rot_z);
    lemma_curve_agree(a, r.zoom, x.zoom, y.zoom);
}

/// Two videos denoted by one record are value-equal.
proof fn lemma_video_agree(a: Arena, r: FlatVideo, x: Video, y: Video)
    requires
        video_matches(a, r, x),
        video_matches(a, r, y),
    ensures
        eq_video(x, y),
{
    assert(x.color@ == y.color@);
    assert forall|i: int| 0 <= i < x.sources@.len() implies crate::model::eq_source(
        #[trigger] x.sources@[i],
        y.sources@[i],
    ) by {
        assert(source_matches(a, a.video_sources@[r.sources + i], x.sources@[i]));
        assert(source_matches(a, a.video_sources@[r.sources + i], y.sources@[i]));
    }
}

/// Two layers denoted by one record, items included, are value-equal.
proof fn lemma_layer_agree(a: Arena, fl: FlatLayer, x: Layer, y: Layer)
    requires
        layer_matches(a, fl, x),
        layer_matches(a, fl, y),
        item_matches(a, fl.item, x.item),
        item_matches(a, fl.item, y.item),
    ensures
        eq_layer(x, y),
    decreases x, 1int,
{
    lemma_quality_bits_injective(x.quality, y.quality);
    assert(x.flags == y.flags);
    assert(eq_markers(x.markers@, y.markers@)) by {
        match fl.markers {
            Option::None => {},
            Option::Some(m) => {
                assert forall|i: int| 0 <= i < x.markers@.len() implies eq_marker(
                    #[trigger] x.markers@[i],
                    y.markers@[i],
                ) by {
                    assert(marker_matches(a, a.markers@[m + i], x.markers@[i]));
                    assert(marker_matches(a, a.markers@[m + i], y.markers@[i]));
                }
            },
        }
    }
    match (fl.video, x.video, y.video) {
        (Option::Some(i), Option::Some(xv), Option::Some(yv)) => {
            lemma_layer_video_agree(a, a.layer_videos@[i as int], xv, yv);
        },
        _ => {},
    }
    match (fl.audio, x.audio, y.audio) {
        (Option::Some(i), Option::Some(xv), Option::Some(yv)) => {
            lemma_layer_audio_agree(a, a.layer_audios@[i as int], xv, yv);
        },
        _ => {},
    }
    lemma_item_agree(a, fl.item, x.item, y.item);
}

/// Two items denoted by one record are value-equal.
proof fn lemma_item_agree(a: Arena, fi: crate::arena::FlatItem, x: Item, y: Item)
    requires
        item_matches(a, fi, x),
        item_matches(a, fi, y),
    ensures
        eq_item(x, y),
    decreases x, 2int,
{
    match (fi, x, y) {
        (crate::arena::FlatItem::Video(i), Item::Video(xv), Item::Video(yv)) => {
            lemma_video_agree(a, a.videos@[i as int], xv, yv);
        },
        (crate::arena::FlatItem::Composition(ci), Item::Composition(xc), Item::Composition(yc)) => {
            lemma_comp_agree(a, ci as int, xc, yc);
        },
        _ => {},
    }
}

/// Two compositions denoted by one record are value-equal, layer by
/// layer.
proof fn lemma_comp_agree(a: Arena, ci: int, x: Composition, y: Composition)
    requires
        comp_matches(a, ci, x),
        comp_matches(a, ci, y),
    ensures
        eq_comp(x, y),
    decreases x, 0int,
{
    let fc = a.comps@[ci];
    assert forall|j: int| 0 <= j < x.layers@.len() implies eq_layer(
        #[trigger] x.layers@[j],
        y.layers@[j],
    ) by {
        lemma_layer_agree(a, a.layers@[fc.layers + j], x.layers@[j], y.layers@[j]);
    }
}

/// Round trip, scene by scene: two owned scenes that one flattened
/// scene record denotes — for instance, the scene that was flattened
/// into it and the scene the graph builder reads back out of it — are
/// structurally equal: curve values, layer fields and item payloads all
/// match, even though the arena may share records between layers.
pub proof fn law_scene_round_trip(a: Arena, fs: FlatScene, s1: Scene, s2: Scene)
    requires
        scene_matches(a, fs, s1),
        scene_matches(a, fs, s2),
    ensures
        eq_scene(s1, s2),
{
    match (fs.camera, s1.camera, s2.camera) {
        (Option::Some(i), Option::Some(c1), Option::Some(c2)) => {
            lemma_camera_agree(a, a.cameras@[i as int], c1, c2);
        },
        _ => {},
    }
    lemma_comp_agree(a, fs.comp + fs.comp_count - 1, s1.root, s2.root);
}

/// Round trip, whole sets: flattening a canonical owned scene set and
/// rebuilding an owned set from the arena gives a set structurally
/// equal to the original.  The two hypotheses are exactly what the
/// flattener ensures about its input and what the graph builder
/// ensures about its output on one arena.
pub proof fn law_set_round_trip(a: Arena, g: SceneSet, h: SceneSet)
    requires
        g.modern == h.modern,
        g.big_endian == h.big_endian,
        g.is_x == h.is_x,
        g.scenes@.len() == a.scenes@.len(),
        h.scenes@.len() == a.scenes@.len(),
        forall|i: int|
            0 <= i < a.scenes@.len() ==> scene_matches(a, #[trigger] a.scenes@[i], g.scenes@[i]),
        forall|i: int|
            0 <= i < a.scenes@.len() ==> scene_matches(a, #[trigger] a.scenes@[i], h.scenes@[i]),
    ensures
        eq_scene_set(g, h),
{
    assert forall|i: int| 0 <= i < g.scenes@.len() implies eq_scene(
        #[trigger] g.scenes@[i],
        h.scenes@[i],
    ) by {
        law_scene_round_trip(a, a.scenes@[i], g.scenes@[i], h.scenes@[i]);
    }
}

/// The record parent that encoding an owned parent reference through a
/// fix-up table installs: absent for no parent, the first address the
/// table records for the parent's identity, or absent when the table
/// never saw that identity — which the encode surfaces.
pub open spec fn encoded_parent(tbl: Seq<(u64, usize)>, p: Option<u64>) -> FlatParent {
    match p {
        Option::None => FlatParent::Absent,
        Option::Some(id) => (match ptr_lookup(tbl, id) {
            Option::Some(t) => FlatParent::Addr(t),
            Option::None => FlatParent::Absent,
        }),
    }
}

/// Every layer record of the composition holds exactly the parent that
/// encoding its owned layer's parent through the table installs, nested
/// compositions included.
pub open spec fn comp_parents_encoded(
    a: Arena,
    tbl: Seq<(u64, usize)>,
    ci: int,
    c: Composition,
) -> bool
    decreases c, 0int,
{
    forall|j: int|
        0 <= j < c.layers@.len() ==> layer_parents_encoded(
            a,
            tbl,
            a.comps@[ci].layers + j,
            #[trigger] c.layers@[j],
        )
}

/// The record at the given address holds the encoding of the layer's
/// parent, and its nested composition does so recursively.
pub open spec fn layer_parents_encoded(
    a: Arena,
    tbl: Seq<(u64, usize)>,
    addr: int,
    l: Layer,
) -> bool
    decreases l, 1int,
{
    &&& 0 <= addr < a.layers@.len()
    &&& a.layers@[addr].parent == encoded_parent(tbl, l.parent)
    &&& match l.item {
        Item::Composition(c2) => (match a.layers@[addr].item {
            FlatItem::Composition(cj) => cj < a.comps@.len() && comp_parents_encoded(
                a,
                tbl,
                cj as int,
                c2,
            ),
            _ => false,
        }),
        _ => true,
    }
}

/// An entry stays in any extension of the table.
pub(crate) proof fn lemma_prefix_contains(s1: Seq<(u64, usize)>, s2: Seq<(u64, usize)>, e: (u64, usize))
    requires
        s1.is_prefix_of(s2),
        s1.contains(e),
    ensures
        s2.contains(e),
{
    let k = choose|k: int| 0 <= k < s1.len() && s1[k] == e;
    assert(s2[k] == e);
}

/// Carries deduplication equality across the fix-up pass: a composition
/// whose records held its layers' parent identities holds, afterwards,
/// exactly their encodings through the table.
pub(crate) proof fn lemma_parents_encoded(
    pre: Arena,
    post: Arena,
    tbl: Seq<(u64, usize)>,
    ci: int,
    c: Composition,
)
    requires
        comp_flat_eq(pre, ci, c),
        post.comps@ == pre.comps@,
        post.layers@.len() == pre.layers@.len(),
        forall|i: int|
            0 <= i < pre.layers@.len() ==> layer_same_mod_parent(
                #[trigger] post.layers@[i],
                pre.layers@[i],
            ) && post.layers@[i].parent == (match pre.layers@[i].parent {
                FlatParent::Pending(p) => (match ptr_lookup(tbl, p) {
                    Option::Some(idx) => FlatParent::Addr(idx),
                    Option::None => FlatParent::Absent,
                }),
                other => other,
            }),
    ensures
        comp_parents_encoded(post, tbl, ci, c),
    decreases c, 0int,
{
    let fc = pre.comps@[ci];
    assert forall|j: int| 0 <= j < c.layers@.len() implies layer_parents_encoded(
        post,
        tbl,
        fc.layers + j,
        #[trigger] c.layers@[j],
    ) by {
        lemma_layer_parents_encoded(pre, post, tbl, fc.layers + j, c.layers@[j]);
    }
}

/// The per-layer step of carrying deduplication equality across the
/// fix-up pass.
proof fn lemma_layer_parents_encoded(
    pre: Arena,
    post: Arena,
    tbl: Seq<(u64, usize)>,
    addr: int,
    l: Layer,
)
    requires
        0 <= addr < pre.layers@.len(),
        layer_flat_eq(pre, pre.layers@[addr], l),
        post.comps@ == pre.comps@,
        post.layers@.len() == pre.layers@.len(),
        forall|i: int|
            0 <= i < pre.layers@.len() ==> layer_same_mod_parent(
                #[trigger] post.layers@[i],
                pre.layers@[i],
            ) && post.layers@[i].parent == (match pre.layers@[i].parent {
                FlatParent::Pending(p) => (match ptr_lookup(tbl, p) {
                    Option::Some(idx) => FlatParent::Addr(idx),
                    Option::None => FlatParent::Absent,
                }),
                other => other,
            }),
    ensures
        layer_parents_encoded(post, tbl, addr, l),
    decreases l, 1int,
{
    assert(parent_pend_eq(pre.layers@[addr].parent, l.parent));
    assert(post.layers@[addr].parent == encoded_parent(tbl, l.parent));
    assert(item_flat_eq(pre, pre.layers@[addr].item, l.item));
    assert(post.layers@[addr].item == pre.layers@[addr].item);
    match l.item {
        Item::Composition(c2) => {
            match pre.layers@[addr].item {
                FlatItem::Composition(cj) => {
                    lemma_parents_encoded(pre, post, tbl, cj as int, c2);
                    assert(cj < post.comps@.len());
                    assert(match post.layers@[addr].item {
                        FlatItem::Composition(x) => x == cj,
                        _ => false,
                    });
                },
                _ => {
                    assert(false);
                },
            }
        },
        _ => {},
    }
}

} // verus!
