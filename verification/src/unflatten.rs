use vstd::prelude::*;

use crate::arena::{
    arena_wf, camera_matches, camera_ok, comp_matches, comp_ok, item_matches, layer_audio_matches, layer_audio_ok, layer_matches, layer_ok,
    layer_video_3d_matches, layer_video_3d_ok, layer_video_matches, layer_video_ok, marker_matches,
    marker_ok, scene_ok, source_matches, source_ok, video_matches, video_ok, Arena, FlatItem, FlatLayer, FlatParent, FlatScene, FlatSet,
};
use crate::curve::{decode_fcurve, flat_curve_valid, FlatCurve};
use crate::flags::{
    blend_mode_from_bits, quality_from_bits, BlendMode, LayerFlags, LayerQuality,
};
use crate::flatten::scene_matches;
use crate::model::{
    Audio, Camera, Composition, FCurve, Item, Layer, LayerAudio, LayerVideo, LayerVideo3D, Scene,
    SceneSet, Video, VideoSource,
};

verus! {

/// Why a flat arena cannot be decoded: the graph builder fails fast on
/// the first shape violation it finds rather than read out of bounds.
#[derive(Debug, Clone, Copy, PartialEq, Eq, Structural)]
pub enum DecodeError {
    /// An index or range points outside its table.
    BadReference,
    /// A quality or blend byte that no variant encodes.
    BadEnum,
    /// A parent still holding an owned identity instead of an address.
    PendingParent,
}

/// A flat set the builder accepts: a well-formed arena (which already
/// demands that every quality and blend byte in reach of a composition
/// decodes) whose parents are all addresses or absent, never a pending
/// identity.
pub open spec fn flat_set_wf(f: FlatSet) -> bool {
    &&& arena_wf(f.arena)
    &&& forall|i: int| 0 <= i < f.arena.layers@.len() ==> !((#[trigger] f.arena.layers@[i]).parent
        is Pending)
}

/// Decides the validity of a curve record against a pool length.
fn check_curve(pool_len: usize, r: &FlatCurve) -> (res: bool)
    ensures
        res == flat_curve_valid(pool_len as int, *r),
{
    match r.keys {
        Option::None => r.keys_count == 0,
        Option::Some(k) => {
            if r.keys_count == 0 {
                false
            } else if r.keys_count == 1 {
                k < pool_len
            } else {
                let need: u64 = 3 * (r.keys_count as u64);
                (pool_len as u64) >= need && (k as u64) <= (pool_len as u64) - need
            }
        },
    }
}

/// Checks every table of a flat set before any decoding walk: every
/// cross-reference lands inside its table, nesting only refers
/// backwards, every enum byte names a variant, and no parent is left
/// pending.  Succeeds exactly on well-formed input.
#[verifier::rlimit(100)]
#[verifier::loop_isolation(false)]
pub fn check_flat_set(f: &FlatSet) -> (r: Result<(), DecodeError>)
    ensures
        r is Ok <==> flat_set_wf(*f),
{
    let a = &f.arena;
    let pool_len = a.curve_keys.len();
    let names_len = a.names.len();
    let mut i: usize = 0;
    let n_markers = a.markers.len();
    while i < n_markers
        invariant
            0 <= i <= n_markers,
            n_markers == a.markers@.len(),
            names_len == a.names@.len(),
            forall|t: int| 0 <= t < i ==> marker_ok(*a, #[trigger] a.markers@[t]),
        decreases n_markers - i,
    {
        if a.markers[i].name >= names_len {
            proof {
                assert(!arena_wf(*a)) by {
                    assert(!marker_ok(*a, a.markers@[i as int]));
                }
            }
            return Result::Err(DecodeError::BadReference);
        }
        i += 1;
    }
    let mut i: usize = 0;
    let n_sources = a.video_sources.len();
    while i < n_sources
        invariant
            0 <= i <= n_sources,
            n_sources == a.video_sources@.len(),
            names_len == a.names@.len(),
            forall|t: int| 0 <= t < i ==> source_ok(*a, #[trigger] a.video_sources@[t]),
        decreases n_sources - i,
    {
        if a.video_sources[i].sprite_name >= names_len {
            proof {
                assert(!arena_wf(*a)) by {
                    assert(!source_ok(*a, a.video_sources@[i as int]));
                }
            }
            return Result::Err(DecodeError::BadReference);
        }
        i += 1;
    }
    let mut i: usize = 0;
    let n_videos = a.videos.len();
    while i < n_videos
        invariant
            0 <= i <= n_videos,
            n_videos == a.videos@.len(),
            forall|t: int| 0 <= t < i ==> video_ok(*a, #[trigger] a.videos@[t]),
        decreases n_videos - i,
    {
        let v = &a.videos[i];
        if (v.sources_count as u64) > a.video_sources.len() as u64 || (v.sources as u64) > a.video_sources.len() as u64 - (v.sources_count as u64) {
            proof {
                assert(!arena_wf(*a)) by {
                    assert(!video_ok(*a, a.videos@[i as int]));
                }
            }
            return Result::Err(DecodeError::BadReference);
        }
        i += 1;
    }
    let mut i: usize = 0;
    let n_lv = a.layer_videos.len();
    while i < n_lv
        invariant
            0 <= i <= n_lv,
            n_lv == a.layer_videos@.len(),
            pool_len == a.curve_keys@.len(),
            forall|t: int|
                0 <= t < i ==> layer_video_ok(*a, #[trigger] a.layer_videos@[t])
                    && blend_mode_from_bits(a.layer_videos@[t].transfer_mode.mode) is Some,
        decreases n_lv - i,
    {
        let v = &a.layer_videos[i];
        if !check_curve(pool_len, &v.anchor_x) || !check_curve(pool_len, &v.anchor_y)
            || !check_curve(pool_len, &v.pos_x) || !check_curve(pool_len, &v.pos_y) || !check_curve(
            pool_len,
            &v.rot_z,
        ) || !check_curve(pool_len, &v.scale_x) || !check_curve(pool_len, &v.scale_y)
            || !check_curve(pool_len, &v.opacity) {
            proof {
                assert(!arena_wf(*a)) by {
                    assert(!layer_video_ok(*a, a.layer_videos@[i as int]));
                }
            }
            return Result::Err(DecodeError::BadReference);
        }
        match v._3d {
            Option::Some(x) => {
                if x >= a.layer_video_3ds.len() {
                    proof {
                        assert(!arena_wf(*a)) by {
                            assert(!layer_video_ok(*a, a.layer_videos@[i as int]));
                        }
                    }
                    return Result::Err(DecodeError::BadReference);
                }
            },
            Option::None => {},
        }
        if BlendMode::from_bits(v.transfer_mode.mode).is_none() {
            proof {
                assert(!arena_wf(*a)) by {
                    assert(!layer_video_ok(*a, a.layer_videos@[i as int]));
                }
            }
            return Result::Err(DecodeError::BadEnum);
        }
        i += 1;
    }
    let mut i: usize = 0;
    let n_3d = a.layer_video_3ds.len();
    while i < n_3d
        invariant
            0 <= i <= n_3d,
            n_3d == a.layer_video_3ds@.len(),
            pool_len == a.curve_keys@.len(),
            forall|t: int| 0 <= t < i ==> layer_video_3d_ok(*a, #[trigger] a.layer_video_3ds@[t]),
        decreases n_3d - i,
    {
        let v = &a.layer_video_3ds[i];
        if !check_curve(pool_len, &v.anchor_z) || !check_curve(pool_len, &v.pos_z) || !check_curve(
            pool_len,
            &v.dir_x,
        ) || !check_curve(pool_len, &v.dir_y) || !check_curve(pool_len, &v.dir_z) || !check_curve(
            pool_len,
            &v.rot_x,
        ) || !check_curve(pool_len, &v.rot_y) || !check_curve(pool_len, &v.scale_z) {
            proof {
                assert(!arena_wf(*a)) by {
                    assert(!layer_video_3d_ok(*a, a.layer_video_3ds@[i as int]));
                }
            }
            return Result::Err(DecodeError::BadReference);
        }
        i += 1;
    }
    let mut i: usize = 0;
    let n_la = a.layer_audios.len();
    while i < n_la
        invariant
            0 <= i <= n_la,
            n_la == a.layer_audios@.len(),
            pool_len == a.curve_keys@.len(),
            forall|t: int| 0 <= t < i ==> layer_audio_ok(*a, #[trigger] a.layer_audios@[t]),
        decreases n_la - i,
    {
        let v = &a.layer_audios[i];
        if !check_curve(pool_len, &v.volume_l) || !check_curve(pool_len, &v.volume_r)
            || !check_curve(pool_len, &v.pan_l) || !check_curve(pool_len, &v.pan_r) {
            proof {
                assert(!arena_wf(*a)) by {
                    assert(!layer_audio_ok(*a, a.layer_audios@[i as int]));
                }
            }
            return Result::Err(DecodeError::BadReference);
        }
        i += 1;
    }
    let mut ci: usize = 0;
    let n_comps = a.comps.len();
    while ci < n_comps
        invariant
            0 <= ci <= n_comps,
            n_comps == a.comps@.len(),
            names_len == a.names@.len(),
            forall|t: int| 0 <= t < ci ==> comp_ok(*a, t),
        decreases n_comps - ci,
    {
        let c = a.comps[ci];
        if (c.layers_count as u64) > a.layers.len() as u64 || (c.layers as u64) > a.layers.len() as u64 - (c.layers_count as u64) {
            proof {
                assert(!arena_wf(*a)) by {
                    assert(!comp_ok(*a, ci as int));
                }
            }
            return Result::Err(DecodeError::BadReference);
        }
        let hi = c.layers + c.layers_count as usize;
        let mut j: usize = c.layers;
        while j < hi
            invariant
                c.layers <= j <= hi,
                hi == c.layers + c.layers_count,
                hi <= a.layers@.len(),
                names_len == a.names@.len(),
                ci < a.comps@.len(),
                c == a.comps@[ci as int],
                forall|t: int| c.layers <= t < j ==> layer_ok(*a, #[trigger] a.layers@[t], ci as int),
            decreases hi - j,
        {
            let l = &a.layers[j];
            if l.name >= names_len {
                proof {
                    assert(!arena_wf(*a)) by {
                        assert(!layer_ok(*a, a.layers@[j as int], ci as int));
                        assert(!comp_ok(*a, ci as int));
                    }
                }
                return Result::Err(DecodeError::BadReference);
            }
            match l.markers {
                Option::None => {
                    if l.markers_count != 0 {
                        proof {
                    assert(!arena_wf(*a)) by {
                        assert(!layer_ok(*a, a.layers@[j as int], ci as int));
                        assert(!comp_ok(*a, ci as int));
                    }
                }
                return Result::Err(DecodeError::BadReference);
                    }
                },
                Option::Some(m) => {
                    if l.markers_count == 0 || (l.markers_count as u64) > a.markers.len() as u64
                        || (m as u64) > a.markers.len() as u64 - (l.markers_count as u64) {
                        proof {
                    assert(!arena_wf(*a)) by {
                        assert(!layer_ok(*a, a.layers@[j as int], ci as int));
                        assert(!comp_ok(*a, ci as int));
                    }
                }
                return Result::Err(DecodeError::BadReference);
                    }
                },
            }
            match l.video {
                Option::Some(x) => {
                    if x >= a.layer_videos.len() {
                        proof {
                    assert(!arena_wf(*a)) by {
                        assert(!layer_ok(*a, a.layers@[j as int], ci as int));
                        assert(!comp_ok(*a, ci as int));
                    }
                }
                return Result::Err(DecodeError::BadReference);
                    }
                },
                Option::None => {},
            }
            match l.audio {
                Option::Some(x) => {
                    if x >= a.layer_audios.len() {
                        proof {
                    assert(!arena_wf(*a)) by {
                        assert(!layer_ok(*a, a.layers@[j as int], ci as int));
                        assert(!comp_ok(*a, ci as int));
                    }
                }
                return Result::Err(DecodeError::BadReference);
                    }
                },
                Option::None => {},
            }
            if LayerQuality::from_bits(l.quality).is_none() {
                proof {
                    assert(!arena_wf(*a)) by {
                        assert(!layer_ok(*a, a.layers@[j as int], ci as int));
                        assert(!comp_ok(*a, ci as int));
                    }
                }
                return Result::Err(DecodeError::BadEnum);
            }
            match l.item {
                FlatItem::Empty => {},
                FlatItem::Video(x) => {
                    if x >= a.videos.len() {
                        proof {
                    assert(!arena_wf(*a)) by {
                        assert(!layer_ok(*a, a.layers@[j as int], ci as int));
                        assert(!comp_ok(*a, ci as int));
                    }
                }
                return Result::Err(DecodeError::BadReference);
                    }
                },
                FlatItem::Audio(x) => {
                    if x >= a.audios.len() {
                        proof {
                    assert(!arena_wf(*a)) by {
                        assert(!layer_ok(*a, a.layers@[j as int], ci as int));
                        assert(!comp_ok(*a, ci as int));
                    }
                }
                return Result::Err(DecodeError::BadReference);
                    }
                },
                FlatItem::Composition(cj) => {
                    if cj >= ci {
                        proof {
                    assert(!arena_wf(*a)) by {
                        assert(!layer_ok(*a, a.layers@[j as int], ci as int));
                        assert(!comp_ok(*a, ci as int));
                    }
                }
                return Result::Err(DecodeError::BadReference);
                    }
                },
            }
            j += 1;
        }
        ci += 1;
    }
    let mut i: usize = 0;
    let n_cams = a.cameras.len();
    while i < n_cams
        invariant
            0 <= i <= n_cams,
            n_cams == a.cameras@.len(),
            pool_len == a.curve_keys@.len(),
            forall|t: int| 0 <= t < i ==> camera_ok(*a, #[trigger] a.cameras@[t]),
        decreases n_cams - i,
    {
        let v = &a.cameras[i];
        if !check_curve(pool_len, &v.eye_x) || !check_curve(pool_len, &v.eye_y) || !check_curve(
            pool_len,
            &v.eye_z,
        ) || !check_curve(pool_len, &v.pos_x) || !check_curve(pool_len, &v.pos_y) || !check_curve(
            pool_len,
            &v.pos_z,
        ) || !check_curve(pool_len, &v.dir_x) || !check_curve(pool_len, &v.dir_y) || !check_curve(
            pool_len,
            &v.dir_z,
        ) || !check_curve(pool_len, &v.rot_x) || !check_curve(pool_len, &v.rot_y) || !check_curve(
            pool_len,
            &v.rot_z,
        ) || !check_curve(pool_len, &v.zoom) {
            proof {
                assert(!arena_wf(*a)) by {
                    assert(!camera_ok(*a, a.cameras@[i as int]));
                }
            }
            return Result::Err(DecodeError::BadReference);
        }
        i += 1;
    }
    let mut i: usize = 0;
    let n_scenes = a.scenes.len();
    while i < n_scenes
        invariant
            0 <= i <= n_scenes,
            n_scenes == a.scenes@.len(),
            names_len == a.names@.len(),
            forall|t: int| 0 <= t < i ==> scene_ok(*a, #[trigger] a.scenes@[t]),
        decreases n_scenes - i,
    {
        let sc = &a.scenes[i];
        if sc.name >= names_len {
            proof {
                assert(!arena_wf(*a)) by {
                    assert(!scene_ok(*a, a.scenes@[i as int]));
                }
            }
            return Result::Err(DecodeError::BadReference);
        }
        match sc.camera {
            Option::Some(x) => {
                if x >= a.cameras.len() {
                proof {
                assert(!arena_wf(*a)) by {
                    assert(!scene_ok(*a, a.scenes@[i as int]));
                }
            }
            return Result::Err(DecodeError::BadReference);
                }
            },
            Option::None => {},
        }
        if sc.comp_count < 1 {
            proof {
                assert(!arena_wf(*a)) by {
                    assert(!scene_ok(*a, a.scenes@[i as int]));
                }
            }
            return Result::Err(DecodeError::BadReference);
        }
        if (sc.comp_count as u64) > a.comps.len() as u64 || (sc.comp as u64) > a.comps.len() as u64 - (sc.comp_count as u64) {
            proof {
                assert(!arena_wf(*a)) by {
                    assert(!scene_ok(*a, a.scenes@[i as int]));
                }
            }
            return Result::Err(DecodeError::BadReference);
        }
        if (sc.video_count as u64) > a.videos.len() as u64 || (sc.video as u64) > a.videos.len() as u64 - (sc.video_count as u64) {
            proof {
                assert(!arena_wf(*a)) by {
                    assert(!scene_ok(*a, a.scenes@[i as int]));
                }
            }
            return Result::Err(DecodeError::BadReference);
        }
        if (sc.audio_count as u64) > a.audios.len() as u64 || (sc.audio as u64) > a.audios.len() as u64 - (sc.audio_count as u64) {
            proof {
                assert(!arena_wf(*a)) by {
                    assert(!scene_ok(*a, a.scenes@[i as int]));
                }
            }
            return Result::Err(DecodeError::BadReference);
        }
        i += 1;
    }
    let mut i: usize = 0;
    let n_layers = a.layers.len();
    while i < n_layers
        invariant
            0 <= i <= n_layers,
            n_layers == a.layers@.len(),
            forall|t: int| 0 <= t < i ==> !((#[trigger] a.layers@[t]).parent is Pending),
        decreases n_layers - i,
    {
        match a.layers[i].parent {
            FlatParent::Pending(_) => {
                return Result::Err(DecodeError::PendingParent);
            },
            _ => {},
        }
        i += 1;
    }
    Result::Ok(())
}

// ---------------------------------------------------------------------
// Decoded addresses and parent resolution.  A decoded layer's identity
// is the arena address of its record; the set of identities a rebuilt
// set carries is therefore the set of addresses the builder decoded,
// and parent resolution is stated against that set.
// ---------------------------------------------------------------------

/// The addresses the layers of a composition carry as identities,
/// nested compositions included.
pub open spec fn comp_id_set(c: Composition) -> Set<int>
    decreases c, 0int,
{
    ids_upto(c.layers@, c.layers@.len() as int)
}

/// The identities of the first `j` layers of a sequence, nested
/// compositions included.
pub open spec fn ids_upto(ls: Seq<Layer>, j: int) -> Set<int>
    decreases ls, j,
{
    if j <= 0 {
        Set::empty()
    } else if j > ls.len() {
        ids_upto(ls, ls.len() as int)
    } else {
        ids_upto(ls, j - 1).union(layer_id_set(ls[j - 1]))
    }
}

/// The identities a layer contributes: its own, and its nested
/// composition's.
pub open spec fn layer_id_set(l: Layer) -> Set<int>
    decreases l, 1int,
{
    set!{l.id as int}.union(
        match l.item {
            Item::Composition(c2) => comp_id_set(c2),
            _ => Set::empty(),
        },
    )
}

/// The identities of a whole rebuilt set: every scene's root.
pub open spec fn set_id_set(s: SceneSet) -> Set<int> {
    scene_ids_upto(s.scenes@, s.scenes@.len() as int)
}

/// The identities of the first `i` scenes.
pub open spec fn scene_ids_upto(ss: Seq<Scene>, i: int) -> Set<int>
    decreases i,
{
    if i <= 0 {
        Set::empty()
    } else if i > ss.len() {
        scene_ids_upto(ss, ss.len() as int)
    } else {
        scene_ids_upto(ss, i - 1).union(comp_id_set(ss[i - 1].root))
    }
}

/// Identity prefixes depend only on the layers they cover.
proof fn lemma_ids_upto_agree(s1: Seq<Layer>, s2: Seq<Layer>, j: int)
    requires
        j <= s1.len(),
        j <= s2.len(),
        forall|t: int| 0 <= t < j ==> s1[t] == s2[t],
    ensures
        ids_upto(s1, j) == ids_upto(s2, j),
    decreases j,
{
    if j > 0 {
        lemma_ids_upto_agree(s1, s2, j - 1);
    }
}

/// Scene identity prefixes depend only on the scenes they cover.
proof fn lemma_scene_ids_upto_agree(s1: Seq<Scene>, s2: Seq<Scene>, i: int)
    requires
        i <= s1.len(),
        i <= s2.len(),
        forall|t: int| 0 <= t < i ==> s1[t] == s2[t],
    ensures
        scene_ids_upto(s1, i) == scene_ids_upto(s2, i),
    decreases i,
{
    if i > 0 {
        lemma_scene_ids_upto_agree(s1, s2, i - 1);
    }
}

/// Identity prefixes are unchanged when every covered layer keeps its
/// identities.
proof fn lemma_ids_upto_pointwise(s1: Seq<Layer>, s2: Seq<Layer>, j: int)
    requires
        j <= s1.len(),
        j <= s2.len(),
        forall|t: int| 0 <= t < j ==> layer_id_set(#[trigger] s1[t]) == layer_id_set(s2[t]),
    ensures
        ids_upto(s1, j) == ids_upto(s2, j),
    decreases j,
{
    if j > 0 {
        lemma_ids_upto_pointwise(s1, s2, j - 1);
    }
}

/// Scene identity prefixes are unchanged when every covered scene keeps
/// its root's identities.
proof fn lemma_scene_ids_upto_pointwise(s1: Seq<Scene>, s2: Seq<Scene>, i: int)
    requires
        i <= s1.len(),
        i <= s2.len(),
        forall|t: int| 0 <= t < i ==> comp_id_set((#[trigger] s1[t]).root) == comp_id_set(
            s2[t].root,
        ),
    ensures
        scene_ids_upto(s1, i) == scene_ids_upto(s2, i),
    decreases i,
{
    if i > 0 {
        lemma_scene_ids_upto_pointwise(s1, s2, i - 1);
    }
}

/// Every identity a positionally addressed composition carries is an
/// address inside the layer table.
proof fn lemma_comp_id_set_bounded(a: Arena, ci: int, c: Composition)
    requires
        comp_ids_match(a, ci, c),
    ensures
        forall|x: int| comp_id_set(c).contains(x) ==> 0 <= x < a.layers@.len(),
    decreases c, 1int, 0int,
{
    lemma_ids_upto_bounded(a, ci, c, c.layers@.len() as int);
    assert(comp_id_set(c) == ids_upto(c.layers@, c.layers@.len() as int));
}

/// Every identity among the first `j` layers of a positionally
/// addressed composition is an address inside the layer table.
proof fn lemma_ids_upto_bounded(a: Arena, ci: int, c: Composition, j: int)
    requires
        comp_ids_match(a, ci, c),
        0 <= j <= c.layers@.len(),
    ensures
        forall|x: int| ids_upto(c.layers@, j).contains(x) ==> 0 <= x < a.layers@.len(),
    decreases c, 0int, j,
{
    if j > 0 {
        lemma_ids_upto_bounded(a, ci, c, j - 1);
        lemma_layer_id_set_bounded(a, a.comps@[ci].layers + (j - 1), c.layers@[j - 1]);
        assert forall|x: int| ids_upto(c.layers@, j).contains(x) implies 0 <= x
            < a.layers@.len() by {
            assert(ids_upto(c.layers@, j) == ids_upto(c.layers@, j - 1).union(
                layer_id_set(c.layers@[j - 1]),
            ));
        }
    }
}

/// Every identity a positionally addressed layer carries is an address
/// inside the layer table.
proof fn lemma_layer_id_set_bounded(a: Arena, addr: int, l: Layer)
    requires
        layer_ids_match(a, addr, l),
    ensures
        forall|x: int| layer_id_set(l).contains(x) ==> 0 <= x < a.layers@.len(),
    decreases l, 2int, 0int,
{
    match l.item {
        Item::Composition(c2) => {
            match a.layers@[addr].item {
                FlatItem::Composition(cj) => {
                    lemma_comp_id_set_bounded(a, cj as int, c2);
                },
                _ => {},
            }
        },
        _ => {},
    }
    assert(layer_id_set(l) == set!{l.id as int}.union(
        match l.item {
            Item::Composition(c2) => comp_id_set(c2),
            _ => Set::empty(),
        },
    ));
}

/// Every identity of a prefix of scenes whose roots' identities are
/// bounded is an address inside the layer table.
proof fn lemma_scene_ids_upto_bounded(a: Arena, ss: Seq<Scene>, i: int)
    requires
        0 <= i <= ss.len(),
        forall|t: int|
            0 <= t < i ==> (forall|x: int|
                comp_id_set((#[trigger] ss[t]).root).contains(x) ==> 0 <= x < a.layers@.len()),
    ensures
        forall|x: int| scene_ids_upto(ss, i).contains(x) ==> 0 <= x < a.layers@.len(),
    decreases i,
{
    if i > 0 {
        lemma_scene_ids_upto_bounded(a, ss, i - 1);
        assert(scene_ids_upto(ss, i) == scene_ids_upto(ss, i - 1).union(
            comp_id_set(ss[i - 1].root),
        ));
    }
}

/// The parent reference that resolving a decoded layer's record against
/// the decoded addresses installs: the record's parent address when it
/// names a decoded layer, absent otherwise.
pub open spec fn resolved_parent(a: Arena, dec: Set<int>, addr: int) -> Option<u64> {
    match a.layers@[addr].parent {
        FlatParent::Addr(t) => if dec.contains(t as int) {
            Option::Some(t as u64)
        } else {
            Option::None
        },
        _ => Option::None,
    }
}

/// Every layer of the composition carries exactly the parent its record
/// resolves to against the decoded addresses, nested compositions
/// included.
pub open spec fn comp_parents_resolved(a: Arena, dec: Set<int>, c: Composition) -> bool
    decreases c, 0int,
{
    forall|j: int|
        0 <= j < c.layers@.len() ==> layer_parents_resolved(a, dec, #[trigger] c.layers@[j])
}

/// A layer's identity is a record address and its parent is what that
/// record resolves to.
pub open spec fn layer_parents_resolved(a: Arena, dec: Set<int>, l: Layer) -> bool
    decreases l, 1int,
{
    &&& l.id < a.layers@.len()
    &&& l.parent == resolved_parent(a, dec, l.id as int)
    &&& match l.item {
        Item::Composition(c2) => comp_parents_resolved(a, dec, c2),
        _ => true,
    }
}

/// Every layer of the composition carries its record's address as its
/// identity, positionally: layer `j` of the composition record's range,
/// and nested compositions follow their records' items.
pub open spec fn comp_ids_match(a: Arena, ci: int, c: Composition) -> bool
    decreases c, 0int,
{
    forall|j: int|
        0 <= j < c.layers@.len() ==> layer_ids_match(
            a,
            a.comps@[ci].layers + j,
            #[trigger] c.layers@[j],
        )
}

/// The layer's identity is the given record address, and its nested
/// composition follows the record's item.
pub open spec fn layer_ids_match(a: Arena, addr: int, l: Layer) -> bool
    decreases l, 1int,
{
    &&& l.id == addr
    &&& 0 <= addr < a.layers@.len()
    &&& match l.item {
        Item::Composition(c2) => (match a.layers@[addr].item {
            FlatItem::Composition(cj) => cj < a.comps@.len() && comp_ids_match(a, cj as int, c2),
            _ => false,
        }),
        _ => true,
    }
}

/// Decoding a byte that names a blend mode gives the mode that byte
/// encodes.
proof fn lemma_blend_bits_inverse(b: u8, m: BlendMode)
    requires
        blend_mode_from_bits(b) == Some(m),
    ensures
        crate::flags::blend_mode_bits(m) == b,
{
}

/// Decoding a byte that names a quality gives the quality that byte
/// encodes.
proof fn lemma_quality_bits_inverse(b: u8, q: LayerQuality)
    requires
        quality_from_bits(b) == Some(q),
    ensures
        crate::flags::quality_bits(q) == b,
{
}

/// Rebuilds one curve of a record, exactly.
fn decode_curve_at(a: &Arena, r: &FlatCurve) -> (c: FCurve)
    requires
        flat_curve_valid(a.curve_keys@.len() as int, *r),
    ensures
        crate::arena::curve_matches(*a, *r, c),
{
    let c = decode_fcurve(&a.curve_keys, r);
    proof {
        crate::curve::lemma_eq_curve_equivalence(c.keys@, c.keys@, c.keys@);
    }
    c
}

/// Rebuilds a layer video block from its record.
fn decode_layer_video(a: &Arena, i: usize) -> (v: LayerVideo)
    requires
        arena_wf(*a),
        i < a.layer_videos@.len(),
    ensures
        layer_video_matches(*a, a.layer_videos@[i as int], v),
{
    let rec = &a.layer_videos[i];
    assert(layer_video_ok(*a, *rec));
    let mode = match BlendMode::from_bits(rec.transfer_mode.mode) {
        Option::Some(m) => m,
        Option::None => BlendMode::Unset,
    };
    proof {
        lemma_blend_bits_inverse(rec.transfer_mode.mode, mode);
    }
    let _3d: Option<LayerVideo3D> = match rec._3d {
        Option::Some(x) => {
            let r3 = &a.layer_video_3ds[x];
            assert(layer_video_3d_ok(*a, *r3));
            Option::Some(
                LayerVideo3D {
                    anchor_z: decode_curve_at(a, &r3.anchor_z),
                    pos_z: decode_curve_at(a, &r3.pos_z),
                    dir_x: decode_curve_at(a, &r3.dir_x),
                    dir_y: decode_curve_at(a, &r3.dir_y),
                    dir_z: decode_curve_at(a, &r3.dir_z),
                    rot_x: decode_curve_at(a, &r3.rot_x),
                    rot_y: decode_curve_at(a, &r3.rot_y),
                    scale_z: decode_curve_at(a, &r3.scale_z),
                },
            )
        },
        Option::None => Option::None,
    };
    LayerVideo {
        transfer_mode: crate::model::TransferMode {
            mode,
            flag: rec.transfer_mode.flag,
            matte: rec.transfer_mode.matte,
        },
        anchor_x: decode_curve_at(a, &rec.anchor_x),
        anchor_y: decode_curve_at(a, &rec.anchor_y),
        pos_x: decode_curve_at(a, &rec.pos_x),
        pos_y: decode_curve_at(a, &rec.pos_y),
        rot_z: decode_curve_at(a, &rec.rot_z),
        scale_x: decode_curve_at(a, &rec.scale_x),
        scale_y: decode_curve_at(a, &rec.scale_y),
        opacity: decode_curve_at(a, &rec.opacity),
        _3d,
    }
}

/// Rebuilds a layer audio block from its record.
fn decode_layer_audio(a: &Arena, i: usize) -> (v: LayerAudio)
    requires
        arena_wf(*a),
        i < a.layer_audios@.len(),
    ensures
        layer_audio_matches(*a, a.layer_audios@[i as int], v),
{
    let rec = &a.layer_audios[i];
    assert(layer_audio_ok(*a, *rec));
    LayerAudio {
        volume_l: decode_curve_at(a, &rec.volume_l),
        volume_r: decode_curve_at(a, &rec.volume_r),
        pan_l: decode_curve_at(a, &rec.pan_l),
        pan_r: decode_curve_at(a, &rec.pan_r),
    }
}

/// Rebuilds a camera from its record.
fn decode_camera(a: &Arena, i: usize) -> (v: Camera)
    requires
        arena_wf(*a),
        i < a.cameras@.len(),
    ensures
        camera_matches(*a, a.cameras@[i as int], v),
{
    let rec = &a.cameras[i];
    assert(camera_ok(*a, *rec));
    Camera {
        eye_x: decode_curve_at(a, &rec.eye_x),
        eye_y: decode_curve_at(a, &rec.eye_y),
        eye_z: decode_curve_at(a, &rec.eye_z),
        pos_x: decode_curve_at(a, &rec.pos_x),
        pos_y: decode_curve_at(a, &rec.pos_y),
        pos_z: decode_curve_at(a, &rec.pos_z),
        dir_x: decode_curve_at(a, &rec.dir_x),
        dir_y: decode_curve_at(a, &rec.dir_y),
        dir_z: decode_curve_at(a, &rec.dir_z),
        rot_x: decode_curve_at(a, &rec.rot_x),
        rot_y: decode_curve_at(a, &rec.rot_y),
        rot_z: decode_curve_at(a, &rec.rot_z),
        zoom: decode_curve_at(a, &rec.zoom),
    }
}

/// Rebuilds a video item from its record, sources included.
#[verifier::loop_isolation(false)]
fn decode_video(a: &Arena, i: usize) -> (v: Video)
    requires
        arena_wf(*a),
        i < a.videos@.len(),
    ensures
        video_matches(*a, a.videos@[i as int], v),
{
    let rec = a.videos[i];
    assert(video_ok(*a, rec));
    // bind the length so the verifier learns it fits a machine word
    let _total = a.video_sources.len();
    let n = rec.sources_count as usize;
    let mut sources: Vec<VideoSource> = Vec::new();
    let mut j: usize = 0;
    while j < n
        invariant
            0 <= j <= n,
            n == rec.sources_count,
            rec == a.videos@[i as int],
            i < a.videos@.len(),
            arena_wf(*a),
            sources@.len() == j,
            forall|t: int|
                0 <= t < j ==> source_matches(
                    *a,
                    a.video_sources@[rec.sources + t],
                    #[trigger] sources@[t],
                ),
        decreases n - j,
    {
        let src = &a.video_sources[rec.sources + j];
        assert(source_ok(*a, *src));
        sources.push(VideoSource { name: a.names[src.sprite_name].clone(), id: src.sprite_index });
        j += 1;
    }
    let v = Video {
        color: rec.color,
        width: rec.width,
        height: rec.height,
        fpf: rec.fpf,
        sources,
    };
    proof {
        assert(v.color@ =~= rec.color@);
    }
    v
}

/// Rebuilds an owned composition from the record at the given index,
/// recursively: every layer's name, markers, blocks and item.  Each
/// layer's identity is its record's arena address, every parent starts
/// absent, and every decoded address is marked so that the parent pass
/// can tell resolvable addresses from strays.
#[verifier::rlimit(100)]
#[verifier::loop_isolation(false)]
fn decode_comp(a: &Arena, ci: usize, decoded: &mut Vec<bool>) -> (c: Composition)
    requires
        arena_wf(*a),
        ci < a.comps@.len(),
        old(decoded)@.len() == a.layers@.len(),
    ensures
        final(decoded)@.len() == a.layers@.len(),
        comp_matches(*a, ci as int, c),
        comp_ids_match(*a, ci as int, c),
        forall|t: int|
            0 <= t < a.layers@.len() ==> (#[trigger] final(decoded)@[t]) == (old(decoded)@[t]
                || comp_id_set(c).contains(t)),
    decreases ci,
{
    let fc = a.comps[ci];
    assert(comp_ok(*a, ci as int));
    // bind the lengths so the verifier learns they fit a machine word
    let _nl = a.layers.len();
    let _nm = a.markers.len();
    let n = fc.layers_count as usize;
    let mut layers: Vec<Layer> = Vec::new();
    let mut j: usize = 0;
    while j < n
        invariant
            0 <= j <= n,
            layers@.len() == j,
            decoded@.len() == a.layers@.len(),
            forall|t: int|
                0 <= t < j ==> layer_matches(*a, a.layers@[fc.layers + t], #[trigger] layers@[t])
                    && item_matches(*a, a.layers@[fc.layers + t].item, layers@[t].item)
                    && layer_ids_match(*a, fc.layers + t, layers@[t]),
            forall|t: int|
                0 <= t < a.layers@.len() ==> (#[trigger] decoded@[t]) == (old(decoded)@[t]
                    || ids_upto(layers@, j as int).contains(t)),
        decreases n - j,
    {
        let ghost marks0 = decoded@;
        let fl = &a.layers[fc.layers + j];
        assert(layer_ok(*a, *fl, ci as int));
        let name = a.names[fl.name].clone();
        let mut markers: Vec<(String, u32)> = Vec::new();
        match fl.markers {
            Option::None => {},
            Option::Some(m) => {
                let mn = fl.markers_count as usize;
                let mut t: usize = 0;
                while t < mn
                    invariant
                        0 <= t <= mn,
                        mn == fl.markers_count,
                        markers@.len() == t,
                        fl.markers == Option::Some(m),
                        m + mn <= a.markers@.len(),
                        forall|q: int|
                            0 <= q < t ==> marker_matches(
                                *a,
                                a.markers@[m + q],
                                #[trigger] markers@[q],
                            ),
                    decreases mn - t,
                {
                    let mk = &a.markers[m + t];
                    assert(marker_ok(*a, *mk));
                    markers.push((a.names[mk.name].clone(), mk.time));
                    t += 1;
                }
            },
        }
        let video: Option<LayerVideo> = match fl.video {
            Option::Some(x) => Option::Some(decode_layer_video(a, x)),
            Option::None => Option::None,
        };
        let audio: Option<LayerAudio> = match fl.audio {
            Option::Some(x) => Option::Some(decode_layer_audio(a, x)),
            Option::None => Option::None,
        };
        let item: Item = match fl.item {
            FlatItem::Empty => Item::Empty,
            FlatItem::Video(x) => Item::Video(decode_video(a, x)),
            FlatItem::Audio(x) => Item::Audio(Audio { sound_index: a.audios[x].sound_index }),
            FlatItem::Composition(cj) => Item::Composition(decode_comp(a, cj, decoded)),
        };
        let ghost marks1 = decoded@;
        proof {
            assert forall|t: int|
                0 <= t < a.layers@.len() implies marks1[t] == (marks0[t] || (match item {
                Item::Composition(c2) => comp_id_set(c2).contains(t),
                _ => false,
            })) by {
                match item {
                    Item::Composition(c2) => {
                        assert(marks1[t] == (marks0[t] || comp_id_set(c2).contains(t)));
                    },
                    Item::Empty => {
                        assert(marks1 == marks0);
                    },
                    Item::Video(_) => {
                        assert(marks1 == marks0);
                    },
                    Item::Audio(_) => {
                        assert(marks1 == marks0);
                    },
                }
            }
        }
        let quality = match LayerQuality::from_bits(fl.quality) {
            Option::Some(q) => q,
            Option::None => LayerQuality::Unset,
        };
        proof {
            lemma_quality_bits_inverse(fl.quality, quality);
        }
        let addr = fc.layers + j;
        assert(addr < decoded@.len());
        decoded[addr] = true;
        let lay = Layer {
            id: addr as u64,
            name,
            start_time: fl.start_time,
            end_time: fl.end_time,
            offset_time: fl.offset_time,
            time_scale: fl.time_scale,
            flags: LayerFlags { bits: fl.flags },
            quality,
            item,
            markers,
            video,
            audio,
            parent: Option::None,
        };
        let ghost prev = layers@;
        layers.push(lay);
        proof {
            lemma_ids_upto_agree(layers@, prev, j as int);
            assert(ids_upto(layers@, j + 1) == ids_upto(prev, j as int).union(
                layer_id_set(layers@[j as int]),
            ));
            assert forall|t: int|
                0 <= t < a.layers@.len() implies decoded@[t] == (old(decoded)@[t] || ids_upto(
                layers@,
                j + 1,
            ).contains(t)) by {
                assert(layers@[j as int] == lay);
                assert(layer_id_set(lay) == set!{addr as int}.union(
                    match lay.item {
                        Item::Composition(c2) => comp_id_set(c2),
                        _ => Set::empty(),
                    },
                ));
                assert(decoded@[t] == if t == addr {
                    true
                } else {
                    marks1[t]
                });
                assert(marks0[t] == (old(decoded)@[t] || ids_upto(prev, j as int).contains(t)));
            }
        }
        j += 1;
    }
    proof {
        assert(comp_id_set(Composition { layers }) == ids_upto(layers@, n as int));
    }
    Composition { layers }
}

/// The parent pass of the graph builder.  Walks a freshly decoded
/// composition, nested compositions included; every layer whose record
/// holds a parent address that was decoded somewhere in this set gains
/// that address as its parent identity, and any address pointing
/// outside the decoded tree leaves the parent absent rather than
/// failing the decode.  Only parent references change.
#[verifier::rlimit(100)]
#[verifier::loop_isolation(false)]
fn fix_parents(
    c: &mut Composition,
    a: &Arena,
    decoded: &Vec<bool>,
    dec: Ghost<Set<int>>,
    ci: Ghost<int>,
)
    requires
        arena_wf(*a),
        comp_matches(*a, ci@, *old(c)),
        comp_ids_match(*a, ci@, *old(c)),
        decoded@.len() == a.layers@.len(),
        forall|t: int| 0 <= t < decoded@.len() ==> (#[trigger] decoded@[t]) == dec@.contains(t),
        forall|t: int| dec@.contains(t) ==> 0 <= t < decoded@.len(),
    ensures
        comp_matches(*a, ci@, *final(c)),
        comp_ids_match(*a, ci@, *final(c)),
        comp_parents_resolved(*a, dec@, *final(c)),
        comp_id_set(*final(c)) == comp_id_set(*old(c)),
    decreases *old(c),
{
    // bind the length so the verifier learns it fits a machine word
    let _nl = a.layers.len();
    let n = c.layers.len();
    let mut j: usize = 0;
    while j < n
        invariant
            0 <= j <= n,
            n == c.layers@.len(),
            n == old(c).layers@.len(),
            comp_matches(*a, ci@, *c),
            comp_ids_match(*a, ci@, *c),
            forall|t: int| j <= t < n ==> #[trigger] c.layers@[t] == old(c).layers@[t],
            forall|t: int|
                0 <= t < j ==> layer_parents_resolved(*a, dec@, #[trigger] c.layers@[t]),
            forall|t: int|
                0 <= t < j ==> layer_id_set(#[trigger] c.layers@[t]) == layer_id_set(
                    old(c).layers@[t],
                ),
        decreases n - j,
    {
        let ghost pre = *c;
        proof {
            assert(layer_ids_match(*a, a.comps@[ci@].layers + j, c.layers@[j as int]));
            assert(c.layers@[j as int].id == a.comps@[ci@].layers + j);
            assert(c.layers@[j as int].id < a.layers@.len());
        }
        let addr = c.layers[j].id as usize;
        proof {
            assert(addr == a.comps@[ci@].layers + j);
            assert(addr < a.layers@.len());
        }
        match &mut c.layers[j].item {
            Item::Composition(c2) => {
                let cj: usize = match a.layers[addr].item {
                    FlatItem::Composition(x) => x,
                    _ => {
                        proof {
                            assert(false);
                        }
                        0
                    },
                };
                proof {
                    assert(*c2 == (match old(c).layers@[j as int].item {
                        Item::Composition(x) => x,
                        _ => arbitrary(),
                    }));
                    assert(comp_matches(*a, cj as int, *c2));
                    assert(comp_ids_match(*a, cj as int, *c2));
                }
                fix_parents(c2, a, decoded, dec, Ghost(cj as int));
            },
            _ => {},
        }
        let ghost mid = *c;
        let parent: Option<u64> = match a.layers[addr].parent {
            FlatParent::Addr(t) => {
                if t < decoded.len() && decoded[t] {
                    Option::Some(t as u64)
                } else {
                    Option::None
                }
            },
            _ => Option::None,
        };
        c.layers[j].parent = parent;
        proof {
            let fcl = a.comps@[ci@].layers;
            assert(c.layers@[j as int].parent == resolved_parent(*a, dec@, addr as int));
            assert forall|t: int| 0 <= t < n implies layer_matches(
                *a,
                a.layers@[fcl + t],
                #[trigger] c.layers@[t],
            ) && item_matches(*a, a.layers@[fcl + t].item, c.layers@[t].item) && layer_ids_match(
                *a,
                fcl + t,
                c.layers@[t],
            ) by {
                if t == j {
                    assert(layer_matches(*a, a.layers@[fcl + t], pre.layers@[t]));
                    assert(layer_matches(*a, a.layers@[fcl + t], mid.layers@[t]));
                } else {
                    assert(c.layers@[t] == pre.layers@[t]);
                }
            }
            assert(layer_parents_resolved(*a, dec@, c.layers@[j as int]));
            assert(layer_id_set(c.layers@[j as int]) == layer_id_set(old(c).layers@[j as int]));
        }
        j += 1;
    }
    proof {
        lemma_ids_upto_pointwise(c.layers@, old(c).layers@, n as int);
    }
}

/// Rebuilds an owned scene set from a flat arena.  The builder fails
/// fast, before any walk, exactly when the arena is malformed; on
/// well-formed input every scene of the result denotes its record
/// exactly, its root composition rebuilt from the last composition of
/// the scene's range and parent addresses resolved to identities where
/// they point inside the decoded set.
#[verifier::rlimit(100)]
#[verifier::loop_isolation(false)]
pub fn unflatten(flat: &FlatSet) -> (r: Result<SceneSet, DecodeError>)
    ensures
        r is Ok <==> flat_set_wf(*flat),
        r matches Ok(s) ==> s.modern == flat.modern && s.big_endian == flat.big_endian && s.is_x
            == flat.is_x && s.scenes@.len() == flat.arena.scenes@.len() && (forall|i: int|
            0 <= i < s.scenes@.len() ==> scene_matches(
                flat.arena,
                #[trigger] flat.arena.scenes@[i],
                s.scenes@[i],
            )),
        r matches Ok(s) ==> (forall|i: int|
            0 <= i < s.scenes@.len() ==> comp_ids_match(
                flat.arena,
                flat.arena.scenes@[i].comp + flat.arena.scenes@[i].comp_count - 1,
                (#[trigger] s.scenes@[i]).root,
            )),
        r matches Ok(s) ==> (forall|i: int|
            0 <= i < s.scenes@.len() ==> comp_parents_resolved(
                flat.arena,
                set_id_set(s),
                (#[trigger] s.scenes@[i]).root,
            )),
{
    match check_flat_set(flat) {
        Result::Err(e) => {
            return Result::Err(e);
        },
        Result::Ok(_) => {},
    }
    let a = &flat.arena;
    let mut decoded: Vec<bool> = Vec::new();
    let n_layers = a.layers.len();
    let mut i: usize = 0;
    while i < n_layers
        invariant
            decoded@.len() == i,
            0 <= i <= n_layers,
            forall|t: int| 0 <= t < i ==> !(#[trigger] decoded@[t]),
        decreases n_layers - i,
    {
        decoded.push(false);
        i += 1;
    }
    let n = a.scenes.len();
    let mut scenes: Vec<Scene> = Vec::new();
    let mut i: usize = 0;
    while i < n
        invariant
            0 <= i <= n,
            scenes@.len() == i,
            decoded@.len() == a.layers@.len(),
            forall|t: int|
                0 <= t < i ==> scene_matches(*a, a.scenes@[t], #[trigger] scenes@[t])
                    && comp_ids_match(
                    *a,
                    a.scenes@[t].comp + a.scenes@[t].comp_count - 1,
                    scenes@[t].root,
                ),
            forall|t: int|
                0 <= t < decoded@.len() ==> (#[trigger] decoded@[t]) == scene_ids_upto(
                    scenes@,
                    i as int,
                ).contains(t),
        decreases n - i,
    {
        let sc = a.scenes[i];
        assert(scene_ok(*a, sc));
        // bind the length so the verifier learns it fits a machine word
        let _nc = a.comps.len();
        let root_ci = sc.comp + sc.comp_count as usize - 1;
        let camera: Option<Camera> = match sc.camera {
            Option::Some(x) => Option::Some(decode_camera(a, x)),
            Option::None => Option::None,
        };
        let ghost marks0 = decoded@;
        let root = decode_comp(a, root_ci, &mut decoded);
        let scene = Scene {
            name: a.names[sc.name].clone(),
            start_time: sc.start_time,
            end_time: sc.end_time,
            fps: sc.fps,
            color: sc.color,
            width: sc.width,
            height: sc.height,
            camera,
            root,
        };
        proof {
            assert(scene.color@ =~= sc.color@);
        }
        let ghost prev = scenes@;
        scenes.push(scene);
        proof {
            lemma_scene_ids_upto_agree(scenes@, prev, i as int);
            assert(scene_ids_upto(scenes@, i + 1) == scene_ids_upto(prev, i as int).union(
                comp_id_set(scenes@[i as int].root),
            ));
            assert forall|t: int|
                0 <= t < decoded@.len() implies (#[trigger] decoded@[t]) == scene_ids_upto(
                scenes@,
                i + 1,
            ).contains(t) by {
                assert(decoded@[t] == (marks0[t] || comp_id_set(scenes@[i as int].root).contains(
                    t,
                )));
            }
        }
        i += 1;
    }
    let ghost scenes_at_fix = scenes@;
    let ghost dec = scene_ids_upto(scenes_at_fix, n as int);
    proof {
        assert forall|t: int|
            0 <= t < n implies (forall|x: int|
            comp_id_set((#[trigger] scenes@[t]).root).contains(x) ==> 0 <= x
                < a.layers@.len()) by {
            lemma_comp_id_set_bounded(
                *a,
                a.scenes@[t].comp + a.scenes@[t].comp_count - 1,
                scenes@[t].root,
            );
        }
        lemma_scene_ids_upto_bounded(*a, scenes@, n as int);
    }
    let mut i: usize = 0;
    while i < n
        invariant
            0 <= i <= n,
            n == a.scenes@.len(),
            scenes@.len() == n,
            decoded@.len() == a.layers@.len(),
            forall|t: int| 0 <= t < decoded@.len() ==> (#[trigger] decoded@[t]) == dec.contains(t),
            forall|t: int| dec.contains(t) ==> 0 <= t < decoded@.len(),
            forall|t: int|
                0 <= t < n ==> scene_matches(*a, a.scenes@[t], #[trigger] scenes@[t])
                    && comp_ids_match(
                    *a,
                    a.scenes@[t].comp + a.scenes@[t].comp_count - 1,
                    scenes@[t].root,
                ),
            forall|t: int|
                0 <= t < i ==> comp_parents_resolved(*a, dec, (#[trigger] scenes@[t]).root),
            forall|t: int|
                0 <= t < n ==> comp_id_set((#[trigger] scenes@[t]).root) == comp_id_set(
                    scenes_at_fix[t].root,
                ),
        decreases n - i,
    {
        let ghost pre = scenes@;
        let ghost sct = a.scenes@[i as int];
        let ghost root_ci = sct.comp + sct.comp_count - 1;
        fix_parents(&mut scenes[i].root, a, &decoded, Ghost(dec), Ghost(root_ci));
        proof {
            assert forall|t: int| 0 <= t < n implies scene_matches(
                *a,
                a.scenes@[t],
                #[trigger] scenes@[t],
            ) && comp_ids_match(
                *a,
                a.scenes@[t].comp + a.scenes@[t].comp_count - 1,
                scenes@[t].root,
            ) && comp_id_set(scenes@[t].root) == comp_id_set(scenes_at_fix[t].root) by {
                if t != i {
                    assert(scenes@[t] == pre[t]);
                } else {
                    assert(scene_matches(*a, a.scenes@[t], pre[t]));
                    assert(comp_matches(*a, root_ci, scenes@[t].root));
                }
            }
        }
        i += 1;
    }
    let out = SceneSet {
        modern: flat.modern,
        big_endian: flat.big_endian,
        is_x: flat.is_x,
        scenes,
    };
    proof {
        lemma_scene_ids_upto_pointwise(out.scenes@, scenes_at_fix, n as int);
        assert(set_id_set(out) == dec);
    }
    Result::Ok(out)
}

/// Flattens an owned scene set and rebuilds an owned set from the
/// arena.  The rebuild always succeeds: the flattener only ever
/// produces well-formed arenas with every parent resolved.  On a
/// canonical input the result is structurally equal to the input:
/// curve values, layer fields and item payloads all match, whatever
/// sharing the arena introduced between value-identical records in
/// between.  Parent references are preserved positionally by the two
/// passes' own contracts, not by this equality.
pub fn reencode(set: &SceneSet) -> (r: Result<SceneSet, DecodeError>)
    requires
        crate::flatten::set_bounded(*set),
        crate::count::counts_fit_usize(crate::count::counts_set(*set)),
    ensures
        r is Ok,
        (match r {
            Result::Ok(h) => crate::model::set_canonical(*set) ==> crate::model::eq_scene_set(
                h,
                *set,
            ),
            Result::Err(_) => true,
        }),
{
    let (flat, _unresolved) = crate::flatten::flatten(set);
    let out = unflatten(&flat);
    proof {
        assert(flat_set_wf(flat));
        if crate::model::set_canonical(*set) {
            match &out {
                Result::Ok(h) => {
                    crate::laws::law_set_round_trip(flat.arena, *h, *set);
                },
                Result::Err(_) => {},
            }
        }
    }
    out
}

} // verus!
