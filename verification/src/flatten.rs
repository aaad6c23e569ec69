use vstd::prelude::*;

use crate::arena::{
    arena_extends, arena_wf, camera_matches, camera_ok, comp_matches, comp_ok, item_matches, layer_audio_matches, layer_audio_ok, layer_matches, layer_ok,
    layer_video_3d_matches, layer_video_3d_ok, layer_video_matches, layer_video_ok,
    lemma_camera_matches_extend, lemma_layer_audio_matches_extend, lemma_layer_matches_extend,
    lemma_layer_video_matches_extend, lemma_wf_extend, marker_matches, marker_ok, scene_ok,
    source_matches, source_ok, video_matches, video_ok, Arena, FlatAudio, FlatCamera, FlatComp,
    FlatItem, FlatLayer, FlatLayerAudio, FlatLayerVideo, FlatLayerVideo3D, FlatMarker, FlatParent,
    FlatScene, FlatSet, FlatTransferMode, FlatVideo, FlatVideoSource,
};
use crate::count::{
    count_curve_keys, counts_camera, counts_comp, counts_fit_usize, counts_item, counts_items_upto,
    counts_layer_audio, counts_layer_shallow, counts_layer_video, counts_scene, counts_scenes_upto, counts_set, counts_shallow_upto, gadd, gle, gnonneg, lemma_counts_comp_nonneg, lemma_counts_items_upto_mono, lemma_counts_items_upto_nonneg,
    lemma_counts_shallow_upto_mono, lemma_counts_shallow_upto_nonneg, lemma_counts_split_upto,
    lemma_counts_item_nonneg, lemma_counts_layers_upto_nonneg, lemma_counts_scene_nonneg, lemma_counts_scenes_upto_mono,
    lemma_counts_scene_tallies, lemma_counts_scenes_upto_nonneg, lemma_shallow_layer_count, GCounts,
    SetCounts,
};
use crate::curve::{
    alloc_fcurve, curve_table_wf, fcurve_eq, flat_curve_keys, flat_curve_valid,
    lemma_eq_curve_equivalence, lemma_flat_curve_stable, FlatCurve,
};
use crate::flags::{
    blend_mode_bits, lemma_blend_mode_bits_round_trip, lemma_quality_bits_round_trip,
    quality_bits,
};
use crate::model::{
    camera_canonical, comp_canonical, curve_absent, curve_round_trips, eq_curve, item_canonical,
    la_canonical, layer_canonical, lv_canonical, scene_canonical, set_canonical, Audio, Camera, Composition, FCurve, Item, Layer,
    LayerAudio, LayerVideo, LayerVideo3D, Scene, SceneSet, Video, };
use crate::laws::{comp_parents_encoded, lemma_parents_encoded, lemma_prefix_contains};
use crate::scalar::{eq_scalar, scalar_eq};

verus! {

/// The table lengths of an arena, category by category, in the same
/// shape as a structural tally: what the flattener has emitted so far.
pub open spec fn arena_lens(a: Arena) -> GCounts {
    GCounts {
        audio_count: a.audios@.len() as int,
        camera_count: a.cameras@.len() as int,
        comp_count: a.comps@.len() as int,
        fcurve_key_count: a.curve_keys@.len() as int,
        layer_audio_count: a.layer_audios@.len() as int,
        layer_count: a.layers@.len() as int,
        layer_video_3d_count: a.layer_video_3ds@.len() as int,
        layer_video_count: a.layer_videos@.len() as int,
        marker_count: a.markers@.len() as int,
        name_count: a.names@.len() as int,
        scene_count: a.scenes@.len() as int,
        video_count: a.videos@.len() as int,
        video_source_count: a.video_sources@.len() as int,
    }
}

/// The scalars the curves of a list would append if none were
/// deduplicated: the sum of their tallies.
pub open spec fn sum_key_counts(cs: Seq<&FCurve>, j: int) -> int
    decreases j,
{
    if j <= 0 {
        0
    } else {
        sum_key_counts(cs, j - 1) + count_curve_keys(cs[j - 1].keys@)
    }
}

/// Partial sums of curve tallies grow with the prefix length.
pub proof fn lemma_sum_key_counts_le(cs: Seq<&FCurve>, j: int, k: int)
    requires
        0 <= j <= k,
    ensures
        sum_key_counts(cs, j) <= sum_key_counts(cs, k),
    decreases k - j,
{
    if j < k {
        lemma_sum_key_counts_le(cs, j, k - 1);
    }
}

/// Encodes a list of curves in order into the arena's scalar pool,
/// deduplicating each against the table.  The pool grows by at most the
/// sum of the curves' tallies; every returned record is valid and
/// denotes its curve.
pub fn alloc_fcurves(cs: &Vec<&FCurve>, pool: &mut Vec<u32>, table: &mut Vec<FlatCurve>) -> (rs: Vec<
    FlatCurve,
>)
    requires
        curve_table_wf(old(pool)@, old(table)@),
        forall|t: int| 0 <= t < cs@.len() ==> #[trigger] cs@[t].keys@.len() <= u32::MAX,
        old(pool)@.len() + sum_key_counts(cs@, cs@.len() as int) <= usize::MAX,
    ensures
        old(pool)@.is_prefix_of(final(pool)@),
        old(table)@.is_prefix_of(final(table)@),
        curve_table_wf(final(pool)@, final(table)@),
        rs@.len() == cs@.len(),
        final(pool)@.len() <= old(pool)@.len() + sum_key_counts(cs@, cs@.len() as int),
        forall|t: int|
            0 <= t < cs@.len() ==> flat_curve_valid(final(pool)@.len() as int, #[trigger] rs@[t])
                && ((rs@[t].keys_count == 0) == curve_absent(cs@[t].keys@)) && (curve_round_trips(
                cs@[t].keys@,
            ) ==> eq_curve(cs@[t].keys@, flat_curve_keys(final(pool)@, rs@[t]))),
{
    let n = cs.len();
    let mut rs: Vec<FlatCurve> = Vec::new();
    let mut i: usize = 0;
    while i < n
        invariant
            0 <= i <= n,
            n == cs@.len(),
            rs@.len() == i,
            old(pool)@.is_prefix_of(pool@),
            old(table)@.is_prefix_of(table@),
            curve_table_wf(pool@, table@),
            forall|t: int| 0 <= t < cs@.len() ==> #[trigger] cs@[t].keys@.len() <= u32::MAX,
            old(pool)@.len() + sum_key_counts(cs@, cs@.len() as int) <= usize::MAX,
            pool@.len() <= old(pool)@.len() + sum_key_counts(cs@, i as int),
            forall|t: int|
                0 <= t < i ==> flat_curve_valid(pool@.len() as int, #[trigger] rs@[t]) && ((
                rs@[t].keys_count == 0) == curve_absent(cs@[t].keys@)) && (curve_round_trips(
                    cs@[t].keys@,
                ) ==> eq_curve(cs@[t].keys@, flat_curve_keys(pool@, rs@[t]))),
        decreases n - i,
    {
        proof {
            lemma_sum_key_counts_le(cs@, i + 1, cs@.len() as int);
            assert(sum_key_counts(cs@, i + 1) == sum_key_counts(cs@, i as int) + count_curve_keys(
                cs@[i as int].keys@,
            ));
        }
        let ghost pool_before = pool@;
        let r = alloc_fcurve(cs[i], pool, table);
        proof {
            assert forall|t: int|
                0 <= t < i implies flat_curve_valid(pool@.len() as int, #[trigger] rs@[t]) && ((
            rs@[t].keys_count == 0) == curve_absent(cs@[t].keys@)) && (curve_round_trips(
                cs@[t].keys@,
            ) ==> eq_curve(cs@[t].keys@, flat_curve_keys(pool@, rs@[t]))) by {
                lemma_flat_curve_stable(pool_before, pool@, rs@[t]);
            }
        }
        rs.push(r);
        i += 1;
    }
    rs
}

/// Copies a name into the arena's name storage and returns its index.
/// Names are interned once per occurrence; they are never deduplicated.
pub fn intern_name(name: &String, arena: &mut Arena) -> (i: usize)
    requires
        arena_wf(*old(arena)),
        old(arena).names@.len() < usize::MAX,
    ensures
        arena_wf(*final(arena)),
        i == old(arena).names@.len(),
        final(arena).names@.len() == old(arena).names@.len() + 1,
        final(arena).names@[i as int]@ == name@,
        old(arena).names@.is_prefix_of(final(arena).names@),
        final(arena).curve_keys@ == old(arena).curve_keys@,
        final(arena).markers@ == old(arena).markers@,
        final(arena).video_sources@ == old(arena).video_sources@,
        final(arena).videos@ == old(arena).videos@,
        final(arena).audios@ == old(arena).audios@,
        final(arena).layer_videos@ == old(arena).layer_videos@,
        final(arena).layer_video_3ds@ == old(arena).layer_video_3ds@,
        final(arena).layer_audios@ == old(arena).layer_audios@,
        final(arena).layers@ == old(arena).layers@,
        final(arena).comps@ == old(arena).comps@,
        final(arena).cameras@ == old(arena).cameras@,
        final(arena).scenes@ == old(arena).scenes@,
    {
    let i = arena.names.len();
    arena.names.push(name.clone());
    proof {
        lemma_wf_extend(*arena, *old(arena));
    }
    i
}

/// Copies a layer's markers into the arena: each marker's name is
/// interned, then the marker record appended.  An empty list stores
/// nothing and yields an absent reference, mirroring a null address.
pub fn alloc_markers(markers: &Vec<(String, u32)>, arena: &mut Arena) -> (m: Option<usize>)
    requires
        arena_wf(*old(arena)),
        old(arena).names@.len() + markers@.len() <= usize::MAX,
        old(arena).markers@.len() + markers@.len() <= usize::MAX,
    ensures
        arena_wf(*final(arena)),
        final(arena).names@.len() == old(arena).names@.len() + markers@.len(),
        final(arena).markers@.len() == old(arena).markers@.len() + markers@.len(),
        old(arena).names@.is_prefix_of(final(arena).names@),
        old(arena).markers@.is_prefix_of(final(arena).markers@),
        m is Some <==> markers@.len() > 0,
        markers@.len() > 0 ==> m == Some(old(arena).markers.len()),
        forall|i: int|
            0 <= i < markers@.len() ==> marker_matches(
                *final(arena),
                #[trigger] final(arena).markers@[old(arena).markers@.len() + i],
                markers@[i],
            ),
        final(arena).curve_keys@ == old(arena).curve_keys@,
        final(arena).video_sources@ == old(arena).video_sources@,
        final(arena).videos@ == old(arena).videos@,
        final(arena).audios@ == old(arena).audios@,
        final(arena).layer_videos@ == old(arena).layer_videos@,
        final(arena).layer_video_3ds@ == old(arena).layer_video_3ds@,
        final(arena).layer_audios@ == old(arena).layer_audios@,
        final(arena).layers@ == old(arena).layers@,
        final(arena).comps@ == old(arena).comps@,
        final(arena).cameras@ == old(arena).cameras@,
        final(arena).scenes@ == old(arena).scenes@,
    {
    if markers.len() == 0 {
        return Option::None;
    }
    let m = arena.markers.len();
    let n = markers.len();
    let mut i: usize = 0;
    while i < n
        invariant
            arena_wf(*arena),
            0 <= i <= n,
            n == markers@.len(),
            arena.markers@.len() == m + i,
            m == old(arena).markers@.len(),
            arena.names@.len() == old(arena).names@.len() + i,
            old(arena).names@.is_prefix_of(arena.names@),
            old(arena).markers@.is_prefix_of(arena.markers@),
            old(arena).names@.len() + markers@.len() <= usize::MAX,
            old(arena).markers@.len() + markers@.len() <= usize::MAX,
            forall|t: int|
                0 <= t < i ==> marker_matches(
                    *arena,
                    #[trigger] arena.markers@[m + t],
                    markers@[t],
                ),
            arena.curve_keys@ == old(arena).curve_keys@,
            arena.video_sources@ == old(arena).video_sources@,
            arena.videos@ == old(arena).videos@,
            arena.audios@ == old(arena).audios@,
            arena.layer_videos@ == old(arena).layer_videos@,
            arena.layer_video_3ds@ == old(arena).layer_video_3ds@,
            arena.layer_audios@ == old(arena).layer_audios@,
            arena.layers@ == old(arena).layers@,
            arena.comps@ == old(arena).comps@,
            arena.cameras@ == old(arena).cameras@,
            arena.scenes@ == old(arena).scenes@,
        decreases n - i,
    {
        let ghost before = *arena;
        let name_idx = intern_name(&markers[i].0, arena);
        arena.markers.push(FlatMarker { time: markers[i].1, name: name_idx });
        proof {
            lemma_wf_extend(*arena, before);
        }
        i += 1;
    }
    Option::Some(m)
}

/// Every curve of a video block is short enough for its count to be
/// stored in the record's 32-bit field.
pub open spec fn lv_bounded(v: LayerVideo) -> bool {
    &&& v.anchor_x.keys@.len() <= u32::MAX
    &&& v.anchor_y.keys@.len() <= u32::MAX
    &&& v.pos_x.keys@.len() <= u32::MAX
    &&& v.pos_y.keys@.len() <= u32::MAX
    &&& v.rot_z.keys@.len() <= u32::MAX
    &&& v.scale_x.keys@.len() <= u32::MAX
    &&& v.scale_y.keys@.len() <= u32::MAX
    &&& v.opacity.keys@.len() <= u32::MAX
    &&& match v._3d {
        Option::Some(x) => {
            &&& x.anchor_z.keys@.len() <= u32::MAX
            &&& x.pos_z.keys@.len() <= u32::MAX
            &&& x.dir_x.keys@.len() <= u32::MAX
            &&& x.dir_y.keys@.len() <= u32::MAX
            &&& x.dir_z.keys@.len() <= u32::MAX
            &&& x.rot_x.keys@.len() <= u32::MAX
            &&& x.rot_y.keys@.len() <= u32::MAX
            &&& x.scale_z.keys@.len() <= u32::MAX
        },
        Option::None => true,
    }
}

/// Every curve of an audio block is short enough for a 32-bit count.
pub open spec fn la_bounded(v: LayerAudio) -> bool {
    &&& v.volume_l.keys@.len() <= u32::MAX
    &&& v.volume_r.keys@.len() <= u32::MAX
    &&& v.pan_l.keys@.len() <= u32::MAX
    &&& v.pan_r.keys@.len() <= u32::MAX
}

/// Every curve of a camera is short enough for a 32-bit count.
pub open spec fn camera_bounded(c: Camera) -> bool {
    &&& c.eye_x.keys@.len() <= u32::MAX
    &&& c.eye_y.keys@.len() <= u32::MAX
    &&& c.eye_z.keys@.len() <= u32::MAX
    &&& c.pos_x.keys@.len() <= u32::MAX
    &&& c.pos_y.keys@.len() <= u32::MAX
    &&& c.pos_z.keys@.len() <= u32::MAX
    &&& c.dir_x.keys@.len() <= u32::MAX
    &&& c.dir_y.keys@.len() <= u32::MAX
    &&& c.dir_z.keys@.len() <= u32::MAX
    &&& c.rot_x.keys@.len() <= u32::MAX
    &&& c.rot_y.keys@.len() <= u32::MAX
    &&& c.rot_z.keys@.len() <= u32::MAX
    &&& c.zoom.keys@.len() <= u32::MAX
}

/// A pending parent field holds exactly the owned layer's parent
/// reference: the parent's identity, or absent.
pub open spec fn parent_pend_eq(p: FlatParent, q: Option<u64>) -> bool {
    match (p, q) {
        (FlatParent::Absent, Option::None) => true,
        (FlatParent::Pending(x), Option::Some(y)) => x == y,
        _ => false,
    }
}

/// A flattened layer equals an owned layer for deduplication: the
/// immediate fields correspond, the parent identities agree, and the
/// items are equal recursively.  This is the relation the flattener
/// establishes for every record it emits, and the relation its
/// composition scan decides.
pub open spec fn layer_flat_eq(a: Arena, fl: FlatLayer, own: Layer) -> bool
    decreases own, 1int,
{
    &&& layer_matches(a, fl, own)
    &&& parent_pend_eq(fl.parent, own.parent)
    &&& item_flat_eq(a, fl.item, own.item)
}

/// A flattened item equals an owned item for deduplication.
pub open spec fn item_flat_eq(a: Arena, fi: FlatItem, own: Item) -> bool
    decreases own, 2int,
{
    match (fi, own) {
        (FlatItem::Empty, Item::Empty) => true,
        (FlatItem::Video(i), Item::Video(v)) => i < a.videos@.len() && video_matches(
            a,
            a.videos@[i as int],
            v,
        ),
        (FlatItem::Audio(i), Item::Audio(x)) => i < a.audios@.len() && a.audios@[i as int].sound_index
            == x.sound_index,
        (FlatItem::Composition(ci), Item::Composition(c)) => ci < a.comps@.len() && comp_flat_eq(
            a,
            ci as int,
            c,
        ),
        _ => false,
    }
}

/// A flattened composition equals an owned composition for
/// deduplication: the same layer count and pairwise equal layers,
/// parent identities included.
pub open spec fn comp_flat_eq(a: Arena, ci: int, own: Composition) -> bool
    decreases own, 0int,
{
    let fc = a.comps@[ci];
    &&& 0 <= ci < a.comps@.len()
    &&& fc.layers_count == own.layers@.len()
    &&& fc.layers + own.layers@.len() <= a.layers@.len()
    &&& forall|j: int|
        0 <= j < own.layers@.len() ==> layer_flat_eq(
            a,
            #[trigger] a.layers@[fc.layers + j],
            own.layers@[j],
        )
}

/// Layer deduplication equality carries over to any extension.
pub proof fn lemma_layer_flat_eq_extend(b: Arena, a: Arena, fl: FlatLayer, own: Layer)
    requires
        arena_wf(a),
        arena_extends(b, a),
        layer_flat_eq(a, fl, own),
    ensures
        layer_flat_eq(b, fl, own),
    decreases own, 1int,
{
    lemma_layer_matches_extend(b, a, fl, own);
    lemma_item_flat_eq_extend(b, a, fl.item, own.item);
}

/// Item deduplication equality carries over to any extension.
pub proof fn lemma_item_flat_eq_extend(b: Arena, a: Arena, fi: FlatItem, own: Item)
    requires
        arena_wf(a),
        arena_extends(b, a),
        item_flat_eq(a, fi, own),
    ensures
        item_flat_eq(b, fi, own),
    decreases own, 2int,
{
    match (fi, own) {
        (FlatItem::Video(i), Item::Video(v)) => {
            assert(b.videos@[i as int] == a.videos@[i as int]);
            let rec = a.videos@[i as int];
            assert forall|t: int| 0 <= t < v.sources@.len() implies source_matches(
                b,
                #[trigger] b.video_sources@[rec.sources + t],
                v.sources@[t],
            ) by {
                assert(b.video_sources@[rec.sources + t] == a.video_sources@[rec.sources + t]);
            }
        },
        (FlatItem::Audio(i), Item::Audio(_)) => {
            assert(b.audios@[i as int] == a.audios@[i as int]);
        },
        (FlatItem::Composition(ci), Item::Composition(c)) => {
            lemma_comp_flat_eq_extend(b, a, ci as int, c);
        },
        _ => {},
    }
}

/// Composition deduplication equality carries over to any extension.
pub proof fn lemma_comp_flat_eq_extend(b: Arena, a: Arena, ci: int, own: Composition)
    requires
        arena_wf(a),
        arena_extends(b, a),
        comp_flat_eq(a, ci, own),
    ensures
        comp_flat_eq(b, ci, own),
    decreases own, 0int,
{
    let fc = a.comps@[ci];
    assert(b.comps@[ci] == fc);
    assert forall|j: int| 0 <= j < own.layers@.len() implies layer_flat_eq(
        b,
        #[trigger] b.layers@[fc.layers + j],
        own.layers@[j],
    ) by {
        assert(b.layers@[fc.layers + j] == a.layers@[fc.layers + j]);
        lemma_layer_flat_eq_extend(b, a, a.layers@[fc.layers + j], own.layers@[j]);
    }
}

/// No composition record's layer range meets the half-open interval.
/// The flattener patches item fields only inside the range of the
/// composition it is building, which no emitted record covers yet.
pub open spec fn comps_avoid(a: Arena, lo: int, hi: int) -> bool {
    forall|ci: int|
        0 <= ci < a.comps@.len() ==> (#[trigger] a.comps@[ci]).layers + a.comps@[ci].layers_count
            <= lo || a.comps@[ci].layers >= hi
}

/// Patching a layer record inside an interval that no composition
/// covers leaves every item equality intact.
pub proof fn lemma_item_flat_eq_patch(b: Arena, a: Arena, fi: FlatItem, own: Item, lo: int, hi: int)
    requires
        b.curve_keys@ == a.curve_keys@,
        b.names@ == a.names@,
        b.markers@ == a.markers@,
        b.video_sources@ == a.video_sources@,
        b.videos@ == a.videos@,
        b.audios@ == a.audios@,
        b.layer_videos@ == a.layer_videos@,
        b.layer_video_3ds@ == a.layer_video_3ds@,
        b.layer_audios@ == a.layer_audios@,
        b.comps@ == a.comps@,
        b.layers@.len() == a.layers@.len(),
        forall|t: int| 0 <= t < a.layers@.len() && !(lo <= t < hi) ==> b.layers@[t] == a.layers@[t],
        comps_avoid(a, lo, hi),
        item_flat_eq(a, fi, own),
    ensures
        item_flat_eq(b, fi, own),
    decreases own, 2int,
{
    match (fi, own) {
        (FlatItem::Composition(ci), Item::Composition(c)) => {
            lemma_comp_flat_eq_patch(b, a, ci as int, c, lo, hi);
        },
        _ => {},
    }
}

/// Patching a layer record inside an interval that no composition
/// covers leaves every composition equality intact.
pub proof fn lemma_comp_flat_eq_patch(b: Arena, a: Arena, ci: int, own: Composition, lo: int, hi: int)
    requires
        b.curve_keys@ == a.curve_keys@,
        b.names@ == a.names@,
        b.markers@ == a.markers@,
        b.video_sources@ == a.video_sources@,
        b.videos@ == a.videos@,
        b.audios@ == a.audios@,
        b.layer_videos@ == a.layer_videos@,
        b.layer_video_3ds@ == a.layer_video_3ds@,
        b.layer_audios@ == a.layer_audios@,
        b.comps@ == a.comps@,
        b.layers@.len() == a.layers@.len(),
        forall|t: int| 0 <= t < a.layers@.len() && !(lo <= t < hi) ==> b.layers@[t] == a.layers@[t],
        comps_avoid(a, lo, hi),
        comp_flat_eq(a, ci, own),
    ensures
        comp_flat_eq(b, ci, own),
    decreases own, 0int,
{
    let fc = a.comps@[ci];
    assert forall|j: int| 0 <= j < own.layers@.len() implies layer_flat_eq(
        b,
        #[trigger] b.layers@[fc.layers + j],
        own.layers@[j],
    ) by {
        assert(fc.layers + fc.layers_count <= lo || fc.layers >= hi);
        assert(b.layers@[fc.layers + j] == a.layers@[fc.layers + j]);
        assert(layer_flat_eq(a, a.layers@[fc.layers + j], own.layers@[j]));
        lemma_item_flat_eq_patch(
            b,
            a,
            a.layers@[fc.layers + j].item,
            own.layers@[j].item,
            lo,
            hi,
        );
    }
}

/// Decides whether a video record denotes the owned video: every field,
/// and the source list element by element.
pub fn video_eq_flat(own: &Video, fv: &FlatVideo, arena: &Arena) -> (res: bool)
    requires
        video_ok(*arena, *fv),
        arena_wf(*arena),
    ensures
        res == video_matches(*arena, *fv, *own),
{
    if fv.color[0] != own.color[0] || fv.color[1] != own.color[1] || fv.color[2] != own.color[2] {
        return false;
    }
    assert(fv.color@ =~= own.color@);
    if fv.width != own.width || fv.height != own.height {
        return false;
    }
    if !scalar_eq(own.fpf, fv.fpf) {
        return false;
    }
    let n = own.sources.len();
    if fv.sources_count as usize != n {
        return false;
    }
    // bind the length so the verifier learns it fits a machine word
    let _total = arena.video_sources.len();
    let mut j: usize = 0;
    while j < n
        invariant
            0 <= j <= n,
            n == own.sources@.len(),
            n == fv.sources_count as usize,
            arena.video_sources@.len() <= usize::MAX,
            video_ok(*arena, *fv),
            arena_wf(*arena),
            forall|t: int|
                0 <= t < j ==> source_matches(
                    *arena,
                    #[trigger] arena.video_sources@[fv.sources + t],
                    own.sources@[t],
                ),
        decreases n - j,
    {
        let src = &arena.video_sources[fv.sources + j];
        if src.sprite_index != own.sources[j].id {
            return false;
        }
        if arena.names[src.sprite_name] != own.sources[j].name {
            return false;
        }
        j += 1;
    }
    true
}

/// Decides whether a layer video record denotes the owned block.
pub fn layer_video_eq_flat(own: &LayerVideo, v: &FlatLayerVideo, arena: &Arena) -> (res: bool)
    requires
        layer_video_ok(*arena, *v),
        arena_wf(*arena),
    ensures
        res == layer_video_matches(*arena, *v, *own),
{
    if v.transfer_mode.mode != own.transfer_mode.mode.to_bits()
        || v.transfer_mode.flag != own.transfer_mode.flag || v.transfer_mode.matte
        != own.transfer_mode.matte {
        return false;
    }
    if !fcurve_eq(&own.anchor_x, &arena.curve_keys, &v.anchor_x) {
        return false;
    }
    if !fcurve_eq(&own.anchor_y, &arena.curve_keys, &v.anchor_y) {
        return false;
    }
    if !fcurve_eq(&own.pos_x, &arena.curve_keys, &v.pos_x) {
        return false;
    }
    if !fcurve_eq(&own.pos_y, &arena.curve_keys, &v.pos_y) {
        return false;
    }
    if !fcurve_eq(&own.rot_z, &arena.curve_keys, &v.rot_z) {
        return false;
    }
    if !fcurve_eq(&own.scale_x, &arena.curve_keys, &v.scale_x) {
        return false;
    }
    if !fcurve_eq(&own.scale_y, &arena.curve_keys, &v.scale_y) {
        return false;
    }
    if !fcurve_eq(&own.opacity, &arena.curve_keys, &v.opacity) {
        return false;
    }
    match (&v._3d, &own._3d) {
        (Option::None, Option::None) => true,
        (Option::Some(i), Option::Some(x)) => {
            let rec = &arena.layer_video_3ds[*i];
            assert(layer_video_3d_ok(*arena, *rec));
            fcurve_eq(&x.anchor_z, &arena.curve_keys, &rec.anchor_z) && fcurve_eq(
                &x.pos_z,
                &arena.curve_keys,
                &rec.pos_z,
            ) && fcurve_eq(&x.dir_x, &arena.curve_keys, &rec.dir_x) && fcurve_eq(
                &x.dir_y,
                &arena.curve_keys,
                &rec.dir_y,
            ) && fcurve_eq(&x.dir_z, &arena.curve_keys, &rec.dir_z) && fcurve_eq(
                &x.rot_x,
                &arena.curve_keys,
                &rec.rot_x,
            ) && fcurve_eq(&x.rot_y, &arena.curve_keys, &rec.rot_y) && fcurve_eq(
                &x.scale_z,
                &arena.curve_keys,
                &rec.scale_z,
            )
        },
        _ => false,
    }
}

/// Decides whether a layer audio record denotes the owned block.
pub fn layer_audio_eq_flat(own: &LayerAudio, v: &FlatLayerAudio, arena: &Arena) -> (res: bool)
    requires
        layer_audio_ok(*arena, *v),
        arena_wf(*arena),
    ensures
        res == layer_audio_matches(*arena, *v, *own),
{
    fcurve_eq(&own.volume_l, &arena.curve_keys, &v.volume_l) && fcurve_eq(
        &own.volume_r,
        &arena.curve_keys,
        &v.volume_r,
    ) && fcurve_eq(&own.pan_l, &arena.curve_keys, &v.pan_l) && fcurve_eq(
        &own.pan_r,
        &arena.curve_keys,
        &v.pan_r,
    )
}

/// Decides whether a flattened layer equals an owned layer for
/// deduplication: immediate fields, markers, blocks, parent identity,
/// and the item, recursing through nested compositions.  This is the
/// comparison the composition scan runs for every layer pair, so its
/// cost is linear in the size of the owned subtree.
pub fn layer_eq_flat(own: &Layer, fl: &FlatLayer, arena: &Arena) -> (res: bool)
    requires
        arena_wf(*arena),
        layer_ok(*arena, *fl, arena.comps@.len() as int),
    ensures
        res == layer_flat_eq(*arena, *fl, *own),
    decreases *own, 1int,
{
    if arena.names[fl.name] != own.name {
        return false;
    }
    if !scalar_eq(own.start_time, fl.start_time) || !scalar_eq(own.end_time, fl.end_time)
        || !scalar_eq(own.offset_time, fl.offset_time) || !scalar_eq(
        own.time_scale,
        fl.time_scale,
    ) {
        return false;
    }
    if fl.flags != own.flags.bits {
        return false;
    }
    if fl.quality != own.quality.to_bits() {
        return false;
    }
    if fl.markers_count as usize != own.markers.len() {
        return false;
    }
    match fl.markers {
        Option::None => {},
        Option::Some(m) => {
            let n = own.markers.len();
            // bind the length so the verifier learns it fits a machine word
            let _total = arena.markers.len();
            let mut t: usize = 0;
            while t < n
                invariant
                    0 <= t <= n,
                    n == own.markers@.len(),
                    n == fl.markers_count as usize,
                    arena.markers@.len() <= usize::MAX,
                    fl.markers == Option::Some(m),
                    arena_wf(*arena),
                    layer_ok(*arena, *fl, arena.comps@.len() as int),
                    forall|q: int|
                        0 <= q < t ==> marker_matches(
                            *arena,
                            #[trigger] arena.markers@[m + q],
                            own.markers@[q],
                        ),
                decreases n - t,
            {
                let mk = &arena.markers[m + t];
                if !scalar_eq(own.markers[t].1, mk.time) {
                    return false;
                }
                if arena.names[mk.name] != own.markers[t].0 {
                    return false;
                }
                t += 1;
            }
        },
    }
    match (&fl.video, &own.video) {
        (Option::None, Option::None) => {},
        (Option::Some(i), Option::Some(v)) => {
            if !layer_video_eq_flat(v, &arena.layer_videos[*i], arena) {
                return false;
            }
        },
        _ => {
            return false;
        },
    }
    match (&fl.audio, &own.audio) {
        (Option::None, Option::None) => {},
        (Option::Some(i), Option::Some(v)) => {
            if !layer_audio_eq_flat(v, &arena.layer_audios[*i], arena) {
                return false;
            }
        },
        _ => {
            return false;
        },
    }
    match (&fl.parent, &own.parent) {
        (FlatParent::Absent, Option::None) => {},
        (FlatParent::Pending(x), Option::Some(y)) => {
            if *x != *y {
                return false;
            }
        },
        _ => {
            return false;
        },
    }
    match (&fl.item, &own.item) {
        (FlatItem::Empty, Item::Empty) => true,
        (FlatItem::Video(i), Item::Video(v)) => video_eq_flat(v, &arena.videos[*i], arena),
        (FlatItem::Audio(i), Item::Audio(x)) => arena.audios[*i].sound_index == x.sound_index,
        (FlatItem::Composition(ci), Item::Composition(c)) => comp_eq_flat(c, *ci, arena),
        _ => false,
    }
}

/// Decides whether the composition record at the given index equals an
/// owned composition for deduplication, layer by layer.
pub fn comp_eq_flat(own: &Composition, ci: usize, arena: &Arena) -> (res: bool)
    requires
        arena_wf(*arena),
        ci < arena.comps@.len(),
    ensures
        res == comp_flat_eq(*arena, ci as int, *own),
    decreases *own, 0int,
{
    let fc = arena.comps[ci];
    let n = own.layers.len();
    if fc.layers_count as usize != n {
        return false;
    }
    assert(comp_ok(*arena, ci as int));
    // bind the length so the verifier learns it fits a machine word
    let _total = arena.layers.len();
    let mut j: usize = 0;
    while j < n
        invariant
            0 <= j <= n,
            n == own.layers@.len(),
            n == fc.layers_count as usize,
            arena.layers@.len() <= usize::MAX,
            fc == arena.comps@[ci as int],
            ci < arena.comps@.len(),
            arena_wf(*arena),
            forall|q: int|
                0 <= q < j ==> layer_flat_eq(
                    *arena,
                    #[trigger] arena.layers@[fc.layers + q],
                    own.layers@[q],
                ),
        decreases n - j,
    {
        assert(comp_ok(*arena, ci as int));
        assert(layer_ok(*arena, arena.layers@[fc.layers + j], ci as int));
        assert(layer_ok(*arena, arena.layers@[fc.layers + j], arena.comps@.len() as int));
        if !layer_eq_flat(&own.layers[j], &arena.layers[fc.layers + j], arena) {
            return false;
        }
        j += 1;
    }
    true
}

/// Flattens a layer video block: its curves into the scalar pool, its
/// optional three-dimensional block, then the block record itself.
pub fn alloc_layer_video(v: &LayerVideo, arena: &mut Arena, table: &mut Vec<FlatCurve>) -> (i:
    usize)
    requires
        arena_wf(*old(arena)),
        curve_table_wf(old(arena).curve_keys@, old(table)@),
        lv_bounded(*v),
        old(arena).curve_keys@.len() + counts_layer_video(*v).fcurve_key_count <= usize::MAX,
        old(arena).layer_videos@.len() < usize::MAX,
        old(arena).layer_video_3ds@.len() + counts_layer_video(*v).layer_video_3d_count
            <= usize::MAX,
    ensures
        arena_wf(*final(arena)),
        curve_table_wf(final(arena).curve_keys@, final(table)@),
        old(table)@.is_prefix_of(final(table)@),
        i == old(arena).layer_videos@.len(),
        final(arena).layer_videos@.len() == i + 1,
        old(arena).curve_keys@.is_prefix_of(final(arena).curve_keys@),
        old(arena).layer_videos@.is_prefix_of(final(arena).layer_videos@),
        old(arena).layer_video_3ds@.is_prefix_of(final(arena).layer_video_3ds@),
        final(arena).curve_keys@.len() <= old(arena).curve_keys@.len() + counts_layer_video(
            *v,
        ).fcurve_key_count,
        final(arena).layer_video_3ds@.len() == old(arena).layer_video_3ds@.len()
            + counts_layer_video(*v).layer_video_3d_count,
        layer_video_ok(*final(arena), final(arena).layer_videos@[i as int]),
        lv_canonical(*v) ==> layer_video_matches(
            *final(arena),
            final(arena).layer_videos@[i as int],
            *v,
        ),
        final(arena).names@ == old(arena).names@,
        final(arena).markers@ == old(arena).markers@,
        final(arena).video_sources@ == old(arena).video_sources@,
        final(arena).videos@ == old(arena).videos@,
        final(arena).audios@ == old(arena).audios@,
        final(arena).layer_audios@ == old(arena).layer_audios@,
        final(arena).layers@ == old(arena).layers@,
        final(arena).comps@ == old(arena).comps@,
        final(arena).cameras@ == old(arena).cameras@,
        final(arena).scenes@ == old(arena).scenes@,
{
    proof {
        reveal_with_fuel(sum_key_counts, 20);
    }
    let mut cs: Vec<&FCurve> = Vec::new();
    cs.push(&v.anchor_x);
    cs.push(&v.anchor_y);
    cs.push(&v.pos_x);
    cs.push(&v.pos_y);
    cs.push(&v.rot_z);
    cs.push(&v.scale_x);
    cs.push(&v.scale_y);
    cs.push(&v.opacity);
    let rs = alloc_fcurves(&cs, &mut arena.curve_keys, table);
    let ghost pool_mid = arena.curve_keys@;
    let _3d: Option<usize> = match &v._3d {
        Option::Some(x) => {
            let mut cs2: Vec<&FCurve> = Vec::new();
            cs2.push(&x.anchor_z);
            cs2.push(&x.pos_z);
            cs2.push(&x.dir_x);
            cs2.push(&x.dir_y);
            cs2.push(&x.dir_z);
            cs2.push(&x.rot_x);
            cs2.push(&x.rot_y);
            cs2.push(&x.scale_z);
            let rs2 = alloc_fcurves(&cs2, &mut arena.curve_keys, table);
            proof {
                assert forall|t: int|
                    0 <= t < rs@.len() implies flat_curve_valid(
                    arena.curve_keys@.len() as int,
                    #[trigger] rs@[t],
                ) && flat_curve_keys(arena.curve_keys@, rs@[t]) == flat_curve_keys(
                    pool_mid,
                    rs@[t],
                ) by {
                    lemma_flat_curve_stable(pool_mid, arena.curve_keys@, rs@[t]);
                }
            }
            let rec3 = FlatLayerVideo3D {
                anchor_z: rs2[0],
                pos_z: rs2[1],
                dir_x: rs2[2],
                dir_y: rs2[3],
                dir_z: rs2[4],
                rot_x: rs2[5],
                rot_y: rs2[6],
                scale_z: rs2[7],
            };
            let t3 = arena.layer_video_3ds.len();
            arena.layer_video_3ds.push(rec3);
            Option::Some(t3)
        },
        Option::None => Option::None,
    };
    proof {
        lemma_blend_mode_bits_round_trip(v.transfer_mode.mode);
    }
    let rec = FlatLayerVideo {
        transfer_mode: FlatTransferMode {
            mode: v.transfer_mode.mode.to_bits(),
            flag: v.transfer_mode.flag,
            matte: v.transfer_mode.matte,
        },
        anchor_x: rs[0],
        anchor_y: rs[1],
        pos_x: rs[2],
        pos_y: rs[3],
        rot_z: rs[4],
        scale_x: rs[5],
        scale_y: rs[6],
        opacity: rs[7],
        _3d,
    };
    let i = arena.layer_videos.len();
    proof {
        lemma_wf_extend(*arena, *old(arena));
    }
    arena.layer_videos.push(rec);
    proof {
        lemma_wf_extend(*arena, *old(arena));
    }
    i
}

/// Flattens a layer audio block: its four curves, then the block record.
pub fn alloc_layer_audio(v: &LayerAudio, arena: &mut Arena, table: &mut Vec<FlatCurve>) -> (i:
    usize)
    requires
        arena_wf(*old(arena)),
        curve_table_wf(old(arena).curve_keys@, old(table)@),
        la_bounded(*v),
        old(arena).curve_keys@.len() + counts_layer_audio(*v).fcurve_key_count <= usize::MAX,
        old(arena).layer_audios@.len() < usize::MAX,
    ensures
        arena_wf(*final(arena)),
        curve_table_wf(final(arena).curve_keys@, final(table)@),
        old(table)@.is_prefix_of(final(table)@),
        i == old(arena).layer_audios@.len(),
        final(arena).layer_audios@.len() == i + 1,
        old(arena).curve_keys@.is_prefix_of(final(arena).curve_keys@),
        old(arena).layer_audios@.is_prefix_of(final(arena).layer_audios@),
        final(arena).curve_keys@.len() <= old(arena).curve_keys@.len() + counts_layer_audio(
            *v,
        ).fcurve_key_count,
        layer_audio_ok(*final(arena), final(arena).layer_audios@[i as int]),
        la_canonical(*v) ==> layer_audio_matches(
            *final(arena),
            final(arena).layer_audios@[i as int],
            *v,
        ),
        final(arena).names@ == old(arena).names@,
        final(arena).markers@ == old(arena).markers@,
        final(arena).video_sources@ == old(arena).video_sources@,
        final(arena).videos@ == old(arena).videos@,
        final(arena).audios@ == old(arena).audios@,
        final(arena).layer_videos@ == old(arena).layer_videos@,
        final(arena).layer_video_3ds@ == old(arena).layer_video_3ds@,
        final(arena).layers@ == old(arena).layers@,
        final(arena).comps@ == old(arena).comps@,
        final(arena).cameras@ == old(arena).cameras@,
        final(arena).scenes@ == old(arena).scenes@,
{
    proof {
        reveal_with_fuel(sum_key_counts, 20);
    }
    let mut cs: Vec<&FCurve> = Vec::new();
    cs.push(&v.volume_l);
    cs.push(&v.volume_r);
    cs.push(&v.pan_l);
    cs.push(&v.pan_r);
    let rs = alloc_fcurves(&cs, &mut arena.curve_keys, table);
    let rec = FlatLayerAudio { volume_l: rs[0], volume_r: rs[1], pan_l: rs[2], pan_r: rs[3] };
    let i = arena.layer_audios.len();
    arena.layer_audios.push(rec);
    proof {
        lemma_wf_extend(*arena, *old(arena));
    }
    i
}

/// Flattens a camera: its thirteen curves, then the camera record.
pub fn alloc_camera(c: &Camera, arena: &mut Arena, table: &mut Vec<FlatCurve>) -> (i: usize)
    requires
        arena_wf(*old(arena)),
        curve_table_wf(old(arena).curve_keys@, old(table)@),
        camera_bounded(*c),
        old(arena).curve_keys@.len() + counts_camera(*c).fcurve_key_count <= usize::MAX,
        old(arena).cameras@.len() < usize::MAX,
    ensures
        arena_wf(*final(arena)),
        curve_table_wf(final(arena).curve_keys@, final(table)@),
        old(table)@.is_prefix_of(final(table)@),
        i == old(arena).cameras@.len(),
        final(arena).cameras@.len() == i + 1,
        old(arena).curve_keys@.is_prefix_of(final(arena).curve_keys@),
        old(arena).cameras@.is_prefix_of(final(arena).cameras@),
        final(arena).curve_keys@.len() <= old(arena).curve_keys@.len() + counts_camera(
            *c,
        ).fcurve_key_count,
        camera_ok(*final(arena), final(arena).cameras@[i as int]),
        camera_canonical(*c) ==> camera_matches(*final(arena), final(arena).cameras@[i as int], *c),
        final(arena).names@ == old(arena).names@,
        final(arena).markers@ == old(arena).markers@,
        final(arena).video_sources@ == old(arena).video_sources@,
        final(arena).videos@ == old(arena).videos@,
        final(arena).audios@ == old(arena).audios@,
        final(arena).layer_videos@ == old(arena).layer_videos@,
        final(arena).layer_video_3ds@ == old(arena).layer_video_3ds@,
        final(arena).layer_audios@ == old(arena).layer_audios@,
        final(arena).layers@ == old(arena).layers@,
        final(arena).comps@ == old(arena).comps@,
        final(arena).scenes@ == old(arena).scenes@,
{
    proof {
        reveal_with_fuel(sum_key_counts, 20);
    }
    let mut cs: Vec<&FCurve> = Vec::new();
    cs.push(&c.eye_x);
    cs.push(&c.eye_y);
    cs.push(&c.eye_z);
    cs.push(&c.pos_x);
    cs.push(&c.pos_y);
    cs.push(&c.pos_z);
    cs.push(&c.dir_x);
    cs.push(&c.dir_y);
    cs.push(&c.dir_z);
    cs.push(&c.rot_x);
    cs.push(&c.rot_y);
    cs.push(&c.rot_z);
    cs.push(&c.zoom);
    let rs = alloc_fcurves(&cs, &mut arena.curve_keys, table);
    let rec = FlatCamera {
        eye_x: rs[0],
        eye_y: rs[1],
        eye_z: rs[2],
        pos_x: rs[3],
        pos_y: rs[4],
        pos_z: rs[5],
        dir_x: rs[6],
        dir_y: rs[7],
        dir_z: rs[8],
        rot_x: rs[9],
        rot_y: rs[10],
        rot_z: rs[11],
        zoom: rs[12],
    };
    let i = arena.cameras.len();
    arena.cameras.push(rec);
    proof {
        lemma_wf_extend(*arena, *old(arena));
    }
    i
}

/// The arena can take the given delta in every category without any
/// table length leaving the machine word.
pub open spec fn afits(a: Arena, d: GCounts) -> bool {
    counts_fit_usize(gadd(arena_lens(a), d))
}

/// Every count of a layer fits the record fields that store it.
pub open spec fn layer_bounded(l: Layer) -> bool
    decreases l, 1int,
{
    &&& l.markers@.len() <= u32::MAX
    &&& match l.video {
        Option::Some(v) => lv_bounded(v),
        Option::None => true,
    }
    &&& match l.audio {
        Option::Some(v) => la_bounded(v),
        Option::None => true,
    }
    &&& item_bounded(l.item)
}

/// Every count of an item fits the record fields that store it.
pub open spec fn item_bounded(it: Item) -> bool
    decreases it, 1int,
{
    match it {
        Item::Video(v) => v.sources@.len() <= u32::MAX,
        Item::Composition(c) => comp_bounded(c),
        _ => true,
    }
}

/// Every count of a composition fits the record fields that store it.
pub open spec fn comp_bounded(c: Composition) -> bool
    decreases c, 0int,
{
    &&& c.layers@.len() <= u32::MAX
    &&& forall|j: int| 0 <= j < c.layers@.len() ==> layer_bounded(#[trigger] c.layers@[j])
}

/// Flattens a layer's item into the arena.  A video or audio item is
/// first sought among the records this scene has already emitted, by
/// value; a composition item is sought among the scene's completed
/// compositions, layer by layer.  Only an item with no equal
/// predecessor allocates new records.
#[verifier::rlimit(100)]
#[verifier::loop_isolation(false)]
pub fn alloc_item(
    item: &Item,
    video_start: usize,
    audio_start: usize,
    comp_start: usize,
    arena: &mut Arena,
    table: &mut Vec<FlatCurve>,
    layer_ptrs: &mut Vec<(u64, usize)>,
) -> (fi: FlatItem)
    requires
        arena_wf(*old(arena)),
        curve_table_wf(old(arena).curve_keys@, old(table)@),
        item_bounded(*item),
        afits(*old(arena), counts_item(*item)),
        old(layer_ptrs)@.len() + counts_item(*item).layer_count <= usize::MAX,
        forall|k: int|
            0 <= k < old(layer_ptrs)@.len() ==> (#[trigger] old(layer_ptrs)@[k]).1 < old(arena).layers@.len(),
        forall|i: int|
            0 <= i < old(arena).layers@.len() ==> !((#[trigger] old(arena).layers@[i]).parent
                is Addr),
        video_start <= old(arena).videos@.len(),
        audio_start <= old(arena).audios@.len(),
        comp_start <= old(arena).comps@.len(),
    ensures
        arena_wf(*final(arena)),
        curve_table_wf(final(arena).curve_keys@, final(table)@),
        arena_extends(*final(arena), *old(arena)),
        old(table)@.is_prefix_of(final(table)@),
        old(layer_ptrs)@.is_prefix_of(final(layer_ptrs)@),
        final(layer_ptrs)@.len() <= old(layer_ptrs)@.len() + counts_item(*item).layer_count,
        forall|k: int|
            0 <= k < final(layer_ptrs)@.len() ==> (#[trigger] final(layer_ptrs)@[k]).1 < final(arena).layers@.len(),
        forall|i: int|
            0 <= i < final(arena).layers@.len() ==> !((#[trigger] final(arena).layers@[i]).parent
                is Addr),
        gle(arena_lens(*final(arena)), gadd(arena_lens(*old(arena)), counts_item(*item))),
        final(arena).scenes@ == old(arena).scenes@,
        final(arena).cameras@ == old(arena).cameras@,
        forall|i: int|
            0 <= i < old(arena).layers@.len() ==> final(arena).layers@[i] == old(arena).layers@[i],
        forall|ci: int|
            old(arena).comps@.len() <= ci < final(arena).comps@.len() ==> (#[trigger] final(arena).comps@[ci]).layers >= old(arena).layers@.len(),
        item_canonical(*item) ==> item_flat_eq(*final(arena), fi, *item),
        (match *item {
            Item::Empty => fi == FlatItem::Empty && *final(arena) == *old(arena) && final(layer_ptrs)@ == old(layer_ptrs)@,
            Item::Video(v) => (match fi {
                FlatItem::Video(i) => {
                    &&& i < final(arena).videos@.len()
                    &&& video_matches(*final(arena), final(arena).videos@[i as int], v)
                    &&& (exists|t: int|
                        video_start <= t < old(arena).videos@.len() && video_matches(
                            *old(arena),
                            #[trigger] old(arena).videos@[t],
                            v,
                        )) ==> *final(arena) == *old(arena)
                    &&& !(exists|t: int|
                        video_start <= t < old(arena).videos@.len() && video_matches(
                            *old(arena),
                            #[trigger] old(arena).videos@[t],
                            v,
                        )) ==> final(arena).videos@.len() == old(arena).videos@.len() + 1
                        && final(arena).names@.len() == old(arena).names@.len()
                        + v.sources@.len() && final(arena).video_sources@.len() == old(arena).video_sources@.len() + v.sources@.len()
                },
                _ => false,
            }),
            Item::Audio(x) => (match fi {
                FlatItem::Audio(i) => {
                    &&& i < final(arena).audios@.len()
                    &&& final(arena).audios@[i as int].sound_index == x.sound_index
                    &&& (exists|t: int|
                        audio_start <= t < old(arena).audios@.len() && old(arena).audios@[t].sound_index == x.sound_index) ==> *final(arena) == *old(arena)
                    &&& !(exists|t: int|
                        audio_start <= t < old(arena).audios@.len() && old(arena).audios@[t].sound_index == x.sound_index) ==> final(arena).audios@.len()
                        == old(arena).audios@.len() + 1
                },
                _ => false,
            }),
            Item::Composition(c) => (match fi {
                FlatItem::Composition(ci) => {
                    &&& ci < final(arena).comps@.len()
                    &&& (comp_canonical(c) ==> comp_flat_eq(*final(arena), ci as int, c))
                    &&& (exists|t: int|
                        comp_start <= t < old(arena).comps@.len() && comp_flat_eq(
                            *old(arena),
                            t,
                            c,
                        )) ==> *final(arena) == *old(arena) && final(layer_ptrs)@ == old(layer_ptrs)@ && comp_start <= ci && comp_flat_eq(*final(arena), ci as int, c) && (
                    forall|t: int| comp_start <= t < ci ==> !comp_flat_eq(*final(arena), t, c))
                    &&& !(exists|t: int|
                        comp_start <= t < old(arena).comps@.len() && comp_flat_eq(
                            *old(arena),
                            t,
                            c,
                        )) ==> final(arena).comps@.len() > old(arena).comps@.len() && ci == final(arena).comps@.len() - 1
                },
                _ => false,
            }),
        }),
    decreases *item, 1int,
{
    match item {
        Item::Empty => {
            proof {
                assert(*item == Item::Empty);
                assert(item_flat_eq(*arena, FlatItem::Empty, *item));
                lemma_counts_item_nonneg(*item);
            }
            FlatItem::Empty
        },
        Item::Video(v) => {
            proof {
                lemma_counts_item_nonneg(*item);
            }
            let vids_len = arena.videos.len();
            let mut j: usize = video_start;
            while j < vids_len
                invariant
                    video_start <= j <= vids_len,
                    vids_len == arena.videos@.len(),
                    arena_wf(*arena),
                    *arena == *old(arena),
                    table@ == old(table)@,
                    layer_ptrs@ == old(layer_ptrs)@,
                    curve_table_wf(old(arena).curve_keys@, old(table)@),
                    gnonneg(counts_item(*item)),
                    *item == Item::Video(*v),
                    item_bounded(*item),
                    afits(*old(arena), counts_item(*item)),
                    old(layer_ptrs)@.len() + counts_item(*item).layer_count <= usize::MAX,
                    forall|t: int|
                        video_start <= t < j ==> !video_matches(
                            *arena,
                            #[trigger] arena.videos@[t],
                            *v,
                        ),
                decreases vids_len - j,
            {
                if video_eq_flat(v, &arena.videos[j], arena) {
                    return FlatItem::Video(j);
                }
                j += 1;
            }
            let src_start = arena.video_sources.len();
            let ns = v.sources.len();
            let mut t: usize = 0;
            while t < ns
                invariant
                    arena_wf(*arena),
                    gnonneg(counts_item(*item)),
                    0 <= t <= ns,
                    ns == v.sources@.len(),
                    arena.video_sources@.len() == src_start + t,
                    src_start == old(arena).video_sources@.len(),
                    arena.names@.len() == old(arena).names@.len() + t,
                    old(arena).names@.len() + ns <= usize::MAX,
                    old(arena).video_sources@.len() + ns <= usize::MAX,
                    old(arena).names@.is_prefix_of(arena.names@),
                    old(arena).video_sources@.is_prefix_of(arena.video_sources@),
                    arena.curve_keys@ == old(arena).curve_keys@,
                    arena.markers@ == old(arena).markers@,
                    arena.videos@ == old(arena).videos@,
                    arena.audios@ == old(arena).audios@,
                    arena.layer_videos@ == old(arena).layer_videos@,
                    arena.layer_video_3ds@ == old(arena).layer_video_3ds@,
                    arena.layer_audios@ == old(arena).layer_audios@,
                    arena.layers@ == old(arena).layers@,
                    arena.comps@ == old(arena).comps@,
                    arena.cameras@ == old(arena).cameras@,
                    arena.scenes@ == old(arena).scenes@,
                    arena_wf(*old(arena)),
                    forall|q: int|
                        0 <= q < t ==> source_ok(*arena, #[trigger] arena.video_sources@[src_start
                            + q]) && source_matches(
                            *arena,
                            arena.video_sources@[src_start + q],
                            v.sources@[q],
                        ),
                decreases ns - t,
            {
                let ghost sb = *arena;
                let ni = intern_name(&v.sources[t].name, arena);
                arena.video_sources.push(
                    FlatVideoSource { sprite_name: ni, sprite_index: v.sources[t].id },
                );
                proof {
                    lemma_wf_extend(*arena, sb);
                }
                t += 1;
            }
            let rec = FlatVideo {
                color: v.color,
                width: v.width,
                height: v.height,
                fpf: v.fpf,
                sources_count: ns as u32,
                sources: src_start,
            };
            let vi = arena.videos.len();
            proof {
                assert(rec.color@ =~= v.color@);
                lemma_wf_extend(*arena, *old(arena));
            }
            arena.videos.push(rec);
            proof {
                lemma_wf_extend(*arena, *old(arena));
                assert(video_matches(*arena, arena.videos@[vi as int], *v));
            }
            FlatItem::Video(vi)
        },
        Item::Audio(x) => {
            proof {
                lemma_counts_item_nonneg(*item);
            }
            let auds_len = arena.audios.len();
            let mut j: usize = audio_start;
            while j < auds_len
                invariant
                    audio_start <= j <= auds_len,
                    auds_len == arena.audios@.len(),
                    arena_wf(*arena),
                    *arena == *old(arena),
                    table@ == old(table)@,
                    layer_ptrs@ == old(layer_ptrs)@,
                    curve_table_wf(old(arena).curve_keys@, old(table)@),
                    gnonneg(counts_item(*item)),
                    *item == Item::Audio(*x),
                    afits(*old(arena), counts_item(*item)),
                    forall|t: int|
                        audio_start <= t < j ==> arena.audios@[t].sound_index != x.sound_index,
                decreases auds_len - j,
            {
                if arena.audios[j].sound_index == x.sound_index {
                    return FlatItem::Audio(j);
                }
                j += 1;
            }
            let ai = arena.audios.len();
            arena.audios.push(FlatAudio { sound_index: x.sound_index });
            proof {
                lemma_wf_extend(*arena, *old(arena));
            }
            FlatItem::Audio(ai)
        },
        Item::Composition(c) => {
            proof {
                lemma_counts_item_nonneg(*item);
            }
            let comps_len = arena.comps.len();
            let mut j: usize = comp_start;
            while j < comps_len
                invariant
                    comp_start <= j <= comps_len,
                    comps_len == arena.comps@.len(),
                    arena_wf(*arena),
                    *arena == *old(arena),
                    table@ == old(table)@,
                    layer_ptrs@ == old(layer_ptrs)@,
                    curve_table_wf(old(arena).curve_keys@, old(table)@),
                    gnonneg(counts_item(*item)),
                    *item == Item::Composition(*c),
                    forall|t: int| comp_start <= t < j ==> !comp_flat_eq(*arena, t, *c),
                decreases comps_len - j,
            {
                if comp_eq_flat(c, j, arena) {
                    return FlatItem::Composition(j);
                }
                j += 1;
            }
            let fc = alloc_comp(c, video_start, audio_start, comp_start, arena, table, layer_ptrs);
            let ci = arena.comps.len();
            let ghost apre = *arena;
            arena.comps.push(fc);
            proof {
                assert(comp_ok(*arena, ci as int)) by {
                    assert forall|t: int|
                        fc.layers <= t < fc.layers + fc.layers_count implies layer_ok(
                        *arena,
                        #[trigger] arena.layers@[t],
                        ci as int,
                    ) by {
                        let jj = t - fc.layers;
                        assert(layer_ok(
                            apre,
                            apre.layers@[fc.layers + jj],
                            apre.comps@.len() as int,
                        ));
                        assert(arena.layers@[t] == apre.layers@[fc.layers + jj]);
                    }
                }
                lemma_wf_extend(*arena, apre);
                if comp_canonical(*c) {
                    assert forall|jj: int| 0 <= jj < c.layers@.len() implies layer_flat_eq(
                        *arena,
                        #[trigger] arena.layers@[fc.layers + jj],
                        c.layers@[jj],
                    ) by {
                        lemma_layer_flat_eq_extend(
                            *arena,
                            apre,
                            apre.layers@[fc.layers + jj],
                            c.layers@[jj],
                        );
                    }
                    assert(comp_flat_eq(*arena, ci as int, *c));
                }
            }
            FlatItem::Composition(ci)
        },
    }
}

/// Flattens one layer's own record: its name interned, its markers and
/// its video and audio blocks emitted.  The item is left empty for the
/// item pass that follows, and the parent holds the owned layer's
/// identity for the fix-up pass that ends the encode.
#[verifier::rlimit(100)]
pub fn alloc_layer_record(layer: &Layer, arena: &mut Arena, table: &mut Vec<FlatCurve>) -> (rec:
    FlatLayer)
    requires
        arena_wf(*old(arena)),
        curve_table_wf(old(arena).curve_keys@, old(table)@),
        layer_bounded(*layer),
        afits(*old(arena), counts_layer_shallow(*layer)),
    ensures
        arena_wf(*final(arena)),
        curve_table_wf(final(arena).curve_keys@, final(table)@),
        arena_extends(*final(arena), *old(arena)),
        old(table)@.is_prefix_of(final(table)@),
        gle(
            arena_lens(*final(arena)),
            gadd(arena_lens(*old(arena)), counts_layer_shallow(*layer)),
        ),
        final(arena).names@.len() == old(arena).names@.len() + 1 + layer.markers@.len(),
        final(arena).markers@.len() == old(arena).markers@.len() + layer.markers@.len(),
        final(arena).videos@ == old(arena).videos@,
        final(arena).audios@ == old(arena).audios@,
        final(arena).comps@ == old(arena).comps@,
        final(arena).scenes@ == old(arena).scenes@,
        final(arena).cameras@ == old(arena).cameras@,
        final(arena).layers@ == old(arena).layers@,
        rec.item == FlatItem::Empty,
        parent_pend_eq(rec.parent, layer.parent),
        rec.markers_count == layer.markers@.len(),
        layer_ok(*final(arena), rec, 0),
        layer_canonical(*layer) ==> layer_matches(*final(arena), rec, *layer),
{
    let name_idx = intern_name(&layer.name, arena);
    let ghost a1 = *arena;
    let markers_idx = alloc_markers(&layer.markers, arena);
    let ghost a2 = *arena;
    let video_idx: Option<usize> = match &layer.video {
        Option::Some(v) => Option::Some(alloc_layer_video(v, arena, table)),
        Option::None => Option::None,
    };
    let ghost a3 = *arena;
    let audio_idx: Option<usize> = match &layer.audio {
        Option::Some(v) => Option::Some(alloc_layer_audio(v, arena, table)),
        Option::None => Option::None,
    };
    proof {
        lemma_quality_bits_round_trip(layer.quality);
    }
    let rec = FlatLayer {
        name: name_idx,
        start_time: layer.start_time,
        end_time: layer.end_time,
        offset_time: layer.offset_time,
        time_scale: layer.time_scale,
        flags: layer.flags.bits,
        quality: layer.quality.to_bits(),
        item: FlatItem::Empty,
        parent: match &layer.parent {
            Option::Some(p) => FlatParent::Pending(*p),
            Option::None => FlatParent::Absent,
        },
        markers_count: layer.markers.len() as u32,
        markers: markers_idx,
        video: video_idx,
        audio: audio_idx,
    };
    proof {
        if layer_canonical(*layer) {
            match (rec.video, &layer.video) {
                (Option::Some(i), Option::Some(v)) => {
                    lemma_layer_video_matches_extend(*arena, a3, a3.layer_videos@[i as int], *v);
                },
                _ => {},
            }
        }
    }
    rec
}

/// Flattens a composition's layers into the arena: first every layer's
/// record, with its name, markers and blocks, its parent held as the
/// owned layer's identity, and its item left empty; then, in a second
/// walk, every layer's item, patched into the record.  The two walks
/// keep the composition's layer records contiguous while nested
/// compositions' layers follow them.  Each layer's identity is recorded
/// in the fix-up table with its arena address.
#[verifier::rlimit(100)]
pub fn alloc_comp(
    in_comp: &Composition,
    video_start: usize,
    audio_start: usize,
    comp_start: usize,
    arena: &mut Arena,
    table: &mut Vec<FlatCurve>,
    layer_ptrs: &mut Vec<(u64, usize)>,
) -> (fc: FlatComp)
    requires
        arena_wf(*old(arena)),
        curve_table_wf(old(arena).curve_keys@, old(table)@),
        comp_bounded(*in_comp),
        afits(*old(arena), counts_comp(*in_comp)),
        old(layer_ptrs)@.len() + counts_comp(*in_comp).layer_count <= usize::MAX,
        forall|k: int|
            0 <= k < old(layer_ptrs)@.len() ==> (#[trigger] old(layer_ptrs)@[k]).1 < old(arena).layers@.len(),
        forall|i: int|
            0 <= i < old(arena).layers@.len() ==> !((#[trigger] old(arena).layers@[i]).parent
                is Addr),
        video_start <= old(arena).videos@.len(),
        audio_start <= old(arena).audios@.len(),
        comp_start <= old(arena).comps@.len(),
    ensures
        arena_wf(*final(arena)),
        curve_table_wf(final(arena).curve_keys@, final(table)@),
        arena_extends(*final(arena), *old(arena)),
        old(table)@.is_prefix_of(final(table)@),
        old(layer_ptrs)@.is_prefix_of(final(layer_ptrs)@),
        final(layer_ptrs)@.len() <= old(layer_ptrs)@.len() + counts_comp(*in_comp).layer_count,
        forall|k: int|
            0 <= k < final(layer_ptrs)@.len() ==> (#[trigger] final(layer_ptrs)@[k]).1 < final(arena).layers@.len(),
        forall|i: int|
            0 <= i < final(arena).layers@.len() ==> !((#[trigger] final(arena).layers@[i]).parent
                is Addr),
        gle(arena_lens(*final(arena)), gadd(arena_lens(*old(arena)), counts_comp(*in_comp))),
        final(arena).comps@.len() <= old(arena).comps@.len() + counts_comp(*in_comp).comp_count
            - 1,
        final(arena).scenes@ == old(arena).scenes@,
        final(arena).cameras@ == old(arena).cameras@,
        forall|i: int|
            0 <= i < old(arena).layers@.len() ==> final(arena).layers@[i] == old(arena).layers@[i],
        forall|ci: int|
            old(arena).comps@.len() <= ci < final(arena).comps@.len() ==> (#[trigger] final(arena).comps@[ci]).layers >= old(arena).layers@.len(),
        fc.layers == old(arena).layers@.len(),
        fc.layers_count == in_comp.layers@.len(),
        fc.layers + in_comp.layers@.len() <= final(arena).layers@.len(),
        forall|j: int|
            0 <= j < in_comp.layers@.len() ==> layer_ok(
                *final(arena),
                #[trigger] final(arena).layers@[fc.layers + j],
                final(arena).comps@.len() as int,
            ),
        comp_canonical(*in_comp) ==> forall|j: int|
            0 <= j < in_comp.layers@.len() ==> layer_flat_eq(
                *final(arena),
                #[trigger] final(arena).layers@[fc.layers + j],
                in_comp.layers@[j],
            ),
        forall|j: int|
            0 <= j < in_comp.layers@.len() ==> final(layer_ptrs)@.contains(
                (in_comp.layers@[j].id, (fc.layers + j) as usize),
            ),
    decreases *in_comp, 0int,
{
    let base = arena.layers.len();
    let n = in_comp.layers.len();
    let ghost base_counts = arena_lens(*arena);
    proof {
        lemma_counts_layers_upto_nonneg(in_comp.layers@, in_comp.layers@.len() as int);
        lemma_counts_split_upto(in_comp.layers@, in_comp.layers@.len() as int);
        lemma_counts_shallow_upto_nonneg(in_comp.layers@, in_comp.layers@.len() as int);
        lemma_counts_items_upto_nonneg(in_comp.layers@, in_comp.layers@.len() as int);
    }
    let mut j: usize = 0;
    while j < n
        invariant
            0 <= j <= n,
            n == in_comp.layers@.len(),
            base == old(arena).layers@.len(),
            arena.layers@.len() == base + j,
            arena_wf(*arena),
            curve_table_wf(arena.curve_keys@, table@),
            arena_extends(*arena, *old(arena)),
            old(table)@.is_prefix_of(table@),
            old(layer_ptrs)@.is_prefix_of(layer_ptrs@),
            layer_ptrs@.len() == old(layer_ptrs)@.len() + j,
            forall|k: int|
                0 <= k < layer_ptrs@.len() ==> (#[trigger] layer_ptrs@[k]).1
                    < arena.layers@.len(),
            forall|i: int|
                0 <= i < arena.layers@.len() ==> !((#[trigger] arena.layers@[i]).parent is Addr),
            comp_bounded(*in_comp),
            afits(*old(arena), counts_comp(*in_comp)),
            old(layer_ptrs)@.len() + counts_comp(*in_comp).layer_count <= usize::MAX,
            base_counts == arena_lens(*old(arena)),
            gle(
                arena_lens(*arena),
                gadd(base_counts, counts_shallow_upto(in_comp.layers@, j as int)),
            ),
            arena.videos@ == old(arena).videos@,
            arena.audios@ == old(arena).audios@,
            arena.comps@ == old(arena).comps@,
            arena.scenes@ == old(arena).scenes@,
            arena.cameras@ == old(arena).cameras@,
            forall|i: int|
                0 <= i < base ==> arena.layers@[i] == old(arena).layers@[i],
            forall|t: int|
                0 <= t < j ==> (#[trigger] arena.layers@[base + t]).item == FlatItem::Empty
                    && arena.layers@[base + t].markers_count == in_comp.layers@[t].markers@.len()
                    && layer_ok(*arena, arena.layers@[base + t], 0) && parent_pend_eq(
                    arena.layers@[base + t].parent,
                    in_comp.layers@[t].parent,
                ) && (layer_canonical(in_comp.layers@[t]) ==> layer_matches(
                    *arena,
                    arena.layers@[base + t],
                    in_comp.layers@[t],
                )),
            forall|t: int|
                0 <= t < j ==> layer_ptrs@[old(layer_ptrs)@.len() + t] == (
                in_comp.layers@[t].id,
                (base + t) as usize,
                ),
        decreases n - j,
    {
        proof {
            assert(layer_bounded(in_comp.layers@[j as int]));
            lemma_counts_split_upto(in_comp.layers@, in_comp.layers@.len() as int);
            lemma_counts_items_upto_nonneg(in_comp.layers@, in_comp.layers@.len() as int);
            lemma_counts_shallow_upto_nonneg(in_comp.layers@, j as int);
            lemma_counts_shallow_upto_mono(in_comp.layers@, j + 1, in_comp.layers@.len() as int);
            assert(counts_shallow_upto(in_comp.layers@, j + 1) == gadd(
                counts_shallow_upto(in_comp.layers@, j as int),
                counts_layer_shallow(in_comp.layers@[j as int]),
            ));
            lemma_shallow_layer_count(in_comp.layers@, j as int);
        }
        let layer = &in_comp.layers[j];
        let ghost a0 = *arena;
        let rec = alloc_layer_record(layer, arena, table);
        let li = arena.layers.len();
        let ghost a4 = *arena;
        let ghost ptrs_prev = layer_ptrs@;
        arena.layers.push(rec);
        layer_ptrs.push((layer.id, li));
        proof {
            lemma_wf_extend(*arena, a4);
            assert forall|k: int|
                0 <= k < layer_ptrs@.len() implies (#[trigger] layer_ptrs@[k]).1
                < arena.layers@.len() by {
                if k < ptrs_prev.len() {
                    assert(layer_ptrs@[k] == ptrs_prev[k]);
                } else {
                    assert(layer_ptrs@[k] == (layer.id, li));
                }
            }
            assert forall|t: int|
                0 <= t < j implies (#[trigger] arena.layers@[base + t]).item == FlatItem::Empty
                && arena.layers@[base + t].markers_count == in_comp.layers@[t].markers@.len()
                && layer_ok(*arena, arena.layers@[base + t], 0) && parent_pend_eq(
                arena.layers@[base + t].parent,
                in_comp.layers@[t].parent,
            ) && (layer_canonical(in_comp.layers@[t]) ==> layer_matches(
                *arena,
                arena.layers@[base + t],
                in_comp.layers@[t],
            )) by {
                assert(arena.layers@[base + t] == a0.layers@[base + t]);
                if layer_canonical(in_comp.layers@[t]) {
                    lemma_layer_matches_extend(*arena, a0, a0.layers@[base + t], in_comp.layers@[t]);
                }
            }
            if layer_canonical(in_comp.layers@[j as int]) {
                assert(layer_matches(*arena, arena.layers@[base + j], in_comp.layers@[j as int]));
            }
        }
        j += 1;
    }
    let ghost mid_arena = *arena;
    let ghost mid_ptrs_len = layer_ptrs@.len();
    proof {
        assert forall|ci: int| 0 <= ci < arena.comps@.len() implies (#[trigger] arena.comps@[ci]).layers
            + arena.comps@[ci].layers_count <= base as int || arena.comps@[ci].layers >= base + n by {
            assert(comp_ok(*old(arena), ci));
        }
        lemma_counts_split_upto(in_comp.layers@, in_comp.layers@.len() as int);
        lemma_counts_items_upto_nonneg(in_comp.layers@, in_comp.layers@.len() as int);
        lemma_counts_shallow_upto_nonneg(in_comp.layers@, in_comp.layers@.len() as int);
        lemma_shallow_layer_count(in_comp.layers@, in_comp.layers@.len() as int);
    }
    let mut j: usize = 0;
    while j < n
        invariant
            0 <= j <= n,
            n == in_comp.layers@.len(),
            base == old(arena).layers@.len(),
            arena.layers@.len() >= base + n,
            arena_wf(*arena),
            curve_table_wf(arena.curve_keys@, table@),
            arena_extends(mid_arena, *old(arena)),
            arena_extends(*arena, *old(arena)),
            old(table)@.is_prefix_of(table@),
            old(layer_ptrs)@.is_prefix_of(layer_ptrs@),
            mid_ptrs_len == old(layer_ptrs)@.len() + n,
            forall|k: int|
                0 <= k < layer_ptrs@.len() ==> (#[trigger] layer_ptrs@[k]).1
                    < arena.layers@.len(),
            forall|i: int|
                0 <= i < arena.layers@.len() ==> !((#[trigger] arena.layers@[i]).parent is Addr),
            layer_ptrs@.len() <= mid_ptrs_len + counts_items_upto(in_comp.layers@, j as int).layer_count,
            comp_bounded(*in_comp),
            afits(*old(arena), counts_comp(*in_comp)),
            old(layer_ptrs)@.len() + counts_comp(*in_comp).layer_count <= usize::MAX,
            base_counts == arena_lens(*old(arena)),
            mid_ptrs_len <= layer_ptrs@.len(),
            gle(
                arena_lens(mid_arena),
                gadd(
                    base_counts,
                    counts_shallow_upto(in_comp.layers@, in_comp.layers@.len() as int),
                ),
            ),
            gle(
                arena_lens(*arena),
                gadd(arena_lens(mid_arena), counts_items_upto(in_comp.layers@, j as int)),
            ),
            arena.scenes@ == old(arena).scenes@,
            arena.cameras@ == old(arena).cameras@,
            arena.comps@.len() >= old(arena).comps@.len(),
            comps_avoid(*arena, base as int, base + n),
            forall|ci: int|
                old(arena).comps@.len() <= ci < arena.comps@.len() ==> (#[trigger] arena.comps@[ci]).layers
                    >= base + n,
            video_start <= arena.videos@.len(),
            audio_start <= arena.audios@.len(),
            comp_start <= arena.comps@.len(),
            forall|i: int|
                0 <= i < base ==> arena.layers@[i] == old(arena).layers@[i],
            forall|t: int|
                j <= t < n ==> (#[trigger] arena.layers@[base + t]).item == FlatItem::Empty
                    && layer_ok(*arena, arena.layers@[base + t], 0) && parent_pend_eq(
                    arena.layers@[base + t].parent,
                    in_comp.layers@[t].parent,
                ) && (layer_canonical(in_comp.layers@[t]) ==> layer_matches(
                    *arena,
                    arena.layers@[base + t],
                    in_comp.layers@[t],
                )),
            forall|t: int|
                0 <= t < j ==> layer_ok(
                    *arena,
                    #[trigger] arena.layers@[base + t],
                    arena.comps@.len() as int,
                ) && parent_pend_eq(
                    arena.layers@[base + t].parent,
                    in_comp.layers@[t].parent,
                ) && (layer_canonical(in_comp.layers@[t]) ==> layer_flat_eq(
                    *arena,
                    arena.layers@[base + t],
                    in_comp.layers@[t],
                )),
            forall|t: int|
                0 <= t < n ==> layer_ptrs@[old(layer_ptrs)@.len() + t] == (
                in_comp.layers@[t].id,
                (base + t) as usize,
                ),
        decreases n - j,
    {
        proof {
            assert(layer_bounded(in_comp.layers@[j as int]));
            lemma_counts_items_upto_mono(in_comp.layers@, j + 1, in_comp.layers@.len() as int);
            lemma_counts_item_nonneg(in_comp.layers@[j as int].item);
            lemma_counts_items_upto_nonneg(in_comp.layers@, j as int);
            assert(counts_items_upto(in_comp.layers@, j + 1) == gadd(
                counts_items_upto(in_comp.layers@, j as int),
                counts_item(in_comp.layers@[j as int].item),
            ));
            lemma_counts_split_upto(in_comp.layers@, in_comp.layers@.len() as int);
            lemma_counts_shallow_upto_nonneg(in_comp.layers@, in_comp.layers@.len() as int);
            lemma_shallow_layer_count(in_comp.layers@, in_comp.layers@.len() as int);
        }
        let ghost before = *arena;
        let fi = alloc_item(
            &in_comp.layers[j].item,
            video_start,
            audio_start,
            comp_start,
            arena,
            table,
            layer_ptrs,
        );
        proof {
            assert forall|ci: int|
                0 <= ci < arena.comps@.len() implies (#[trigger] arena.comps@[ci]).layers
                + arena.comps@[ci].layers_count <= base as int || arena.comps@[ci].layers >= base
                + n by {
                if ci < before.comps@.len() {
                    assert(arena.comps@[ci] == before.comps@[ci]);
                } else {
                    assert(arena.comps@[ci].layers >= before.layers@.len());
                }
            }
            assert forall|ci: int|
                old(arena).comps@.len() <= ci < arena.comps@.len() implies (#[trigger] arena.comps@[ci]).layers
                >= base + n by {
                if ci < before.comps@.len() {
                    assert(arena.comps@[ci] == before.comps@[ci]);
                    assert(before.comps@[ci].layers >= base + n);
                } else {
                    assert(arena.comps@[ci].layers >= before.layers@.len());
                }
            }
            assert forall|t: int|
                0 <= t < n implies #[trigger] arena.layers@[base + t] == before.layers@[base + t] by {
                assert(base + t < before.layers@.len());
            }
            assert forall|t: int|
                0 <= t < j implies (layer_canonical(in_comp.layers@[t]) ==> layer_flat_eq(
                *arena,
                #[trigger] arena.layers@[base + t],
                in_comp.layers@[t],
            )) by {
                if layer_canonical(in_comp.layers@[t]) {
                    lemma_layer_flat_eq_extend(
                        *arena,
                        before,
                        before.layers@[base + t],
                        in_comp.layers@[t],
                    );
                }
            }
            assert forall|t: int|
                j <= t < n implies (layer_canonical(in_comp.layers@[t]) ==> layer_matches(
                *arena,
                #[trigger] arena.layers@[base + t],
                in_comp.layers@[t],
            )) by {
                if layer_canonical(in_comp.layers@[t]) {
                    lemma_layer_matches_extend(
                        *arena,
                        before,
                        before.layers@[base + t],
                        in_comp.layers@[t],
                    );
                }
            }
        }
        let ghost patched_from = *arena;
        let mut rec = arena.layers[base + j];
        rec.item = fi;
        arena.layers[base + j] = rec;
        proof {
            assert(arena.layers@ == patched_from.layers@.update(base + j, rec));
            assert forall|t: int|
                0 <= t < arena.layers@.len() && t != base + j implies arena.layers@[t]
                == patched_from.layers@[t] by {}
            lemma_wf_extend(patched_from, patched_from);
            assert(arena_wf(*arena)) by {
                assert forall|ci: int| 0 <= ci < arena.comps@.len() implies comp_ok(*arena, ci) by {
                    assert(comp_ok(patched_from, ci));
                    let c = arena.comps@[ci];
                    assert(c.layers + c.layers_count <= base || c.layers >= base + n);
                    assert forall|t: int|
                        c.layers <= t < c.layers + c.layers_count implies layer_ok(
                        *arena,
                        #[trigger] arena.layers@[t],
                        ci,
                    ) by {
                        assert(arena.layers@[t] == patched_from.layers@[t]);
                        assert(layer_ok(patched_from, patched_from.layers@[t], ci));
                    }
                }
            }
            if layer_canonical(in_comp.layers@[j as int]) {
                assert(item_canonical(in_comp.layers@[j as int].item));
                assert(item_flat_eq(patched_from, fi, in_comp.layers@[j as int].item));
                lemma_item_flat_eq_patch(
                    *arena,
                    patched_from,
                    fi,
                    in_comp.layers@[j as int].item,
                    base as int,
                    base + n,
                );
                assert(layer_matches(*arena, arena.layers@[base + j], in_comp.layers@[j as int]));
            }
            assert forall|t: int|
                0 <= t < j implies (layer_canonical(in_comp.layers@[t]) ==> layer_flat_eq(
                *arena,
                #[trigger] arena.layers@[base + t],
                in_comp.layers@[t],
            )) by {
                if layer_canonical(in_comp.layers@[t]) {
                    assert(layer_flat_eq(patched_from, patched_from.layers@[base + t], in_comp.layers@[t]));
                    lemma_item_flat_eq_patch(
                        *arena,
                        patched_from,
                        patched_from.layers@[base + t].item,
                        in_comp.layers@[t].item,
                        base as int,
                        base + n,
                    );
                    assert(arena.layers@[base + t] == patched_from.layers@[base + t]);
                }
            }
        }
        j += 1;
    }
    proof {
        lemma_counts_split_upto(in_comp.layers@, in_comp.layers@.len() as int);
    }
    FlatComp { layers_count: n as u32, layers: base }
}

/// Every count of a scene fits the record fields that store it.
pub open spec fn scene_bounded(s: Scene) -> bool {
    &&& match s.camera {
        Option::Some(c) => camera_bounded(c),
        Option::None => true,
    }
    &&& comp_bounded(s.root)
    &&& counts_scene(s).comp_count <= u32::MAX
    &&& counts_scene(s).video_count <= u32::MAX
    &&& counts_scene(s).audio_count <= u32::MAX
}

/// Every count of a scene set fits the record fields that store it.
pub open spec fn set_bounded(s: SceneSet) -> bool {
    forall|i: int| 0 <= i < s.scenes@.len() ==> scene_bounded(#[trigger] s.scenes@[i])
}

/// The index of a scene's root composition record: the last
/// composition of the scene's range.
pub open spec fn scene_root_ci(a: Arena, i: int) -> int {
    a.scenes@[i].comp + a.scenes@[i].comp_count - 1
}

/// The scene record denotes the owned scene's fields, its optional
/// camera, and, as the last composition of its range, its root
/// composition with pending parents.
pub open spec fn scene_rec_matches(a: Arena, fs: FlatScene, own: Scene) -> bool {
    &&& fs.name < a.names@.len()
    &&& a.names@[fs.name as int]@ == own.name@
    &&& eq_scalar(own.start_time, fs.start_time)
    &&& eq_scalar(own.end_time, fs.end_time)
    &&& eq_scalar(own.fps, fs.fps)
    &&& fs.color@ == own.color@
    &&& fs.width == own.width
    &&& fs.height == own.height
    &&& match (fs.camera, own.camera) {
        (Option::None, Option::None) => true,
        (Option::Some(i), Option::Some(c)) => i < a.cameras@.len() && camera_matches(
            a,
            a.cameras@[i as int],
            c,
        ),
        _ => false,
    }
    &&& fs.comp_count >= 1
    &&& fs.comp + fs.comp_count <= a.comps@.len()
    &&& comp_flat_eq(a, fs.comp + fs.comp_count - 1, own.root)
}

/// Flattens one scene: its name, its optional camera, then its root
/// composition, allocated after every nested composition so that the
/// root is the last composition of the scene's range.  Video, audio and
/// composition deduplication is confined to this scene's ranges.
#[verifier::rlimit(100)]
pub fn flatten_scene(
    scene: &Scene,
    arena: &mut Arena,
    table: &mut Vec<FlatCurve>,
    layer_ptrs: &mut Vec<(u64, usize)>,
)
    requires
        arena_wf(*old(arena)),
        curve_table_wf(old(arena).curve_keys@, old(table)@),
        scene_bounded(*scene),
        afits(*old(arena), counts_scene(*scene)),
        old(layer_ptrs)@.len() + counts_scene(*scene).layer_count <= usize::MAX,
        forall|k: int|
            0 <= k < old(layer_ptrs)@.len() ==> (#[trigger] old(layer_ptrs)@[k]).1 < old(arena).layers@.len(),
        forall|i: int|
            0 <= i < old(arena).layers@.len() ==> !((#[trigger] old(arena).layers@[i]).parent
                is Addr),
    ensures
        arena_wf(*final(arena)),
        curve_table_wf(final(arena).curve_keys@, final(table)@),
        arena_extends(*final(arena), *old(arena)),
        old(table)@.is_prefix_of(final(table)@),
        old(layer_ptrs)@.is_prefix_of(final(layer_ptrs)@),
        final(layer_ptrs)@.len() <= old(layer_ptrs)@.len() + counts_scene(*scene).layer_count,
        forall|k: int|
            0 <= k < final(layer_ptrs)@.len() ==> (#[trigger] final(layer_ptrs)@[k]).1 < final(arena).layers@.len(),
        forall|i: int|
            0 <= i < final(arena).layers@.len() ==> !((#[trigger] final(arena).layers@[i]).parent
                is Addr),
        gle(arena_lens(*final(arena)), gadd(arena_lens(*old(arena)), counts_scene(*scene))),
        final(arena).scenes@.len() == old(arena).scenes@.len() + 1,
        final(arena).cameras@.len() == old(arena).cameras@.len() + (match scene.camera {
            Option::Some(_) => 1int,
            Option::None => 0int,
        }),
        forall|i: int|
            0 <= i < old(arena).layers@.len() ==> final(arena).layers@[i] == old(arena).layers@[i],
        scene_canonical(*scene) ==> scene_rec_matches(
            *final(arena),
            final(arena).scenes@[old(arena).scenes@.len() as int],
            *scene,
        ),
        forall|j: int|
            0 <= j < scene.root.layers@.len() ==> final(layer_ptrs)@.contains(
                (
                    scene.root.layers@[j].id,
                    (final(arena).comps@[scene_root_ci(
                        *final(arena),
                        old(arena).scenes@.len() as int,
                    )].layers + j) as usize,
                ),
            ),
{
    proof {
        lemma_counts_comp_nonneg(scene.root);
        lemma_counts_scene_nonneg(*scene);
    }
    let name_idx = intern_name(&scene.name, arena);
    let camera_idx: Option<usize> = match &scene.camera {
        Option::Some(c) => Option::Some(alloc_camera(c, arena, table)),
        Option::None => Option::None,
    };
    let ghost a1 = *arena;
    let video_start = arena.videos.len();
    let audio_start = arena.audios.len();
    let comp_start = arena.comps.len();
    let fc = alloc_comp(&scene.root, video_start, audio_start, comp_start, arena, table, layer_ptrs);
    let root_ci = arena.comps.len();
    let ghost apre = *arena;
    arena.comps.push(fc);
    proof {
        assert(comp_ok(*arena, root_ci as int)) by {
            assert forall|t: int|
                fc.layers <= t < fc.layers + fc.layers_count implies layer_ok(
                *arena,
                #[trigger] arena.layers@[t],
                root_ci as int,
            ) by {
                let jj = t - fc.layers;
                assert(layer_ok(apre, apre.layers@[fc.layers + jj], apre.comps@.len() as int));
                assert(arena.layers@[t] == apre.layers@[fc.layers + jj]);
            }
        }
        lemma_wf_extend(*arena, apre);
        if scene_canonical(*scene) {
            assert forall|jj: int| 0 <= jj < scene.root.layers@.len() implies layer_flat_eq(
                *arena,
                #[trigger] arena.layers@[fc.layers + jj],
                scene.root.layers@[jj],
            ) by {
                lemma_layer_flat_eq_extend(
                    *arena,
                    apre,
                    apre.layers@[fc.layers + jj],
                    scene.root.layers@[jj],
                );
            }
            assert(comp_flat_eq(*arena, root_ci as int, scene.root));
        }
    }
    let srec = FlatScene {
        name: name_idx,
        start_time: scene.start_time,
        end_time: scene.end_time,
        fps: scene.fps,
        color: scene.color,
        width: scene.width,
        height: scene.height,
        camera: camera_idx,
        comp_count: (root_ci + 1 - comp_start) as u32,
        comp: comp_start,
        video_count: (arena.videos.len() - video_start) as u32,
        video: video_start,
        audio_count: (arena.audios.len() - audio_start) as u32,
        audio: audio_start,
    };
    let ghost apre2 = *arena;
    proof {
        assert(srec.color@ =~= scene.color@);
    }
    arena.scenes.push(srec);
    proof {
        lemma_wf_extend(*arena, apre2);
        if scene_canonical(*scene) {
            match (camera_idx, &scene.camera) {
                (Option::Some(i), Option::Some(c)) => {
                    lemma_camera_matches_extend(*arena, a1, a1.cameras@[i as int], *c);
                },
                _ => {},
            }
            lemma_comp_flat_eq_extend(*arena, apre2, root_ci as int, scene.root);
            assert(scene_rec_matches(*arena, arena.scenes@[old(arena).scenes@.len() as int], *scene));
        }
    }
}

/// The first address the fix-up table records for an identity, if any.
pub open spec fn ptr_lookup(ptrs: Seq<(u64, usize)>, p: u64) -> Option<usize>
    decreases ptrs.len(),
{
    if ptrs.len() == 0 {
        Option::None
    } else if ptrs[0].0 == p {
        Option::Some(ptrs[0].1)
    } else {
        ptr_lookup(ptrs.drop_first(), p)
    }
}

/// Looking an identity up in a longer suffix first checks the element
/// in front.
pub proof fn lemma_ptr_lookup_step(ptrs: Seq<(u64, usize)>, p: u64, k: int)
    requires
        0 <= k < ptrs.len(),
    ensures
        ptr_lookup(ptrs.skip(k), p) == if ptrs[k].0 == p {
            Option::Some(ptrs[k].1)
        } else {
            ptr_lookup(ptrs.skip(k + 1), p)
        },
{
    assert(ptrs.skip(k).drop_first() =~= ptrs.skip(k + 1));
    assert(ptrs.skip(k)[0] == ptrs[k]);
}

/// A successful lookup returns an address some entry recorded.
pub proof fn lemma_ptr_lookup_member(ptrs: Seq<(u64, usize)>, p: u64)
    ensures
        (match ptr_lookup(ptrs, p) {
            Option::Some(t) => exists|k: int| 0 <= k < ptrs.len() && ptrs[k] == (p, t),
            Option::None => true,
        }),
    decreases ptrs.len(),
{
    if ptrs.len() > 0 {
        if ptrs[0].0 == p {
            assert(ptrs[0] == (p, ptrs[0].1));
        } else {
            lemma_ptr_lookup_member(ptrs.drop_first(), p);
            match ptr_lookup(ptrs.drop_first(), p) {
                Option::Some(t) => {
                    let k = choose|k: int|
                        0 <= k < ptrs.drop_first().len() && ptrs.drop_first()[k] == (p, t);
                    assert(ptrs[k + 1] == (p, t));
                },
                Option::None => {},
            }
        }
    }
}

/// Finds the first address recorded for an identity.
pub fn lookup_ptr(ptrs: &Vec<(u64, usize)>, p: u64) -> (r: Option<usize>)
    ensures
        r == ptr_lookup(ptrs@, p),
{
    let n = ptrs.len();
    proof {
        assert(ptrs@.skip(0) =~= ptrs@);
    }
    let mut k: usize = 0;
    while k < n
        invariant
            0 <= k <= n,
            n == ptrs@.len(),
            ptr_lookup(ptrs@, p) == ptr_lookup(ptrs@.skip(k as int), p),
        decreases n - k,
    {
        proof {
            lemma_ptr_lookup_step(ptrs@, p, k as int);
        }
        if ptrs[k].0 == p {
            return Option::Some(ptrs[k].1);
        }
        k += 1;
    }
    proof {
        assert(ptrs@.skip(n as int) =~= Seq::empty());
    }
    Option::None
}

/// Two layer records that differ at most in their parent field.
pub open spec fn layer_same_mod_parent(x: FlatLayer, y: FlatLayer) -> bool {
    &&& x.name == y.name
    &&& x.start_time == y.start_time
    &&& x.end_time == y.end_time
    &&& x.offset_time == y.offset_time
    &&& x.time_scale == y.time_scale
    &&& x.flags == y.flags
    &&& x.quality == y.quality
    &&& x.item == y.item
    &&& x.markers_count == y.markers_count
    &&& x.markers == y.markers
    &&& x.video == y.video
    &&& x.audio == y.audio
}

/// The parent fix-up pass.  Walks every layer record; a parent still
/// holding an owned identity is replaced by the arena address the table
/// recorded first for that identity, or by an absent parent when the
/// identity was never flattened — that case is surfaced by returning
/// the identities that could not be resolved.
pub fn resolve_parents(arena: &mut Arena, layer_ptrs: &Vec<(u64, usize)>) -> (unresolved: Vec<u64>)
    requires
        forall|k: int|
            0 <= k < layer_ptrs@.len() ==> (#[trigger] layer_ptrs@[k]).1 < old(arena).layers@.len(),
    ensures
        forall|i: int|
            0 <= i < final(arena).layers@.len() ==> (match (#[trigger] final(arena).layers@[i]).parent {
                FlatParent::Addr(t) => t < final(arena).layers@.len() || old(arena).layers@[i].parent == FlatParent::Addr(t),
                _ => true,
            }),
        final(arena).curve_keys@ == old(arena).curve_keys@,
        final(arena).names@ == old(arena).names@,
        final(arena).markers@ == old(arena).markers@,
        final(arena).video_sources@ == old(arena).video_sources@,
        final(arena).videos@ == old(arena).videos@,
        final(arena).audios@ == old(arena).audios@,
        final(arena).layer_videos@ == old(arena).layer_videos@,
        final(arena).layer_video_3ds@ == old(arena).layer_video_3ds@,
        final(arena).layer_audios@ == old(arena).layer_audios@,
        final(arena).comps@ == old(arena).comps@,
        final(arena).cameras@ == old(arena).cameras@,
        final(arena).scenes@ == old(arena).scenes@,
        final(arena).layers@.len() == old(arena).layers@.len(),
        forall|i: int|
            0 <= i < old(arena).layers@.len() ==> layer_same_mod_parent(
                #[trigger] final(arena).layers@[i],
                old(arena).layers@[i],
            ) && final(arena).layers@[i].parent == (match old(arena).layers@[i].parent {
                FlatParent::Pending(p) => (match ptr_lookup(layer_ptrs@, p) {
                    Option::Some(idx) => FlatParent::Addr(idx),
                    Option::None => FlatParent::Absent,
                }),
                other => other,
            }),
        forall|i: int|
            0 <= i < old(arena).layers@.len() ==> (match (#[trigger] old(arena).layers@[i]).parent {
                FlatParent::Pending(p) => ptr_lookup(layer_ptrs@, p) is None
                    ==> unresolved@.contains(p),
                _ => true,
            }),
{
    let mut unresolved: Vec<u64> = Vec::new();
    let n = arena.layers.len();
    let mut i: usize = 0;
    while i < n
        invariant
            0 <= i <= n,
            n == arena.layers@.len(),
            n == old(arena).layers@.len(),
            arena.curve_keys@ == old(arena).curve_keys@,
            arena.names@ == old(arena).names@,
            arena.markers@ == old(arena).markers@,
            arena.video_sources@ == old(arena).video_sources@,
            arena.videos@ == old(arena).videos@,
            arena.audios@ == old(arena).audios@,
            arena.layer_videos@ == old(arena).layer_videos@,
            arena.layer_video_3ds@ == old(arena).layer_video_3ds@,
            arena.layer_audios@ == old(arena).layer_audios@,
            arena.comps@ == old(arena).comps@,
            arena.cameras@ == old(arena).cameras@,
            arena.scenes@ == old(arena).scenes@,
            forall|t: int| i <= t < n ==> arena.layers@[t] == old(arena).layers@[t],
            forall|k: int|
                0 <= k < layer_ptrs@.len() ==> (#[trigger] layer_ptrs@[k]).1 < old(arena).layers@.len(),
            forall|t: int|
                0 <= t < i ==> (match (#[trigger] arena.layers@[t]).parent {
                    FlatParent::Addr(x) => x < arena.layers@.len() || old(arena).layers@[t].parent
                        == FlatParent::Addr(x),
                    _ => true,
                }),
            forall|t: int|
                0 <= t < i ==> layer_same_mod_parent(
                    #[trigger] arena.layers@[t],
                    old(arena).layers@[t],
                ) && arena.layers@[t].parent == (match old(arena).layers@[t].parent {
                    FlatParent::Pending(p) => (match ptr_lookup(layer_ptrs@, p) {
                        Option::Some(idx) => FlatParent::Addr(idx),
                        Option::None => FlatParent::Absent,
                    }),
                    other => other,
                }),
            forall|t: int|
                0 <= t < i ==> (match (#[trigger] old(arena).layers@[t]).parent {
                    FlatParent::Pending(p) => ptr_lookup(layer_ptrs@, p) is None
                        ==> unresolved@.contains(p),
                    _ => true,
                }),
        decreases n - i,
    {
        let mut rec = arena.layers[i];
        match rec.parent {
            FlatParent::Pending(p) => {
                match lookup_ptr(layer_ptrs, p) {
                    Option::Some(idx) => {
                        proof {
                            lemma_ptr_lookup_member(layer_ptrs@, p);
                        }
                        rec.parent = FlatParent::Addr(idx);
                    },
                    Option::None => {
                        rec.parent = FlatParent::Absent;
                        let ghost before_un = unresolved@;
                        unresolved.push(p);
                        proof {
                            assert(unresolved@[before_un.len() as int] == p);
                            assert forall|q: u64| before_un.contains(q) implies unresolved@.contains(
                                q,
                            ) by {
                                let wi = choose|wi: int|
                                    0 <= wi < before_un.len() && before_un[wi] == q;
                                assert(unresolved@[wi] == q);
                            }
                        }
                    },
                }
                arena.layers[i] = rec;
            },
            _ => {},
        }
        i += 1;
    }
    unresolved
}

/// The scene record denotes the owned scene with parents resolved: like
/// the pending form, but the root composition is related without parent
/// fields.
pub open spec fn scene_matches(a: Arena, fs: FlatScene, own: Scene) -> bool {
    &&& fs.name < a.names@.len()
    &&& a.names@[fs.name as int]@ == own.name@
    &&& eq_scalar(own.start_time, fs.start_time)
    &&& eq_scalar(own.end_time, fs.end_time)
    &&& eq_scalar(own.fps, fs.fps)
    &&& fs.color@ == own.color@
    &&& fs.width == own.width
    &&& fs.height == own.height
    &&& match (fs.camera, own.camera) {
        (Option::None, Option::None) => true,
        (Option::Some(i), Option::Some(c)) => i < a.cameras@.len() && camera_matches(
            a,
            a.cameras@[i as int],
            c,
        ),
        _ => false,
    }
    &&& fs.comp_count >= 1
    &&& fs.comp + fs.comp_count <= a.comps@.len()
    &&& comp_matches(a, fs.comp + fs.comp_count - 1, own.root)
}

/// Deduplication equality is stronger than parent-free correspondence.
pub proof fn lemma_layer_flat_eq_implies_matches(a: Arena, fl: FlatLayer, own: Layer)
    requires
        layer_flat_eq(a, fl, own),
    ensures
        layer_matches(a, fl, own),
        item_matches(a, fl.item, own.item),
    decreases own, 1int,
{
    lemma_item_flat_eq_implies_matches(a, fl.item, own.item);
}

/// Deduplication equality of items is stronger than parent-free
/// correspondence.
pub proof fn lemma_item_flat_eq_implies_matches(a: Arena, fi: FlatItem, own: Item)
    requires
        item_flat_eq(a, fi, own),
    ensures
        item_matches(a, fi, own),
    decreases own, 2int,
{
    match (fi, own) {
        (FlatItem::Composition(ci), Item::Composition(c)) => {
            lemma_comp_flat_eq_implies_matches(a, ci as int, c);
        },
        _ => {},
    }
}

/// Deduplication equality of compositions is stronger than parent-free
/// correspondence.
pub proof fn lemma_comp_flat_eq_implies_matches(a: Arena, ci: int, own: Composition)
    requires
        comp_flat_eq(a, ci, own),
    ensures
        comp_matches(a, ci, own),
    decreases own, 0int,
{
    let fc = a.comps@[ci];
    assert forall|j: int| 0 <= j < own.layers@.len() implies layer_matches(
        a,
        #[trigger] a.layers@[fc.layers + j],
        own.layers@[j],
    ) && item_matches(a, a.layers@[fc.layers + j].item, own.layers@[j].item) by {
        lemma_layer_flat_eq_implies_matches(a, a.layers@[fc.layers + j], own.layers@[j]);
    }
}

/// Rewriting parent fields changes no parent-free correspondence.
pub proof fn lemma_item_matches_parent_frame(b: Arena, a: Arena, fi: FlatItem, own: Item)
    requires
        b.curve_keys@ == a.curve_keys@,
        b.names@ == a.names@,
        b.markers@ == a.markers@,
        b.video_sources@ == a.video_sources@,
        b.videos@ == a.videos@,
        b.audios@ == a.audios@,
        b.layer_videos@ == a.layer_videos@,
        b.layer_video_3ds@ == a.layer_video_3ds@,
        b.layer_audios@ == a.layer_audios@,
        b.comps@ == a.comps@,
        b.layers@.len() == a.layers@.len(),
        forall|i: int|
            0 <= i < a.layers@.len() ==> layer_same_mod_parent(
                #[trigger] b.layers@[i],
                a.layers@[i],
            ),
        item_matches(a, fi, own),
    ensures
        item_matches(b, fi, own),
    decreases own, 1int,
{
    match (fi, own) {
        (FlatItem::Composition(ci), Item::Composition(c)) => {
            lemma_comp_matches_parent_frame(b, a, ci as int, c);
        },
        _ => {},
    }
}

/// Rewriting parent fields changes no parent-free correspondence of
/// compositions.
pub proof fn lemma_comp_matches_parent_frame(b: Arena, a: Arena, ci: int, own: Composition)
    requires
        b.curve_keys@ == a.curve_keys@,
        b.names@ == a.names@,
        b.markers@ == a.markers@,
        b.video_sources@ == a.video_sources@,
        b.videos@ == a.videos@,
        b.audios@ == a.audios@,
        b.layer_videos@ == a.layer_videos@,
        b.layer_video_3ds@ == a.layer_video_3ds@,
        b.layer_audios@ == a.layer_audios@,
        b.comps@ == a.comps@,
        b.layers@.len() == a.layers@.len(),
        forall|i: int|
            0 <= i < a.layers@.len() ==> layer_same_mod_parent(
                #[trigger] b.layers@[i],
                a.layers@[i],
            ),
        comp_matches(a, ci, own),
    ensures
        comp_matches(b, ci, own),
    decreases own, 0int,
{
    let fc = a.comps@[ci];
    assert forall|j: int| 0 <= j < own.layers@.len() implies layer_matches(
        b,
        #[trigger] b.layers@[fc.layers + j],
        own.layers@[j],
    ) && item_matches(b, b.layers@[fc.layers + j].item, own.layers@[j].item) by {
        assert(layer_same_mod_parent(b.layers@[fc.layers + j], a.layers@[fc.layers + j]));
        assert(layer_matches(a, a.layers@[fc.layers + j], own.layers@[j]));
        lemma_item_matches_parent_frame(
            b,
            a,
            a.layers@[fc.layers + j].item,
            own.layers@[j].item,
        );
    }
}

/// A scene record with pending parents carries over to any extension.
pub proof fn lemma_scene_rec_matches_extend(b: Arena, a: Arena, fs: FlatScene, own: Scene)
    requires
        arena_wf(a),
        arena_extends(b, a),
        scene_rec_matches(a, fs, own),
    ensures
        scene_rec_matches(b, fs, own),
{
    match (fs.camera, own.camera) {
        (Option::Some(i), Option::Some(c)) => {
            assert(b.cameras@[i as int] == a.cameras@[i as int]);
            lemma_camera_matches_extend(b, a, a.cameras@[i as int], c);
        },
        _ => {},
    }
    assert(b.comps@[fs.comp + fs.comp_count - 1] == a.comps@[fs.comp + fs.comp_count - 1]);
    lemma_comp_flat_eq_extend(b, a, fs.comp + fs.comp_count - 1, own.root);
}

/// Flattens a whole owned scene set into one pre-sized arena, scene by
/// scene, and then runs the parent fix-up pass over every layer record.
/// No table ever grows past the counting pass's tally for its category,
/// so nothing already emitted ever moves; categories the flattener
/// deduplicates may stay smaller.  An identity that the fix-up pass
/// could not resolve is returned alongside the arena rather than left
/// dangling.
#[verifier::rlimit(100)]
pub fn flatten(set: &SceneSet) -> (r: (FlatSet, Vec<u64>))
    requires
        set_bounded(*set),
        counts_fit_usize(counts_set(*set)),
    ensures
        arena_wf(r.0.arena),
        r.0.modern == set.modern,
        r.0.big_endian == set.big_endian,
        r.0.is_x == set.is_x,
        r.0.arena.scenes@.len() == set.scenes@.len(),
        gle(arena_lens(r.0.arena), counts_set(*set)),
        arena_lens(r.0.arena).scene_count == counts_set(*set).scene_count,
        arena_lens(r.0.arena).camera_count == counts_set(*set).camera_count,
        forall|i: int|
            0 <= i < r.0.arena.layers@.len() ==> !((#[trigger] r.0.arena.layers@[i]).parent
                is Pending),
        forall|i: int|
            0 <= i < r.0.arena.layers@.len() ==> (match (#[trigger] r.0.arena.layers@[i]).parent {
                FlatParent::Addr(t) => t < r.0.arena.layers@.len(),
                _ => true,
            }),
        set_canonical(*set) ==> forall|i: int|
            0 <= i < set.scenes@.len() ==> scene_matches(
                r.0.arena,
                #[trigger] r.0.arena.scenes@[i],
                set.scenes@[i],
            ),
        set_canonical(*set) ==> (exists|tbl: Seq<(u64, usize)>|
            #![trigger tbl.len()]
            {
                &&& forall|k: int| 0 <= k < tbl.len() ==> (#[trigger] tbl[k]).1 < r.0.arena.layers@.len()
                &&& forall|i: int, j: int|
                    0 <= i < set.scenes@.len() && 0 <= j < set.scenes@[i].root.layers@.len()
                        ==> tbl.contains(
                        (
                            (#[trigger] set.scenes@[i].root.layers@[j]).id,
                            (r.0.arena.comps@[scene_root_ci(r.0.arena, i)].layers + j) as usize,
                        ),
                    )
                &&& forall|i: int|
                    0 <= i < set.scenes@.len() ==> comp_parents_encoded(
                        r.0.arena,
                        tbl,
                        scene_root_ci(r.0.arena, i),
                        (#[trigger] set.scenes@[i]).root,
                    )
            }),
{
    let mut arena = Arena::new();
    let mut table: Vec<FlatCurve> = Vec::new();
    let mut layer_ptrs: Vec<(u64, usize)> = Vec::new();
    let n = set.scenes.len();
    let mut j: usize = 0;
    proof {
        lemma_counts_scenes_upto_nonneg(set.scenes@, set.scenes@.len() as int);
    }
    while j < n
        invariant
            0 <= j <= n,
            n == set.scenes@.len(),
            arena_wf(arena),
            curve_table_wf(arena.curve_keys@, table@),
            set_bounded(*set),
            counts_fit_usize(counts_set(*set)),
            arena.scenes@.len() == j,
            forall|k: int|
                0 <= k < layer_ptrs@.len() ==> (#[trigger] layer_ptrs@[k]).1
                    < arena.layers@.len(),
            forall|i: int|
                0 <= i < arena.layers@.len() ==> !((#[trigger] arena.layers@[i]).parent is Addr),
            arena_lens(arena).scene_count == counts_scenes_upto(set.scenes@, j as int).scene_count,
            arena_lens(arena).camera_count == counts_scenes_upto(
                set.scenes@,
                j as int,
            ).camera_count,
            gle(arena_lens(arena), counts_scenes_upto(set.scenes@, j as int)),
            layer_ptrs@.len() <= counts_scenes_upto(set.scenes@, j as int).layer_count,
            set_canonical(*set) ==> forall|i: int|
                0 <= i < j ==> scene_rec_matches(
                    arena,
                    #[trigger] arena.scenes@[i],
                    set.scenes@[i],
                ),
            forall|i: int, jj: int|
                0 <= i < j && 0 <= jj < set.scenes@[i].root.layers@.len() ==> layer_ptrs@.contains(
                    (
                        (#[trigger] set.scenes@[i].root.layers@[jj]).id,
                        (arena.comps@[scene_root_ci(arena, i)].layers + jj) as usize,
                    ),
                ),
        decreases n - j,
    {
        proof {
            lemma_counts_scenes_upto_mono(set.scenes@, j + 1, set.scenes@.len() as int);
            lemma_counts_scenes_upto_nonneg(set.scenes@, j as int);
            lemma_counts_scene_nonneg(set.scenes@[j as int]);
            lemma_counts_scene_tallies(set.scenes@[j as int]);
            assert(counts_scenes_upto(set.scenes@, j + 1) == gadd(
                counts_scenes_upto(set.scenes@, j as int),
                counts_scene(set.scenes@[j as int]),
            ));
        }
        let ghost before = arena;
        let ghost ptrs_before = layer_ptrs@;
        flatten_scene(&set.scenes[j], &mut arena, &mut table, &mut layer_ptrs);
        proof {
            assert forall|i: int, jj: int|
                0 <= i < j + 1 && 0 <= jj < set.scenes@[i].root.layers@.len() implies layer_ptrs@.contains(
                (
                    (#[trigger] set.scenes@[i].root.layers@[jj]).id,
                    (arena.comps@[scene_root_ci(arena, i)].layers + jj) as usize,
                ),
            ) by {
                if i < j {
                    assert(arena.scenes@[i] == before.scenes@[i]);
                    assert(arena.comps@[scene_root_ci(arena, i)] == before.comps@[scene_root_ci(
                        before,
                        i,
                    )]);
                    lemma_prefix_contains(
                        ptrs_before,
                        layer_ptrs@,
                        (
                            set.scenes@[i].root.layers@[jj].id,
                            (before.comps@[scene_root_ci(before, i)].layers + jj) as usize,
                        ),
                    );
                }
            }
            if set_canonical(*set) {
                assert forall|i: int| 0 <= i < j implies scene_rec_matches(
                    arena,
                    #[trigger] arena.scenes@[i],
                    set.scenes@[i],
                ) by {
                    assert(arena.scenes@[i] == before.scenes@[i]);
                    lemma_scene_rec_matches_extend(arena, before, before.scenes@[i], set.scenes@[i]);
                }
                assert(scene_canonical(set.scenes@[j as int]));
            }
        }
        j += 1;
    }
    let ghost pre_fix = arena;
    let unresolved = resolve_parents(&mut arena, &layer_ptrs);
    proof {
        assert(arena_wf(arena)) by {
            assert forall|i: int| 0 <= i < arena.markers@.len() implies marker_ok(
                arena,
                #[trigger] arena.markers@[i],
            ) by {
                assert(marker_ok(pre_fix, pre_fix.markers@[i]));
            }
            assert forall|i: int| 0 <= i < arena.video_sources@.len() implies source_ok(
                arena,
                #[trigger] arena.video_sources@[i],
            ) by {
                assert(source_ok(pre_fix, pre_fix.video_sources@[i]));
            }
            assert forall|i: int| 0 <= i < arena.videos@.len() implies video_ok(
                arena,
                #[trigger] arena.videos@[i],
            ) by {
                assert(video_ok(pre_fix, pre_fix.videos@[i]));
            }
            assert forall|i: int| 0 <= i < arena.layer_videos@.len() implies layer_video_ok(
                arena,
                #[trigger] arena.layer_videos@[i],
            ) by {
                assert(layer_video_ok(pre_fix, pre_fix.layer_videos@[i]));
            }
            assert forall|i: int| 0 <= i < arena.layer_video_3ds@.len() implies layer_video_3d_ok(
                arena,
                #[trigger] arena.layer_video_3ds@[i],
            ) by {
                assert(layer_video_3d_ok(pre_fix, pre_fix.layer_video_3ds@[i]));
            }
            assert forall|i: int| 0 <= i < arena.layer_audios@.len() implies layer_audio_ok(
                arena,
                #[trigger] arena.layer_audios@[i],
            ) by {
                assert(layer_audio_ok(pre_fix, pre_fix.layer_audios@[i]));
            }
            assert forall|ci: int| 0 <= ci < arena.comps@.len() implies comp_ok(arena, ci) by {
                assert(comp_ok(pre_fix, ci));
                let c = arena.comps@[ci];
                assert forall|t: int|
                    c.layers <= t < c.layers + c.layers_count implies layer_ok(
                    arena,
                    #[trigger] arena.layers@[t],
                    ci,
                ) by {
                    assert(layer_same_mod_parent(arena.layers@[t], pre_fix.layers@[t]));
                    assert(layer_ok(pre_fix, pre_fix.layers@[t], ci));
                }
            }
            assert forall|i: int| 0 <= i < arena.cameras@.len() implies camera_ok(
                arena,
                #[trigger] arena.cameras@[i],
            ) by {
                assert(camera_ok(pre_fix, pre_fix.cameras@[i]));
            }
            assert forall|i: int| 0 <= i < arena.scenes@.len() implies scene_ok(
                arena,
                #[trigger] arena.scenes@[i],
            ) by {
                assert(scene_ok(pre_fix, pre_fix.scenes@[i]));
            }
        }
        if set_canonical(*set) {
            assert forall|i: int| 0 <= i < set.scenes@.len() implies scene_matches(
                arena,
                #[trigger] arena.scenes@[i],
                set.scenes@[i],
            ) && comp_parents_encoded(
                arena,
                layer_ptrs@,
                scene_root_ci(arena, i),
                set.scenes@[i].root,
            ) by {
                assert(scene_rec_matches(pre_fix, pre_fix.scenes@[i], set.scenes@[i]));
                let fs = pre_fix.scenes@[i];
                lemma_comp_flat_eq_implies_matches(pre_fix, fs.comp + fs.comp_count - 1, set.scenes@[i].root);
                lemma_comp_matches_parent_frame(
                    arena,
                    pre_fix,
                    fs.comp + fs.comp_count - 1,
                    set.scenes@[i].root,
                );
                lemma_parents_encoded(
                    pre_fix,
                    arena,
                    layer_ptrs@,
                    fs.comp + fs.comp_count - 1,
                    set.scenes@[i].root,
                );
                assert(arena.scenes@[i] == fs);
            }
        }
    }
    (FlatSet { modern: set.modern, big_endian: set.big_endian, is_x: set.is_x, arena }, unresolved)
}

} // verus!
