use vstd::prelude::*;

use crate::model::{
    curve_absent, Camera, Composition, FCurve, FCurveKey, Item, Layer, LayerAudio, LayerVideo,
    Scene, SceneSet,
};

verus! {

/// The per-category record counts of a graph, as unbounded integers.
/// This is the mathematical value the counting pass computes; the
/// flattener may emit fewer records than this in categories it
/// deduplicates, never more.
pub struct GCounts {
    pub audio_count: int,
    pub camera_count: int,
    pub comp_count: int,
    pub fcurve_key_count: int,
    pub layer_audio_count: int,
    pub layer_count: int,
    pub layer_video_3d_count: int,
    pub layer_video_count: int,
    pub marker_count: int,
    pub name_count: int,
    pub scene_count: int,
    pub video_count: int,
    pub video_source_count: int,
}

/// The zero count.
pub open spec fn gzero() -> GCounts {
    GCounts {
        audio_count: 0,
        camera_count: 0,
        comp_count: 0,
        fcurve_key_count: 0,
        layer_audio_count: 0,
        layer_count: 0,
        layer_video_3d_count: 0,
        layer_video_count: 0,
        marker_count: 0,
        name_count: 0,
        scene_count: 0,
        video_count: 0,
        video_source_count: 0,
    }
}

/// Field-wise addition of counts.
pub open spec fn gadd(a: GCounts, b: GCounts) -> GCounts {
    GCounts {
        audio_count: a.audio_count + b.audio_count,
        camera_count: a.camera_count + b.camera_count,
        comp_count: a.comp_count + b.comp_count,
        fcurve_key_count: a.fcurve_key_count + b.fcurve_key_count,
        layer_audio_count: a.layer_audio_count + b.layer_audio_count,
        layer_count: a.layer_count + b.layer_count,
        layer_video_3d_count: a.layer_video_3d_count + b.layer_video_3d_count,
        layer_video_count: a.layer_video_count + b.layer_video_count,
        marker_count: a.marker_count + b.marker_count,
        name_count: a.name_count + b.name_count,
        scene_count: a.scene_count + b.scene_count,
        video_count: a.video_count + b.video_count,
        video_source_count: a.video_source_count + b.video_source_count,
    }
}

/// How many scalars a curve's encoding would append to the pool if it is
/// not deduplicated: none for an absent curve, one for a single nonzero
/// sample, three per sample otherwise.
pub open spec fn count_curve_keys(c: Seq<FCurveKey>) -> int {
    if curve_absent(c) {
        0
    } else if c.len() == 1 {
        1
    } else {
        3 * c.len() as int
    }
}

/// A count with only curve scalars.
pub open spec fn gkeys(n: int) -> GCounts {
    GCounts { fcurve_key_count: n, ..gzero() }
}

/// The counts of a layer video block: one block record, the optional
/// three-dimensional record, and the scalars of its curves.
pub open spec fn counts_layer_video(v: LayerVideo) -> GCounts {
    let base = count_curve_keys(v.anchor_x.keys@) + count_curve_keys(v.anchor_y.keys@)
        + count_curve_keys(v.pos_x.keys@) + count_curve_keys(v.pos_y.keys@) + count_curve_keys(
        v.rot_z.keys@,
    ) + count_curve_keys(v.scale_x.keys@) + count_curve_keys(v.scale_y.keys@) + count_curve_keys(
        v.opacity.keys@,
    );
    match v._3d {
        Option::None => GCounts { layer_video_count: 1, fcurve_key_count: base, ..gzero() },
        Option::Some(x) => GCounts {
            layer_video_count: 1,
            layer_video_3d_count: 1,
            fcurve_key_count: base + count_curve_keys(x.anchor_z.keys@) + count_curve_keys(
                x.pos_z.keys@,
            ) + count_curve_keys(x.dir_x.keys@) + count_curve_keys(x.dir_y.keys@)
                + count_curve_keys(x.dir_z.keys@) + count_curve_keys(x.rot_x.keys@)
                + count_curve_keys(x.rot_y.keys@) + count_curve_keys(x.scale_z.keys@),
            ..gzero()
        },
    }
}

/// The counts of a layer audio block: one block record and the scalars
/// of its four curves.
pub open spec fn counts_layer_audio(v: LayerAudio) -> GCounts {
    GCounts {
        layer_audio_count: 1,
        fcurve_key_count: count_curve_keys(v.volume_l.keys@) + count_curve_keys(v.volume_r.keys@)
            + count_curve_keys(v.pan_l.keys@) + count_curve_keys(v.pan_r.keys@),
        ..gzero()
    }
}

/// The counts of a camera: one camera record and the scalars of its
/// thirteen curves.
pub open spec fn counts_camera(c: Camera) -> GCounts {
    GCounts {
        camera_count: 1,
        fcurve_key_count: count_curve_keys(c.eye_x.keys@) + count_curve_keys(c.eye_y.keys@)
            + count_curve_keys(c.eye_z.keys@) + count_curve_keys(c.pos_x.keys@) + count_curve_keys(
            c.pos_y.keys@,
        ) + count_curve_keys(c.pos_z.keys@) + count_curve_keys(c.dir_x.keys@) + count_curve_keys(
            c.dir_y.keys@,
        ) + count_curve_keys(c.dir_z.keys@) + count_curve_keys(c.rot_x.keys@) + count_curve_keys(
            c.rot_y.keys@,
        ) + count_curve_keys(c.rot_z.keys@) + count_curve_keys(c.zoom.keys@),
        ..gzero()
    }
}

/// The counts of a layer's own record and blocks, without its item: the
/// layer record, its name, its markers and their names, and its
/// optional video and audio blocks.
pub open spec fn counts_layer_shallow(l: Layer) -> GCounts {
    let base = GCounts {
        layer_count: 1,
        name_count: 1 + l.markers@.len() as int,
        marker_count: l.markers@.len() as int,
        ..gzero()
    };
    let with_video = match l.video {
        Option::Some(v) => gadd(base, counts_layer_video(v)),
        Option::None => base,
    };
    match l.audio {
        Option::Some(v) => gadd(with_video, counts_layer_audio(v)),
        Option::None => with_video,
    }
}

/// The counts of a layer: its own record and blocks, and its item.
pub open spec fn counts_layer(l: Layer) -> GCounts
    decreases l, 1int,
{
    gadd(counts_layer_shallow(l), counts_item(l.item))
}

/// The counts of an item: nothing, a video record with its sources and
/// their names, an audio record, or a whole nested composition.
pub open spec fn counts_item(it: Item) -> GCounts
    decreases it, 1int,
{
    match it {
        Item::Empty => gzero(),
        Item::Video(v) => GCounts {
            video_count: 1,
            video_source_count: v.sources@.len() as int,
            name_count: v.sources@.len() as int,
            ..gzero()
        },
        Item::Audio(_) => GCounts { audio_count: 1, ..gzero() },
        Item::Composition(c) => counts_comp(c),
    }
}

/// The counts of the first `j` layers of a sequence.
pub open spec fn counts_layers_upto(ls: Seq<Layer>, j: int) -> GCounts
    decreases ls, j,
{
    if j <= 0 {
        gzero()
    } else if j > ls.len() {
        counts_layers_upto(ls, ls.len() as int)
    } else {
        gadd(counts_layers_upto(ls, j - 1), counts_layer(ls[j - 1]))
    }
}

/// The counts of the records and blocks of the first `j` layers,
/// without their items.
pub open spec fn counts_shallow_upto(ls: Seq<Layer>, j: int) -> GCounts
    decreases j,
{
    if j <= 0 {
        gzero()
    } else if j > ls.len() {
        counts_shallow_upto(ls, ls.len() as int)
    } else {
        gadd(counts_shallow_upto(ls, j - 1), counts_layer_shallow(ls[j - 1]))
    }
}

/// The counts of the items of the first `j` layers.
pub open spec fn counts_items_upto(ls: Seq<Layer>, j: int) -> GCounts
    decreases ls, j,
{
    if j <= 0 {
        gzero()
    } else if j > ls.len() {
        counts_items_upto(ls, ls.len() as int)
    } else {
        gadd(counts_items_upto(ls, j - 1), counts_item(ls[j - 1].item))
    }
}

/// A layer prefix's counts split into its records and blocks on one
/// side and its items on the other.
pub proof fn lemma_counts_split_upto(ls: Seq<Layer>, j: int)
    requires
        0 <= j <= ls.len(),
    ensures
        counts_layers_upto(ls, j) == gadd(counts_shallow_upto(ls, j), counts_items_upto(ls, j)),
    decreases j,
{
    if j > 0 {
        lemma_counts_split_upto(ls, j - 1);
        lemma_gadd_rearrange(
            counts_shallow_upto(ls, j - 1),
            counts_items_upto(ls, j - 1),
            counts_layer_shallow(ls[j - 1]),
            counts_item(ls[j - 1].item),
        );
        assert(counts_layers_upto(ls, j) == gadd(
            counts_layers_upto(ls, j - 1),
            counts_layer(ls[j - 1]),
        ));
        assert(counts_layer(ls[j - 1]) == gadd(
            counts_layer_shallow(ls[j - 1]),
            counts_item(ls[j - 1].item),
        ));
        assert(counts_shallow_upto(ls, j) == gadd(
            counts_shallow_upto(ls, j - 1),
            counts_layer_shallow(ls[j - 1]),
        ));
        assert(counts_items_upto(ls, j) == gadd(
            counts_items_upto(ls, j - 1),
            counts_item(ls[j - 1].item),
        ));
    }
}

/// Field-wise addition commutes and associates.
pub proof fn lemma_gadd_rearrange(a: GCounts, b: GCounts, c: GCounts, d: GCounts)
    ensures
        gadd(gadd(a, b), gadd(c, d)) == gadd(gadd(a, c), gadd(b, d)),
{
}

/// A shallow layer prefix's counts are non-negative in every category.
pub proof fn lemma_counts_shallow_upto_nonneg(ls: Seq<Layer>, j: int)
    ensures
        gnonneg(counts_shallow_upto(ls, j)),
    decreases j,
{
    if j > 0 {
        if j > ls.len() {
            lemma_counts_shallow_upto_nonneg(ls, ls.len() as int);
        } else {
            lemma_counts_shallow_upto_nonneg(ls, j - 1);
        }
    }
}

/// An item prefix's counts are non-negative in every category.
pub proof fn lemma_counts_items_upto_nonneg(ls: Seq<Layer>, j: int)
    ensures
        gnonneg(counts_items_upto(ls, j)),
    decreases ls, j,
{
    if j > 0 {
        if j > ls.len() {
            lemma_counts_items_upto_nonneg(ls, ls.len() as int);
        } else {
            lemma_counts_items_upto_nonneg(ls, j - 1);
            lemma_counts_item_nonneg(ls[j - 1].item);
        }
    }
}

/// Layers tally no scenes and no cameras: those categories belong to
/// scenes alone and are never deduplicated.
pub proof fn lemma_counts_layer_zero(l: Layer)
    ensures
        counts_layer(l).camera_count == 0,
        counts_layer(l).scene_count == 0,
    decreases l, 1int,
{
    lemma_counts_item_zero(l.item);
}

/// Items tally no scenes and no cameras.
pub proof fn lemma_counts_item_zero(it: Item)
    ensures
        counts_item(it).camera_count == 0,
        counts_item(it).scene_count == 0,
    decreases it, 1int,
{
    match it {
        Item::Composition(c) => lemma_counts_comp_zero(c),
        _ => {},
    }
}

/// Layer prefixes tally no scenes and no cameras.
pub proof fn lemma_counts_layers_upto_zero(ls: Seq<Layer>, j: int)
    ensures
        counts_layers_upto(ls, j).camera_count == 0,
        counts_layers_upto(ls, j).scene_count == 0,
    decreases ls, j,
{
    if j <= 0 {
    } else if j > ls.len() {
        lemma_counts_layers_upto_zero(ls, ls.len() as int);
    } else {
        lemma_counts_layers_upto_zero(ls, j - 1);
        lemma_counts_layer_zero(ls[j - 1]);
    }
}

/// Compositions tally no scenes and no cameras.
pub proof fn lemma_counts_comp_zero(c: Composition)
    ensures
        counts_comp(c).camera_count == 0,
        counts_comp(c).scene_count == 0,
    decreases c, 0int,
{
    lemma_counts_layers_upto_zero(c.layers@, c.layers@.len() as int);
}

/// A scene tallies exactly one scene record and exactly one camera when
/// it has one.
pub proof fn lemma_counts_scene_tallies(s: Scene)
    ensures
        counts_scene(s).scene_count == 1,
        counts_scene(s).camera_count == (match s.camera {
            Option::Some(_) => 1int,
            Option::None => 0int,
        }),
{
    lemma_counts_comp_zero(s.root);
}

/// Counting a longer shallow prefix never counts less.
pub proof fn lemma_counts_shallow_upto_mono(ls: Seq<Layer>, j: int, k: int)
    requires
        0 <= j <= k <= ls.len(),
    ensures
        gle(counts_shallow_upto(ls, j), counts_shallow_upto(ls, k)),
    decreases k - j,
{
    if j < k {
        lemma_counts_shallow_upto_mono(ls, j, k - 1);
    }
}

/// Counting a longer item prefix never counts less.
pub proof fn lemma_counts_items_upto_mono(ls: Seq<Layer>, j: int, k: int)
    requires
        0 <= j <= k <= ls.len(),
    ensures
        gle(counts_items_upto(ls, j), counts_items_upto(ls, k)),
    decreases k - j,
{
    if j < k {
        lemma_counts_items_upto_mono(ls, j, k - 1);
        lemma_counts_item_nonneg(ls[k - 1].item);
    }
}

/// A prefix of layers tallies exactly one layer record per layer.
pub proof fn lemma_shallow_layer_count(ls: Seq<Layer>, k: int)
    requires
        0 <= k <= ls.len(),
    ensures
        counts_shallow_upto(ls, k).layer_count == k,
        counts_shallow_upto(ls, k).scene_count == 0,
        counts_shallow_upto(ls, k).comp_count == 0,
        counts_shallow_upto(ls, k).camera_count == 0,
        counts_shallow_upto(ls, k).video_count == 0,
        counts_shallow_upto(ls, k).audio_count == 0,
        counts_shallow_upto(ls, k).video_source_count == 0,
    decreases k,
{
    if k > 0 {
        lemma_shallow_layer_count(ls, k - 1);
    }
}

/// The counts of a composition: one comp record and its layers.
pub open spec fn counts_comp(c: Composition) -> GCounts
    decreases c, 0int,
{
    gadd(
        GCounts { comp_count: 1, ..gzero() },
        counts_layers_upto(c.layers@, c.layers@.len() as int),
    )
}

/// The counts of a scene: one scene record, its name, its optional
/// camera, and its root composition.
pub open spec fn counts_scene(s: Scene) -> GCounts {
    let base = GCounts { scene_count: 1, name_count: 1, ..gzero() };
    let with_camera = match s.camera {
        Option::Some(c) => gadd(base, counts_camera(c)),
        Option::None => base,
    };
    gadd(with_camera, counts_comp(s.root))
}

/// The counts of the first `j` scenes of a sequence.
pub open spec fn counts_scenes_upto(ss: Seq<Scene>, j: int) -> GCounts
    decreases j,
{
    if j <= 0 {
        gzero()
    } else if j > ss.len() {
        counts_scenes_upto(ss, ss.len() as int)
    } else {
        gadd(counts_scenes_upto(ss, j - 1), counts_scene(ss[j - 1]))
    }
}

/// The counts of a whole scene set.
pub open spec fn counts_set(s: SceneSet) -> GCounts {
    counts_scenes_upto(s.scenes@, s.scenes@.len() as int)
}

/// Every field of a count is non-negative, for any graph: counts are
/// sums of record tallies.
pub open spec fn gnonneg(g: GCounts) -> bool {
    &&& g.audio_count >= 0
    &&& g.camera_count >= 0
    &&& g.comp_count >= 0
    &&& g.fcurve_key_count >= 0
    &&& g.layer_audio_count >= 0
    &&& g.layer_count >= 0
    &&& g.layer_video_3d_count >= 0
    &&& g.layer_video_count >= 0
    &&& g.marker_count >= 0
    &&& g.name_count >= 0
    &&& g.scene_count >= 0
    &&& g.video_count >= 0
    &&& g.video_source_count >= 0
}

/// The running tallies of the counting pass, one per storage category.
/// The flattener treats these as hard capacities: it never emits more
/// records of a category than the pass counted.
#[derive(Debug, Clone, Copy)]
pub struct SetCounts {
    pub audio_count: usize,
    pub camera_count: usize,
    pub comp_count: usize,
    pub fcurve_key_count: usize,
    pub layer_audio_count: usize,
    pub layer_count: usize,
    pub layer_video_3d_count: usize,
    pub layer_video_count: usize,
    pub marker_count: usize,
    pub name_count: usize,
    pub scene_count: usize,
    pub video_count: usize,
    pub video_source_count: usize,
}

/// The mathematical value of a tally.
pub open spec fn gview(c: SetCounts) -> GCounts {
    GCounts {
        audio_count: c.audio_count as int,
        camera_count: c.camera_count as int,
        comp_count: c.comp_count as int,
        fcurve_key_count: c.fcurve_key_count as int,
        layer_audio_count: c.layer_audio_count as int,
        layer_count: c.layer_count as int,
        layer_video_3d_count: c.layer_video_3d_count as int,
        layer_video_count: c.layer_video_count as int,
        marker_count: c.marker_count as int,
        name_count: c.name_count as int,
        scene_count: c.scene_count as int,
        video_count: c.video_count as int,
        video_source_count: c.video_source_count as int,
    }
}

/// Adding the given delta to a tally stays within the machine word in
/// every category.
pub open spec fn gfits(c: SetCounts, d: GCounts) -> bool {
    &&& c.audio_count + d.audio_count <= usize::MAX
    &&& c.camera_count + d.camera_count <= usize::MAX
    &&& c.comp_count + d.comp_count <= usize::MAX
    &&& c.fcurve_key_count + d.fcurve_key_count <= usize::MAX
    &&& c.layer_audio_count + d.layer_audio_count <= usize::MAX
    &&& c.layer_count + d.layer_count <= usize::MAX
    &&& c.layer_video_3d_count + d.layer_video_3d_count <= usize::MAX
    &&& c.layer_video_count + d.layer_video_count <= usize::MAX
    &&& c.marker_count + d.marker_count <= usize::MAX
    &&& c.name_count + d.name_count <= usize::MAX
    &&& c.scene_count + d.scene_count <= usize::MAX
    &&& c.video_count + d.video_count <= usize::MAX
    &&& c.video_source_count + d.video_source_count <= usize::MAX
}

impl Default for SetCounts {
    /// The zero tally.
    fn default() -> (c: SetCounts)
        ensures
            gview(c) == gzero(),
    {
        SetCounts {
            audio_count: 0,
            camera_count: 0,
            comp_count: 0,
            fcurve_key_count: 0,
            layer_audio_count: 0,
            layer_count: 0,
            layer_video_3d_count: 0,
            layer_video_count: 0,
            marker_count: 0,
            name_count: 0,
            scene_count: 0,
            video_count: 0,
            video_source_count: 0,
        }
    }
}

/// Field-wise comparison of counts.
pub open spec fn gle(a: GCounts, b: GCounts) -> bool {
    &&& a.audio_count <= b.audio_count
    &&& a.camera_count <= b.camera_count
    &&& a.comp_count <= b.comp_count
    &&& a.fcurve_key_count <= b.fcurve_key_count
    &&& a.layer_audio_count <= b.layer_audio_count
    &&& a.layer_count <= b.layer_count
    &&& a.layer_video_3d_count <= b.layer_video_3d_count
    &&& a.layer_video_count <= b.layer_video_count
    &&& a.marker_count <= b.marker_count
    &&& a.name_count <= b.name_count
    &&& a.scene_count <= b.scene_count
    &&& a.video_count <= b.video_count
    &&& a.video_source_count <= b.video_source_count
}

/// Every category of a count fits in a machine word.
pub open spec fn counts_fit_usize(g: GCounts) -> bool {
    &&& g.audio_count <= usize::MAX
    &&& g.camera_count <= usize::MAX
    &&& g.comp_count <= usize::MAX
    &&& g.fcurve_key_count <= usize::MAX
    &&& g.layer_audio_count <= usize::MAX
    &&& g.layer_count <= usize::MAX
    &&& g.layer_video_3d_count <= usize::MAX
    &&& g.layer_video_count <= usize::MAX
    &&& g.marker_count <= usize::MAX
    &&& g.name_count <= usize::MAX
    &&& g.scene_count <= usize::MAX
    &&& g.video_count <= usize::MAX
    &&& g.video_source_count <= usize::MAX
}

/// A layer's counts are non-negative in every category.
pub proof fn lemma_counts_layer_nonneg(l: Layer)
    ensures
        gnonneg(counts_layer(l)),
    decreases l, 1int,
{
    lemma_counts_item_nonneg(l.item);
}

/// An item's counts are non-negative in every category.
pub proof fn lemma_counts_item_nonneg(it: Item)
    ensures
        gnonneg(counts_item(it)),
    decreases it, 1int,
{
    match it {
        Item::Composition(c) => lemma_counts_comp_nonneg(c),
        _ => {},
    }
}

/// A layer prefix's counts are non-negative in every category.
pub proof fn lemma_counts_layers_upto_nonneg(ls: Seq<Layer>, j: int)
    ensures
        gnonneg(counts_layers_upto(ls, j)),
    decreases ls, j,
{
    if j <= 0 {
    } else if j > ls.len() {
        lemma_counts_layers_upto_nonneg(ls, ls.len() as int);
    } else {
        lemma_counts_layers_upto_nonneg(ls, j - 1);
        lemma_counts_layer_nonneg(ls[j - 1]);
    }
}

/// A composition's counts are non-negative in every category.
pub proof fn lemma_counts_comp_nonneg(c: Composition)
    ensures
        gnonneg(counts_comp(c)),
    decreases c, 0int,
{
    lemma_counts_layers_upto_nonneg(c.layers@, c.layers@.len() as int);
}

/// Counting a longer layer prefix never counts less in any category.
pub proof fn lemma_counts_layers_upto_mono(ls: Seq<Layer>, j: int, k: int)
    requires
        0 <= j <= k <= ls.len(),
    ensures
        gle(counts_layers_upto(ls, j), counts_layers_upto(ls, k)),
    decreases k - j,
{
    if j < k {
        lemma_counts_layers_upto_mono(ls, j, k - 1);
        lemma_counts_layer_nonneg(ls[k - 1]);
    }
}

/// A scene's counts are non-negative in every category.
pub proof fn lemma_counts_scene_nonneg(s: Scene)
    ensures
        gnonneg(counts_scene(s)),
{
    lemma_counts_comp_nonneg(s.root);
}

/// A scene prefix's counts are non-negative in every category.
pub proof fn lemma_counts_scenes_upto_nonneg(ss: Seq<Scene>, j: int)
    ensures
        gnonneg(counts_scenes_upto(ss, j)),
    decreases j,
{
    if j <= 0 {
    } else if j > ss.len() {
        lemma_counts_scenes_upto_nonneg(ss, ss.len() as int);
    } else {
        lemma_counts_scenes_upto_nonneg(ss, j - 1);
        lemma_counts_scene_nonneg(ss[j - 1]);
    }
}

/// Counting a longer scene prefix never counts less in any category.
pub proof fn lemma_counts_scenes_upto_mono(ss: Seq<Scene>, j: int, k: int)
    requires
        0 <= j <= k <= ss.len(),
    ensures
        gle(counts_scenes_upto(ss, j), counts_scenes_upto(ss, k)),
    decreases k - j,
{
    if j < k {
        lemma_counts_scenes_upto_mono(ss, j, k - 1);
        lemma_counts_scene_nonneg(ss[k - 1]);
    }
}

/// Adds a curve's scalar tally: nothing for an absent curve, one scalar
/// for a single nonzero sample, three per sample otherwise.
pub fn count_fcurve(fcurve: &FCurve, count: &mut SetCounts)
    requires
        gfits(*old(count), gkeys(count_curve_keys(fcurve.keys@))),
    ensures
        gview(*final(count)) == gadd(gview(*old(count)), gkeys(count_curve_keys(fcurve.keys@))),
{
    let n = fcurve.keys.len();
    if n == 0 || (n == 1 && crate::scalar::scalar_is_zero(fcurve.keys[0].value)) {
    } else if n == 1 {
        count.fcurve_key_count = count.fcurve_key_count + 1;
    } else {
        assert(count_curve_keys(fcurve.keys@) == 3 * n as int);
        count.fcurve_key_count = count.fcurve_key_count + 3 * n;
    }
    proof {
        assert(gview(*count) == gadd(gview(*old(count)), gkeys(count_curve_keys(fcurve.keys@))));
    }
}

/// Adds a layer video block's tally: the block, its optional
/// three-dimensional block, and its curves' scalars.
#[verifier::rlimit(80)]
pub fn count_layer_video(v: &LayerVideo, count: &mut SetCounts)
    requires
        gfits(*old(count), counts_layer_video(*v)),
    ensures
        gview(*final(count)) == gadd(gview(*old(count)), counts_layer_video(*v)),
{
    count.layer_video_count = count.layer_video_count + 1;
    count_fcurve(&v.anchor_x, count);
    count_fcurve(&v.anchor_y, count);
    count_fcurve(&v.pos_x, count);
    count_fcurve(&v.pos_y, count);
    count_fcurve(&v.rot_z, count);
    count_fcurve(&v.scale_x, count);
    count_fcurve(&v.scale_y, count);
    count_fcurve(&v.opacity, count);
    match &v._3d {
        Option::Some(x) => {
            count.layer_video_3d_count = count.layer_video_3d_count + 1;
            count_fcurve(&x.anchor_z, count);
            count_fcurve(&x.pos_z, count);
            count_fcurve(&x.dir_x, count);
            count_fcurve(&x.dir_y, count);
            count_fcurve(&x.dir_z, count);
            count_fcurve(&x.rot_x, count);
            count_fcurve(&x.rot_y, count);
            count_fcurve(&x.scale_z, count);
        },
        Option::None => {},
    }
    proof {
        assert(gview(*count) == gadd(gview(*old(count)), counts_layer_video(*v)));
    }
}

/// Adds a layer audio block's tally: the block and its four curves'
/// scalars.
pub fn count_layer_audio(v: &LayerAudio, count: &mut SetCounts)
    requires
        gfits(*old(count), counts_layer_audio(*v)),
    ensures
        gview(*final(count)) == gadd(gview(*old(count)), counts_layer_audio(*v)),
{
    count.layer_audio_count = count.layer_audio_count + 1;
    count_fcurve(&v.volume_l, count);
    count_fcurve(&v.volume_r, count);
    count_fcurve(&v.pan_l, count);
    count_fcurve(&v.pan_r, count);
    proof {
        assert(gview(*count) == gadd(gview(*old(count)), counts_layer_audio(*v)));
    }
}

/// Adds a camera's tally: the camera and its thirteen curves' scalars.
pub fn count_camera(c: &Camera, count: &mut SetCounts)
    requires
        gfits(*old(count), counts_camera(*c)),
    ensures
        gview(*final(count)) == gadd(gview(*old(count)), counts_camera(*c)),
{
    count.camera_count = count.camera_count + 1;
    count_fcurve(&c.eye_x, count);
    count_fcurve(&c.eye_y, count);
    count_fcurve(&c.eye_z, count);
    count_fcurve(&c.pos_x, count);
    count_fcurve(&c.pos_y, count);
    count_fcurve(&c.pos_z, count);
    count_fcurve(&c.dir_x, count);
    count_fcurve(&c.dir_y, count);
    count_fcurve(&c.dir_z, count);
    count_fcurve(&c.rot_x, count);
    count_fcurve(&c.rot_y, count);
    count_fcurve(&c.rot_z, count);
    count_fcurve(&c.zoom, count);
    proof {
        assert(gview(*count) == gadd(gview(*old(count)), counts_camera(*c)));
    }
}

/// Adds one layer's tally: the layer record, its name, its markers and
/// their names, its blocks, and its item, recursing into a nested
/// composition.
#[verifier::rlimit(80)]
pub fn count_layer(l: &Layer, count: &mut SetCounts)
    requires
        gfits(*old(count), counts_layer(*l)),
    ensures
        gview(*final(count)) == gadd(gview(*old(count)), counts_layer(*l)),
    decreases *l, 1int,
{
    proof {
        lemma_counts_item_nonneg(l.item);
    }
    count.layer_count = count.layer_count + 1;
    count.name_count = count.name_count + 1;
    count.marker_count = count.marker_count + l.markers.len();
    count.name_count = count.name_count + l.markers.len();
    match &l.video {
        Option::Some(v) => count_layer_video(v, count),
        Option::None => {},
    }
    match &l.audio {
        Option::Some(v) => count_layer_audio(v, count),
        Option::None => {},
    }
    match &l.item {
        Item::Empty => {},
        Item::Video(v) => {
            count.video_count = count.video_count + 1;
            count.video_source_count = count.video_source_count + v.sources.len();
            count.name_count = count.name_count + v.sources.len();
        },
        Item::Audio(_) => {
            count.audio_count = count.audio_count + 1;
        },
        Item::Composition(c) => {
            count_comp(c, count);
        },
    }
    proof {
        assert(gview(*count) == gadd(gview(*old(count)), counts_layer(*l)));
    }
}

/// Walks a composition once, purely for counting, visiting every layer
/// in order and recursing into nested compositions, and adds exactly the
/// composition's tally in every category.  The flattener preallocates to
/// these tallies, so no append can move a record already emitted.
pub fn count_comp(comp: &Composition, count: &mut SetCounts)
    requires
        gfits(*old(count), counts_comp(*comp)),
    ensures
        gview(*final(count)) == gadd(gview(*old(count)), counts_comp(*comp)),
    decreases *comp, 0int,
{
    proof {
        lemma_counts_layers_upto_nonneg(comp.layers@, comp.layers@.len() as int);
    }
    count.comp_count = count.comp_count + 1;
    let ghost base = gview(*count);
    let n = comp.layers.len();
    let mut j: usize = 0;
    while j < n
        invariant
            0 <= j <= n,
            n == comp.layers@.len(),
            gview(*count) == gadd(base, counts_layers_upto(comp.layers@, j as int)),
            gfits(*old(count), counts_comp(*comp)),
            base == gadd(gview(*old(count)), GCounts { comp_count: 1, ..gzero() }),
        decreases n - j,
    {
        proof {
            lemma_counts_layers_upto_mono(comp.layers@, j + 1, comp.layers@.len() as int);
            lemma_counts_layers_upto_nonneg(comp.layers@, j as int);
            lemma_counts_layer_nonneg(comp.layers@[j as int]);
        }
        count_layer(&comp.layers[j], count);
        j += 1;
    }
}

/// Adds one scene's tally: the scene record, its name, its optional
/// camera, and its root composition.
pub fn count_scene(s: &Scene, count: &mut SetCounts)
    requires
        gfits(*old(count), counts_scene(*s)),
    ensures
        gview(*final(count)) == gadd(gview(*old(count)), counts_scene(*s)),
{
    proof {
        lemma_counts_comp_nonneg(s.root);
    }
    count.scene_count = count.scene_count + 1;
    count.name_count = count.name_count + 1;
    match &s.camera {
        Option::Some(c) => count_camera(c, count),
        Option::None => {},
    }
    count_comp(&s.root, count);
    proof {
        assert(gview(*count) == gadd(gview(*old(count)), counts_scene(*s)));
    }
}

/// The counting pass: walks the whole owned graph once and returns the
/// exact structural tally of every storage category.  These tallies are
/// the capacities the flattener allocates once; categories it
/// deduplicates may end up smaller, never larger.
pub fn count_set(s: &SceneSet) -> (count: SetCounts)
    requires
        counts_fit_usize(counts_set(*s)),
    ensures
        gview(count) == counts_set(*s),
{
    let mut count = SetCounts::default();
    let n = s.scenes.len();
    let mut j: usize = 0;
    while j < n
        invariant
            0 <= j <= n,
            n == s.scenes@.len(),
            gview(count) == counts_scenes_upto(s.scenes@, j as int),
            counts_fit_usize(counts_set(*s)),
        decreases n - j,
    {
        proof {
            lemma_counts_scenes_upto_mono(s.scenes@, j + 1, s.scenes@.len() as int);
            lemma_counts_scenes_upto_nonneg(s.scenes@, j as int);
            lemma_counts_scene_nonneg(s.scenes@[j as int]);
        }
        count_scene(&s.scenes[j], &mut count);
        j += 1;
    }
    count
}

} // verus!
