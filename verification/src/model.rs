use vstd::prelude::*;

use crate::flags::{BlendMode, LayerFlags, LayerQuality};
use crate::scalar::{eq_scalar, is_zero_scalar};

verus! {

/// One sample of a parametric animation curve.  The three scalars are the
/// 32-bit encodings of the sample's frame, value and outgoing tangent.
#[derive(Debug, Clone, Copy, PartialEq, Eq, Structural)]
pub struct FCurveKey {
    pub frame: u32,
    pub value: u32,
    pub tangent: u32,
}

/// A parametric animation curve: an ordered sequence of samples.  A curve
/// with no samples means "always zero"; a curve with one sample is a
/// constant; a curve with two or more samples is interpolated between
/// neighbouring samples.  The codec only ever compares sample scalars for
/// value equality; it never evaluates the interpolation.
#[derive(Debug, Clone)]
pub struct FCurve {
    pub keys: Vec<FCurveKey>,
}

/// How a layer's video is blended over what is below it.
#[derive(Debug, Clone, Copy, PartialEq, Eq, Structural)]
pub struct TransferMode {
    pub mode: BlendMode,
    pub flag: u8,
    pub matte: u8,
}

/// The additional parameter block of a three-dimensional layer video.
#[derive(Debug)]
pub struct LayerVideo3D {
    pub anchor_z: FCurve,
    pub pos_z: FCurve,
    pub dir_x: FCurve,
    pub dir_y: FCurve,
    pub dir_z: FCurve,
    pub rot_x: FCurve,
    pub rot_y: FCurve,
    pub scale_z: FCurve,
}

/// The video parameter block of a layer: transform and opacity curves,
/// with an optional three-dimensional extension.
#[derive(Debug)]
pub struct LayerVideo {
    pub transfer_mode: TransferMode,
    pub anchor_x: FCurve,
    pub anchor_y: FCurve,
    pub pos_x: FCurve,
    pub pos_y: FCurve,
    pub rot_z: FCurve,
    pub scale_x: FCurve,
    pub scale_y: FCurve,
    pub opacity: FCurve,
    pub _3d: Option<LayerVideo3D>,
}

/// The audio parameter block of a layer: stereo volume and pan curves.
#[derive(Debug)]
pub struct LayerAudio {
    pub volume_l: FCurve,
    pub volume_r: FCurve,
    pub pan_l: FCurve,
    pub pan_r: FCurve,
}

/// The camera of a scene: twelve transform curves and a zoom curve.
#[derive(Debug, Clone)]
pub struct Camera {
    pub eye_x: FCurve,
    pub eye_y: FCurve,
    pub eye_z: FCurve,
    pub pos_x: FCurve,
    pub pos_y: FCurve,
    pub pos_z: FCurve,
    pub dir_x: FCurve,
    pub dir_y: FCurve,
    pub dir_z: FCurve,
    pub rot_x: FCurve,
    pub rot_y: FCurve,
    pub rot_z: FCurve,
    pub zoom: FCurve,
}

/// A named sprite-source reference of a video item.
#[derive(Debug, Clone)]
pub struct VideoSource {
    pub name: String,
    pub id: u32,
}

/// A video item: a placeholder colour and size, a frame duration, and an
/// ordered list of sprite sources.
#[derive(Debug, Clone)]
pub struct Video {
    pub color: [u8; 3],
    pub width: u16,
    pub height: u16,
    pub fpf: u32,
    pub sources: Vec<VideoSource>,
}

/// An audio item: an index into the surrounding application's sound table.
#[derive(Debug, Clone, Copy, PartialEq, Eq, Structural)]
pub struct Audio {
    pub sound_index: u32,
}

/// The payload of a layer: nothing, a video, an audio, or a nested
/// composition.
#[derive(Debug)]
pub enum Item {
    Empty,
    Video(Video),
    Audio(Audio),
    Composition(Composition),
}

/// A named timed element of a composition.  Layers are referred to by
/// identity: each layer carries an identifier, unique within its set, and
/// the optional parent reference names the identifier of another layer
/// anywhere in the same set.  The parent is a weak, lookup-only relation
/// used for transform inheritance; it is not the structural container.
#[derive(Debug)]
pub struct Layer {
    pub id: u64,
    pub name: String,
    pub start_time: u32,
    pub end_time: u32,
    pub offset_time: u32,
    pub time_scale: u32,
    pub flags: LayerFlags,
    pub quality: LayerQuality,
    pub item: Item,
    pub markers: Vec<(String, u32)>,
    pub video: Option<LayerVideo>,
    pub audio: Option<LayerAudio>,
    pub parent: Option<u64>,
}

/// An ordered list of layers.  Compositions nest arbitrarily through
/// layer items.
#[derive(Debug)]
pub struct Composition {
    pub layers: Vec<Layer>,
}

/// A scene: name, timing window, frame rate, background colour,
/// resolution, optional camera, and the root composition.
#[derive(Debug)]
pub struct Scene {
    pub name: String,
    pub start_time: u32,
    pub end_time: u32,
    pub fps: u32,
    pub color: [u8; 3],
    pub width: u32,
    pub height: u32,
    pub camera: Option<Camera>,
    pub root: Composition,
}

/// A collection of scenes together with the format flags of the file they
/// came from or will go to.
#[derive(Debug)]
pub struct SceneSet {
    pub modern: bool,
    pub big_endian: bool,
    pub is_x: bool,
    pub scenes: Vec<Scene>,
}

// ---------------------------------------------------------------------
// Value equality.
//
// Deduplication works by value: two records are one record exactly when
// they are equal under the relations below.  Scalars compare by value
// (the two encodings of zero are one value); names compare by their
// characters; a single-sample curve compares by its value alone, since
// its frame and tangent are not stored.  Identifiers and parent
// references are related through the codec's identity and address
// tables, not by these relations.
// ---------------------------------------------------------------------

/// Value equality of two curve samples.
pub open spec fn eq_key(a: FCurveKey, b: FCurveKey) -> bool {
    eq_scalar(a.frame, b.frame) && eq_scalar(a.value, b.value) && eq_scalar(a.tangent, b.tangent)
}

/// Value equality of two curves, given as their sample sequences: the
/// same sample count; a single sample compares by value alone, more
/// samples compare field by field.
pub open spec fn eq_curve(a: Seq<FCurveKey>, b: Seq<FCurveKey>) -> bool {
    &&& a.len() == b.len()
    &&& if a.len() == 1 {
        eq_scalar(a[0].value, b[0].value)
    } else {
        forall|i: int| 0 <= i < a.len() ==> eq_key(a[i], b[i])
    }
}

/// A curve that encodes to the zero-count record: no samples, or a single
/// sample whose value is zero.
pub open spec fn curve_absent(a: Seq<FCurveKey>) -> bool {
    a.len() == 0 || (a.len() == 1 && is_zero_scalar(a[0].value))
}

/// A curve whose encoding loses nothing: every curve except a single
/// sample with value zero, which encodes as an absent curve and decodes
/// to an empty one.
pub open spec fn curve_round_trips(a: Seq<FCurveKey>) -> bool {
    !(a.len() == 1 && is_zero_scalar(a[0].value))
}

/// Value equality of two optional curves' worth of samples, lifted over
/// `FCurve`.
pub open spec fn eq_fcurve(a: FCurve, b: FCurve) -> bool {
    eq_curve(a.keys@, b.keys@)
}

/// Value equality of two markers: name and time.
pub open spec fn eq_marker(a: (String, u32), b: (String, u32)) -> bool {
    a.0@ == b.0@ && eq_scalar(a.1, b.1)
}

/// Value equality of two marker lists.
pub open spec fn eq_markers(a: Seq<(String, u32)>, b: Seq<(String, u32)>) -> bool {
    a.len() == b.len() && (forall|i: int| 0 <= i < a.len() ==> eq_marker(a[i], b[i]))
}

/// Value equality of two sprite sources: name and id.
pub open spec fn eq_source(a: VideoSource, b: VideoSource) -> bool {
    a.name@ == b.name@ && a.id == b.id
}

/// Value equality of two video items: every field, and the source lists
/// element by element.
pub open spec fn eq_video(a: Video, b: Video) -> bool {
    &&& a.color@ == b.color@
    &&& a.width == b.width
    &&& a.height == b.height
    &&& eq_scalar(a.fpf, b.fpf)
    &&& a.sources@.len() == b.sources@.len()
    &&& forall|i: int| 0 <= i < a.sources@.len() ==> eq_source(a.sources@[i], b.sources@[i])
}

/// Value equality of two audio items.
pub open spec fn eq_audio(a: Audio, b: Audio) -> bool {
    a.sound_index == b.sound_index
}

/// Value equality of two three-dimensional video blocks.
pub open spec fn eq_layer_video_3d(a: LayerVideo3D, b: LayerVideo3D) -> bool {
    &&& eq_fcurve(a.anchor_z, b.anchor_z)
    &&& eq_fcurve(a.pos_z, b.pos_z)
    &&& eq_fcurve(a.dir_x, b.dir_x)
    &&& eq_fcurve(a.dir_y, b.dir_y)
    &&& eq_fcurve(a.dir_z, b.dir_z)
    &&& eq_fcurve(a.rot_x, b.rot_x)
    &&& eq_fcurve(a.rot_y, b.rot_y)
    &&& eq_fcurve(a.scale_z, b.scale_z)
}

/// Value equality of two video parameter blocks.
pub open spec fn eq_layer_video(a: LayerVideo, b: LayerVideo) -> bool {
    &&& a.transfer_mode == b.transfer_mode
    &&& eq_fcurve(a.anchor_x, b.anchor_x)
    &&& eq_fcurve(a.anchor_y, b.anchor_y)
    &&& eq_fcurve(a.pos_x, b.pos_x)
    &&& eq_fcurve(a.pos_y, b.pos_y)
    &&& eq_fcurve(a.rot_z, b.rot_z)
    &&& eq_fcurve(a.scale_x, b.scale_x)
    &&& eq_fcurve(a.scale_y, b.scale_y)
    &&& eq_fcurve(a.opacity, b.opacity)
    &&& match (a._3d, b._3d) {
        (Option::None, Option::None) => true,
        (Option::Some(x), Option::Some(y)) => eq_layer_video_3d(x, y),
        _ => false,
    }
}

/// Value equality of two audio parameter blocks.
pub open spec fn eq_layer_audio(a: LayerAudio, b: LayerAudio) -> bool {
    &&& eq_fcurve(a.volume_l, b.volume_l)
    &&& eq_fcurve(a.volume_r, b.volume_r)
    &&& eq_fcurve(a.pan_l, b.pan_l)
    &&& eq_fcurve(a.pan_r, b.pan_r)
}

/// Value equality of two cameras.
pub open spec fn eq_camera(a: Camera, b: Camera) -> bool {
    &&& eq_fcurve(a.eye_x, b.eye_x)
    &&& eq_fcurve(a.eye_y, b.eye_y)
    &&& eq_fcurve(a.eye_z, b.eye_z)
    &&& eq_fcurve(a.pos_x, b.pos_x)
    &&& eq_fcurve(a.pos_y, b.pos_y)
    &&& eq_fcurve(a.pos_z, b.pos_z)
    &&& eq_fcurve(a.dir_x, b.dir_x)
    &&& eq_fcurve(a.dir_y, b.dir_y)
    &&& eq_fcurve(a.dir_z, b.dir_z)
    &&& eq_fcurve(a.rot_x, b.rot_x)
    &&& eq_fcurve(a.rot_y, b.rot_y)
    &&& eq_fcurve(a.rot_z, b.rot_z)
    &&& eq_fcurve(a.zoom, b.zoom)
}

/// Value equality of a layer's immediate fields: everything except the
/// layer's own identifier, its parent reference and its item.
/// Identifiers and parents are not part of a layer's value: they name
/// where a layer stands, and the codec relates them through its
/// identity and address tables, not by value.
pub open spec fn eq_layer_shallow(a: Layer, b: Layer) -> bool {
    &&& a.name@ == b.name@
    &&& eq_scalar(a.start_time, b.start_time)
    &&& eq_scalar(a.end_time, b.end_time)
    &&& eq_scalar(a.offset_time, b.offset_time)
    &&& eq_scalar(a.time_scale, b.time_scale)
    &&& a.flags == b.flags
    &&& a.quality == b.quality
    &&& eq_markers(a.markers@, b.markers@)
    &&& match (a.video, b.video) {
        (Option::None, Option::None) => true,
        (Option::Some(x), Option::Some(y)) => eq_layer_video(x, y),
        _ => false,
    }
    &&& match (a.audio, b.audio) {
        (Option::None, Option::None) => true,
        (Option::Some(x), Option::Some(y)) => eq_layer_audio(x, y),
        _ => false,
    }
}

/// Value equality of two layers: the immediate fields and, recursively,
/// the items.  The layers' own identifiers and parent references are
/// not compared: identity is where a layer stands, not part of its
/// value.  Deduplication compares parent identities through the flat
/// records, and the codec's passes relate parents to addresses by their
/// own contracts, positionally.
pub open spec fn eq_layer(a: Layer, b: Layer) -> bool
    decreases a,
{
    eq_layer_shallow(a, b) && eq_item(a.item, b.item)
}

/// Value equality of two items.
pub open spec fn eq_item(a: Item, b: Item) -> bool
    decreases a,
{
    match (a, b) {
        (Item::Empty, Item::Empty) => true,
        (Item::Video(x), Item::Video(y)) => eq_video(x, y),
        (Item::Audio(x), Item::Audio(y)) => eq_audio(x, y),
        (Item::Composition(x), Item::Composition(y)) => eq_comp(x, y),
        _ => false,
    }
}

/// Value equality of two compositions: the same layer count and pairwise
/// equal layers.
pub open spec fn eq_comp(a: Composition, b: Composition) -> bool
    decreases a,
{
    &&& a.layers@.len() == b.layers@.len()
    &&& forall|i: int| 0 <= i < a.layers@.len() ==> eq_layer(#[trigger] a.layers@[i], b.layers@[i])
}

/// Value equality of two scenes.
pub open spec fn eq_scene(a: Scene, b: Scene) -> bool {
    &&& a.name@ == b.name@
    &&& eq_scalar(a.start_time, b.start_time)
    &&& eq_scalar(a.end_time, b.end_time)
    &&& eq_scalar(a.fps, b.fps)
    &&& a.color@ == b.color@
    &&& a.width == b.width
    &&& a.height == b.height
    &&& match (a.camera, b.camera) {
        (Option::None, Option::None) => true,
        (Option::Some(x), Option::Some(y)) => eq_camera(x, y),
        _ => false,
    }
    &&& eq_comp(a.root, b.root)
}

// ---------------------------------------------------------------------
// Canonical curves.  Encoding an absent curve stores nothing, so a curve
// written as one zero-valued sample comes back empty.  A graph whose
// curves all round-trip is called canonical; flattening such a graph
// loses nothing.
// ---------------------------------------------------------------------

/// Every curve of a video parameter block round-trips.
pub open spec fn lv_canonical(v: LayerVideo) -> bool {
    &&& curve_round_trips(v.anchor_x.keys@)
    &&& curve_round_trips(v.anchor_y.keys@)
    &&& curve_round_trips(v.pos_x.keys@)
    &&& curve_round_trips(v.pos_y.keys@)
    &&& curve_round_trips(v.rot_z.keys@)
    &&& curve_round_trips(v.scale_x.keys@)
    &&& curve_round_trips(v.scale_y.keys@)
    &&& curve_round_trips(v.opacity.keys@)
    &&& match v._3d {
        Option::Some(x) => {
            &&& curve_round_trips(x.anchor_z.keys@)
            &&& curve_round_trips(x.pos_z.keys@)
            &&& curve_round_trips(x.dir_x.keys@)
            &&& curve_round_trips(x.dir_y.keys@)
            &&& curve_round_trips(x.dir_z.keys@)
            &&& curve_round_trips(x.rot_x.keys@)
            &&& curve_round_trips(x.rot_y.keys@)
            &&& curve_round_trips(x.scale_z.keys@)
        },
        Option::None => true,
    }
}

/// Every curve of an audio parameter block round-trips.
pub open spec fn la_canonical(v: LayerAudio) -> bool {
    &&& curve_round_trips(v.volume_l.keys@)
    &&& curve_round_trips(v.volume_r.keys@)
    &&& curve_round_trips(v.pan_l.keys@)
    &&& curve_round_trips(v.pan_r.keys@)
}

/// Every curve of a camera round-trips.
pub open spec fn camera_canonical(c: Camera) -> bool {
    &&& curve_round_trips(c.eye_x.keys@)
    &&& curve_round_trips(c.eye_y.keys@)
    &&& curve_round_trips(c.eye_z.keys@)
    &&& curve_round_trips(c.pos_x.keys@)
    &&& curve_round_trips(c.pos_y.keys@)
    &&& curve_round_trips(c.pos_z.keys@)
    &&& curve_round_trips(c.dir_x.keys@)
    &&& curve_round_trips(c.dir_y.keys@)
    &&& curve_round_trips(c.dir_z.keys@)
    &&& curve_round_trips(c.rot_x.keys@)
    &&& curve_round_trips(c.rot_y.keys@)
    &&& curve_round_trips(c.rot_z.keys@)
    &&& curve_round_trips(c.zoom.keys@)
}

/// Every curve of a layer round-trips, its item included.
pub open spec fn layer_canonical(l: Layer) -> bool
    decreases l, 1int,
{
    &&& match l.video {
        Option::Some(v) => lv_canonical(v),
        Option::None => true,
    }
    &&& match l.audio {
        Option::Some(v) => la_canonical(v),
        Option::None => true,
    }
    &&& item_canonical(l.item)
}

/// Every curve of an item round-trips.
pub open spec fn item_canonical(it: Item) -> bool
    decreases it, 1int,
{
    match it {
        Item::Composition(c) => comp_canonical(c),
        _ => true,
    }
}

/// Every curve of a composition round-trips.
pub open spec fn comp_canonical(c: Composition) -> bool
    decreases c, 0int,
{
    forall|j: int| 0 <= j < c.layers@.len() ==> layer_canonical(#[trigger] c.layers@[j])
}

/// Every curve of a scene round-trips.
pub open spec fn scene_canonical(s: Scene) -> bool {
    &&& match s.camera {
        Option::Some(c) => camera_canonical(c),
        Option::None => true,
    }
    &&& comp_canonical(s.root)
}

/// Every curve of a scene set round-trips.
pub open spec fn set_canonical(s: SceneSet) -> bool {
    forall|i: int| 0 <= i < s.scenes@.len() ==> scene_canonical(#[trigger] s.scenes@[i])
}

/// Value equality of two scene sets: format flags and pairwise equal
/// scenes.
pub open spec fn eq_scene_set(a: SceneSet, b: SceneSet) -> bool {
    &&& a.modern == b.modern
    &&& a.big_endian == b.big_endian
    &&& a.is_x == b.is_x
    &&& a.scenes@.len() == b.scenes@.len()
    &&& forall|i: int| 0 <= i < a.scenes@.len() ==> eq_scene(#[trigger] a.scenes@[i], b.scenes@[i])
}

/// Decides value equality of two curves.
#[verifier::loop_isolation(false)]
pub fn fcurve_value_eq(a: &FCurve, b: &FCurve) -> (r: bool)
    ensures
        r == eq_fcurve(*a, *b),
{
    let n = a.keys.len();
    if n != b.keys.len() {
        return false;
    }
    if n == 1 {
        return crate::scalar::scalar_eq(a.keys[0].value, b.keys[0].value);
    }
    let mut i: usize = 0;
    while i < n
        invariant
            0 <= i <= n,
            n == a.keys@.len(),
            n == b.keys@.len(),
            forall|t: int| 0 <= t < i ==> eq_key(a.keys@[t], b.keys@[t]),
        decreases n - i,
    {
        let x = a.keys[i];
        let y = b.keys[i];
        if !crate::scalar::scalar_eq(x.frame, y.frame) || !crate::scalar::scalar_eq(
            x.value,
            y.value,
        ) || !crate::scalar::scalar_eq(x.tangent, y.tangent) {
            return false;
        }
        i += 1;
    }
    true
}

/// Decides value equality of two optional curve blocks' worth of
/// curves, field by field.
fn opt_layer_video_eq(a: &Option<LayerVideo>, b: &Option<LayerVideo>) -> (r: bool)
    ensures
        r == match (*a, *b) {
            (Option::None, Option::None) => true,
            (Option::Some(x), Option::Some(y)) => eq_layer_video(x, y),
            _ => false,
        },
{
    match (a, b) {
        (Option::None, Option::None) => true,
        (Option::Some(x), Option::Some(y)) => {
            if x.transfer_mode != y.transfer_mode {
                return false;
            }
            if !fcurve_value_eq(&x.anchor_x, &y.anchor_x) || !fcurve_value_eq(
                &x.anchor_y,
                &y.anchor_y,
            ) || !fcurve_value_eq(&x.pos_x, &y.pos_x) || !fcurve_value_eq(&x.pos_y, &y.pos_y)
                || !fcurve_value_eq(&x.rot_z, &y.rot_z) || !fcurve_value_eq(&x.scale_x, &y.scale_x)
                || !fcurve_value_eq(&x.scale_y, &y.scale_y) || !fcurve_value_eq(
                &x.opacity,
                &y.opacity,
            ) {
                return false;
            }
            match (&x._3d, &y._3d) {
                (Option::None, Option::None) => true,
                (Option::Some(p), Option::Some(q)) => fcurve_value_eq(&p.anchor_z, &q.anchor_z)
                    && fcurve_value_eq(&p.pos_z, &q.pos_z) && fcurve_value_eq(&p.dir_x, &q.dir_x)
                    && fcurve_value_eq(&p.dir_y, &q.dir_y) && fcurve_value_eq(&p.dir_z, &q.dir_z)
                    && fcurve_value_eq(&p.rot_x, &q.rot_x) && fcurve_value_eq(&p.rot_y, &q.rot_y)
                    && fcurve_value_eq(&p.scale_z, &q.scale_z),
                _ => false,
            }
        },
        _ => false,
    }
}

/// Decides value equality of two layers, items included.  The layers'
/// identifiers and parent references are not compared.
#[verifier::loop_isolation(false)]
pub fn layer_value_eq(a: &Layer, b: &Layer) -> (r: bool)
    ensures
        r == eq_layer(*a, *b),
    decreases *a, 1int,
{
    if a.name != b.name {
        return false;
    }
    if !crate::scalar::scalar_eq(a.start_time, b.start_time) || !crate::scalar::scalar_eq(
        a.end_time,
        b.end_time,
    ) || !crate::scalar::scalar_eq(a.offset_time, b.offset_time) || !crate::scalar::scalar_eq(
        a.time_scale,
        b.time_scale,
    ) {
        return false;
    }
    if a.flags.bits != b.flags.bits || a.quality != b.quality {
        return false;
    }
    let n = a.markers.len();
    if n != b.markers.len() {
        return false;
    }
    let mut i: usize = 0;
    while i < n
        invariant
            0 <= i <= n,
            n == a.markers@.len(),
            n == b.markers@.len(),
            forall|t: int| 0 <= t < i ==> eq_marker(a.markers@[t], b.markers@[t]),
        decreases n - i,
    {
        if a.markers[i].0 != b.markers[i].0 || !crate::scalar::scalar_eq(
            a.markers[i].1,
            b.markers[i].1,
        ) {
            return false;
        }
        i += 1;
    }
    if !opt_layer_video_eq(&a.video, &b.video) {
        return false;
    }
    match (&a.audio, &b.audio) {
        (Option::None, Option::None) => {},
        (Option::Some(x), Option::Some(y)) => {
            if !fcurve_value_eq(&x.volume_l, &y.volume_l) || !fcurve_value_eq(
                &x.volume_r,
                &y.volume_r,
            ) || !fcurve_value_eq(&x.pan_l, &y.pan_l) || !fcurve_value_eq(&x.pan_r, &y.pan_r) {
                return false;
            }
        },
        _ => {
            return false;
        },
    }
    item_value_eq(&a.item, &b.item)
}

/// Decides value equality of two items.
#[verifier::loop_isolation(false)]
pub fn item_value_eq(a: &Item, b: &Item) -> (r: bool)
    ensures
        r == eq_item(*a, *b),
    decreases *a, 2int,
{
    match (a, b) {
        (Item::Empty, Item::Empty) => true,
        (Item::Video(x), Item::Video(y)) => {
            if x.color[0] != y.color[0] || x.color[1] != y.color[1] || x.color[2] != y.color[2] {
                return false;
            }
            assert(x.color@ =~= y.color@);
            if x.width != y.width || x.height != y.height || !crate::scalar::scalar_eq(
                x.fpf,
                y.fpf,
            ) {
                return false;
            }
            let n = x.sources.len();
            if n != y.sources.len() {
                return false;
            }
            let mut i: usize = 0;
            while i < n
                invariant
                    0 <= i <= n,
                    n == x.sources@.len(),
                    n == y.sources@.len(),
                    forall|t: int| 0 <= t < i ==> eq_source(x.sources@[t], y.sources@[t]),
                decreases n - i,
            {
                if x.sources[i].name != y.sources[i].name || x.sources[i].id != y.sources[i].id {
                    return false;
                }
                i += 1;
            }
            true
        },
        (Item::Audio(x), Item::Audio(y)) => x.sound_index == y.sound_index,
        (Item::Composition(x), Item::Composition(y)) => comp_value_eq(x, y),
        _ => false,
    }
}

/// Decides value equality of two compositions, layer by layer.
#[verifier::loop_isolation(false)]
pub fn comp_value_eq(a: &Composition, b: &Composition) -> (r: bool)
    ensures
        r == eq_comp(*a, *b),
    decreases *a, 0int,
{
    let n = a.layers.len();
    if n != b.layers.len() {
        return false;
    }
    let mut i: usize = 0;
    while i < n
        invariant
            0 <= i <= n,
            n == a.layers@.len(),
            n == b.layers@.len(),
            forall|t: int| 0 <= t < i ==> eq_layer(#[trigger] a.layers@[t], b.layers@[t]),
        decreases n - i,
    {
        if !layer_value_eq(&a.layers[i], &b.layers[i]) {
            return false;
        }
        i += 1;
    }
    true
}

/// Decides value equality of two scenes.
#[verifier::loop_isolation(false)]
pub fn scene_value_eq(a: &Scene, b: &Scene) -> (r: bool)
    ensures
        r == eq_scene(*a, *b),
{
    if a.name != b.name {
        return false;
    }
    if !crate::scalar::scalar_eq(a.start_time, b.start_time) || !crate::scalar::scalar_eq(
        a.end_time,
        b.end_time,
    ) || !crate::scalar::scalar_eq(a.fps, b.fps) {
        return false;
    }
    if a.color[0] != b.color[0] || a.color[1] != b.color[1] || a.color[2] != b.color[2] {
        return false;
    }
    assert(a.color@ =~= b.color@);
    if a.width != b.width || a.height != b.height {
        return false;
    }
    match (&a.camera, &b.camera) {
        (Option::None, Option::None) => {},
        (Option::Some(x), Option::Some(y)) => {
            if !fcurve_value_eq(&x.eye_x, &y.eye_x) || !fcurve_value_eq(&x.eye_y, &y.eye_y)
                || !fcurve_value_eq(&x.eye_z, &y.eye_z) || !fcurve_value_eq(&x.pos_x, &y.pos_x)
                || !fcurve_value_eq(&x.pos_y, &y.pos_y) || !fcurve_value_eq(&x.pos_z, &y.pos_z)
                || !fcurve_value_eq(&x.dir_x, &y.dir_x) || !fcurve_value_eq(&x.dir_y, &y.dir_y)
                || !fcurve_value_eq(&x.dir_z, &y.dir_z) || !fcurve_value_eq(&x.rot_x, &y.rot_x)
                || !fcurve_value_eq(&x.rot_y, &y.rot_y) || !fcurve_value_eq(&x.rot_z, &y.rot_z)
                || !fcurve_value_eq(&x.zoom, &y.zoom) {
                return false;
            }
        },
        _ => {
            return false;
        },
    }
    comp_value_eq(&a.root, &b.root)
}

/// Decides value equality of two scene sets: format flags and scenes.
#[verifier::loop_isolation(false)]
pub fn set_value_eq(a: &SceneSet, b: &SceneSet) -> (r: bool)
    ensures
        r == eq_scene_set(*a, *b),
{
    if a.modern != b.modern || a.big_endian != b.big_endian || a.is_x != b.is_x {
        return false;
    }
    let n = a.scenes.len();
    if n != b.scenes.len() {
        return false;
    }
    let mut i: usize = 0;
    while i < n
        invariant
            0 <= i <= n,
            n == a.scenes@.len(),
            n == b.scenes@.len(),
            forall|t: int| 0 <= t < i ==> eq_scene(#[trigger] a.scenes@[t], b.scenes@[t]),
        decreases n - i,
    {
        if !scene_value_eq(&a.scenes[i], &b.scenes[i]) {
            return false;
        }
        i += 1;
    }
    true
}

} // verus!
