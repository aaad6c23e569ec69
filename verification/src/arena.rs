use vstd::prelude::*;

use crate::curve::{flat_curve_keys, flat_curve_valid, FlatCurve};
use crate::flags::{blend_mode_bits, blend_mode_from_bits, quality_bits, quality_from_bits};
use crate::curve::lemma_flat_curve_stable;
use crate::model::{
    eq_curve, Audio, Camera, Composition, FCurve, Item, Layer, LayerAudio, LayerVideo,
    LayerVideo3D, Video, VideoSource,
};
use crate::scalar::eq_scalar;

verus! {

/// A transfer mode as the arena stores it: three raw bytes.
#[derive(Debug, Clone, Copy)]
pub struct FlatTransferMode {
    pub mode: u8,
    pub flag: u8,
    pub matte: u8,
}

/// A marker record: a time scalar and the index of the marker's name in
/// the arena's name table.
#[derive(Debug, Clone, Copy)]
pub struct FlatMarker {
    pub time: u32,
    pub name: usize,
}

/// A sprite-source record: a name-table index and a sprite index.
#[derive(Debug, Clone, Copy)]
pub struct FlatVideoSource {
    pub sprite_name: usize,
    pub sprite_index: u32,
}

/// A video record: the fields of a video item, with its sources stored as
/// a contiguous range of the arena's source table.
#[derive(Debug, Clone, Copy)]
pub struct FlatVideo {
    pub color: [u8; 3],
    pub width: u16,
    pub height: u16,
    pub fpf: u32,
    pub sources_count: u32,
    pub sources: usize,
}

/// An audio record.
#[derive(Debug, Clone, Copy)]
pub struct FlatAudio {
    pub sound_index: u32,
}

/// The three-dimensional extension block of a flattened layer video.
#[derive(Debug, Clone, Copy)]
pub struct FlatLayerVideo3D {
    pub anchor_z: FlatCurve,
    pub pos_z: FlatCurve,
    pub dir_x: FlatCurve,
    pub dir_y: FlatCurve,
    pub dir_z: FlatCurve,
    pub rot_x: FlatCurve,
    pub rot_y: FlatCurve,
    pub scale_z: FlatCurve,
}

/// A flattened layer video block: transfer mode, eight curve records, and
/// an optional index into the three-dimensional block table.
#[derive(Debug, Clone, Copy)]
pub struct FlatLayerVideo {
    pub transfer_mode: FlatTransferMode,
    pub anchor_x: FlatCurve,
    pub anchor_y: FlatCurve,
    pub pos_x: FlatCurve,
    pub pos_y: FlatCurve,
    pub rot_z: FlatCurve,
    pub scale_x: FlatCurve,
    pub scale_y: FlatCurve,
    pub opacity: FlatCurve,
    pub _3d: Option<usize>,
}

/// A flattened layer audio block: four curve records.
#[derive(Debug, Clone, Copy)]
pub struct FlatLayerAudio {
    pub volume_l: FlatCurve,
    pub volume_r: FlatCurve,
    pub pan_l: FlatCurve,
    pub pan_r: FlatCurve,
}

/// The parent field of a flattened layer.  While the flattener walks the
/// graph a parent holds the owned layer's identity; the fix-up pass
/// replaces every pending identity with the arena address of the parent's
/// record, or absent when the identity was never flattened.  An arena
/// read from a file holds only absent or resolved parents.
#[derive(Debug, Clone, Copy)]
pub enum FlatParent {
    Absent,
    Pending(u64),
    Addr(usize),
}

/// The item of a flattened layer: nothing, or the address of a video,
/// audio or composition record.
#[derive(Debug, Clone, Copy)]
pub enum FlatItem {
    Empty,
    Video(usize),
    Audio(usize),
    Composition(usize),
}

/// A flattened layer record.
#[derive(Debug, Clone, Copy)]
pub struct FlatLayer {
    pub name: usize,
    pub start_time: u32,
    pub end_time: u32,
    pub offset_time: u32,
    pub time_scale: u32,
    pub flags: u16,
    pub quality: u8,
    pub item: FlatItem,
    pub parent: FlatParent,
    pub markers_count: u32,
    pub markers: Option<usize>,
    pub video: Option<usize>,
    pub audio: Option<usize>,
}

/// A flattened composition: a contiguous range of the arena's layer
/// table.
#[derive(Debug, Clone, Copy)]
pub struct FlatComp {
    pub layers_count: u32,
    pub layers: usize,
}

/// A flattened camera: thirteen curve records.
#[derive(Debug, Clone, Copy)]
pub struct FlatCamera {
    pub eye_x: FlatCurve,
    pub eye_y: FlatCurve,
    pub eye_z: FlatCurve,
    pub pos_x: FlatCurve,
    pub pos_y: FlatCurve,
    pub pos_z: FlatCurve,
    pub dir_x: FlatCurve,
    pub dir_y: FlatCurve,
    pub dir_z: FlatCurve,
    pub rot_x: FlatCurve,
    pub rot_y: FlatCurve,
    pub rot_z: FlatCurve,
    pub zoom: FlatCurve,
}

/// A flattened scene: scalar fields plus the ranges of the comp, video
/// and audio tables that belong to this scene.  The scene's root
/// composition is the last composition of its range.
#[derive(Debug, Clone, Copy)]
pub struct FlatScene {
    pub name: usize,
    pub start_time: u32,
    pub end_time: u32,
    pub fps: u32,
    pub color: [u8; 3],
    pub width: u32,
    pub height: u32,
    pub camera: Option<usize>,
    pub comp_count: u32,
    pub comp: usize,
    pub video_count: u32,
    pub video: usize,
    pub audio_count: u32,
    pub audio: usize,
}

/// The arena: one contiguous table per record category.  Every
/// cross-reference between records is an index into one of these tables,
/// so a record never moves once emitted and the tables only ever grow at
/// the end during one flattening pass.
#[derive(Debug)]
pub struct Arena {
    pub curve_keys: Vec<u32>,
    pub names: Vec<String>,
    pub markers: Vec<FlatMarker>,
    pub video_sources: Vec<FlatVideoSource>,
    pub videos: Vec<FlatVideo>,
    pub audios: Vec<FlatAudio>,
    pub layer_videos: Vec<FlatLayerVideo>,
    pub layer_video_3ds: Vec<FlatLayerVideo3D>,
    pub layer_audios: Vec<FlatLayerAudio>,
    pub layers: Vec<FlatLayer>,
    pub comps: Vec<FlatComp>,
    pub cameras: Vec<FlatCamera>,
    pub scenes: Vec<FlatScene>,
}

/// A flat scene set: the arena and the format flags of the file.
#[derive(Debug)]
pub struct FlatSet {
    pub modern: bool,
    pub big_endian: bool,
    pub is_x: bool,
    pub arena: Arena,
}

impl Arena {
    /// The empty arena.
    pub fn new() -> (a: Arena)
        ensures
            a.curve_keys@.len() == 0,
            a.names@.len() == 0,
            a.markers@.len() == 0,
            a.video_sources@.len() == 0,
            a.videos@.len() == 0,
            a.audios@.len() == 0,
            a.layer_videos@.len() == 0,
            a.layer_video_3ds@.len() == 0,
            a.layer_audios@.len() == 0,
            a.layers@.len() == 0,
            a.comps@.len() == 0,
            a.cameras@.len() == 0,
            a.scenes@.len() == 0,
    {
        Arena {
            curve_keys: Vec::new(),
            names: Vec::new(),
            markers: Vec::new(),
            video_sources: Vec::new(),
            videos: Vec::new(),
            audios: Vec::new(),
            layer_videos: Vec::new(),
            layer_video_3ds: Vec::new(),
            layer_audios: Vec::new(),
            layers: Vec::new(),
            comps: Vec::new(),
            cameras: Vec::new(),
            scenes: Vec::new(),
        }
    }
}

// ---------------------------------------------------------------------
// Validity: every cross-reference lands inside its table.
// ---------------------------------------------------------------------

/// A curve record's storage lies inside this arena's scalar pool.
pub open spec fn curve_ok(a: Arena, r: FlatCurve) -> bool {
    flat_curve_valid(a.curve_keys@.len() as int, r)
}

/// A marker record's name index lies inside the name table.
pub open spec fn marker_ok(a: Arena, m: FlatMarker) -> bool {
    m.name < a.names@.len()
}

/// A source record's name index lies inside the name table.
pub open spec fn source_ok(a: Arena, s: FlatVideoSource) -> bool {
    s.sprite_name < a.names@.len()
}

/// A video record's source range lies inside the source table.
pub open spec fn video_ok(a: Arena, v: FlatVideo) -> bool {
    v.sources + v.sources_count <= a.video_sources@.len()
}

/// Every curve of a three-dimensional block is valid.
pub open spec fn layer_video_3d_ok(a: Arena, x: FlatLayerVideo3D) -> bool {
    &&& curve_ok(a, x.anchor_z)
    &&& curve_ok(a, x.pos_z)
    &&& curve_ok(a, x.dir_x)
    &&& curve_ok(a, x.dir_y)
    &&& curve_ok(a, x.dir_z)
    &&& curve_ok(a, x.rot_x)
    &&& curve_ok(a, x.rot_y)
    &&& curve_ok(a, x.scale_z)
}

/// Every curve of a layer video block is valid, its optional
/// three-dimensional index lies inside its table, and its blend byte
/// names a mode.
pub open spec fn layer_video_ok(a: Arena, v: FlatLayerVideo) -> bool {
    &&& blend_mode_from_bits(v.transfer_mode.mode) is Some
    &&& curve_ok(a, v.anchor_x)
    &&& curve_ok(a, v.anchor_y)
    &&& curve_ok(a, v.pos_x)
    &&& curve_ok(a, v.pos_y)
    &&& curve_ok(a, v.rot_z)
    &&& curve_ok(a, v.scale_x)
    &&& curve_ok(a, v.scale_y)
    &&& curve_ok(a, v.opacity)
    &&& match v._3d {
        Option::Some(i) => i < a.layer_video_3ds@.len(),
        Option::None => true,
    }
}

/// Every curve of a layer audio block is valid.
pub open spec fn layer_audio_ok(a: Arena, x: FlatLayerAudio) -> bool {
    &&& curve_ok(a, x.volume_l)
    &&& curve_ok(a, x.volume_r)
    &&& curve_ok(a, x.pan_l)
    &&& curve_ok(a, x.pan_r)
}

/// Every curve of a camera is valid.
pub open spec fn camera_ok(a: Arena, c: FlatCamera) -> bool {
    &&& curve_ok(a, c.eye_x)
    &&& curve_ok(a, c.eye_y)
    &&& curve_ok(a, c.eye_z)
    &&& curve_ok(a, c.pos_x)
    &&& curve_ok(a, c.pos_y)
    &&& curve_ok(a, c.pos_z)
    &&& curve_ok(a, c.dir_x)
    &&& curve_ok(a, c.dir_y)
    &&& curve_ok(a, c.dir_z)
    &&& curve_ok(a, c.rot_x)
    &&& curve_ok(a, c.rot_y)
    &&& curve_ok(a, c.rot_z)
    &&& curve_ok(a, c.zoom)
}

/// A layer record's references lie inside their tables and its quality
/// byte names a quality.  The layer's
/// item, when it is a composition, must point below the given bound, the
/// index of the composition that owns the layer: nesting only ever refers
/// backwards, which is what makes a decoding walk well-founded.
pub open spec fn layer_ok(a: Arena, l: FlatLayer, comp_bound: int) -> bool {
    &&& l.name < a.names@.len()
    &&& quality_from_bits(l.quality) is Some
    &&& match l.markers {
        Option::None => l.markers_count == 0,
        Option::Some(m) => l.markers_count > 0 && m + l.markers_count <= a.markers@.len(),
    }
    &&& match l.video {
        Option::Some(i) => i < a.layer_videos@.len(),
        Option::None => true,
    }
    &&& match l.audio {
        Option::Some(i) => i < a.layer_audios@.len(),
        Option::None => true,
    }
    &&& match l.item {
        FlatItem::Empty => true,
        FlatItem::Video(i) => i < a.videos@.len(),
        FlatItem::Audio(i) => i < a.audios@.len(),
        FlatItem::Composition(ci) => 0 <= ci < comp_bound,
    }
}

/// A composition record's layer range lies inside the layer table and
/// each of its layers is valid with nested compositions below this one.
pub open spec fn comp_ok(a: Arena, ci: int) -> bool {
    let c = a.comps@[ci];
    &&& c.layers + c.layers_count <= a.layers@.len()
    &&& forall|j: int|
        c.layers <= j < c.layers + c.layers_count ==> layer_ok(a, #[trigger] a.layers@[j], ci)
}

/// A scene record's ranges lie inside their tables and it has at least
/// one composition, its root.
pub open spec fn scene_ok(a: Arena, s: FlatScene) -> bool {
    &&& s.name < a.names@.len()
    &&& match s.camera {
        Option::Some(i) => i < a.cameras@.len(),
        Option::None => true,
    }
    &&& s.comp_count >= 1
    &&& s.comp + s.comp_count <= a.comps@.len()
    &&& s.video + s.video_count <= a.videos@.len()
    &&& s.audio + s.audio_count <= a.audios@.len()
}

/// The whole arena is well formed: every record of every table is valid.
/// Parent fields are not constrained: an address that points nowhere
/// decodes as an absent parent.
pub open spec fn arena_wf(a: Arena) -> bool {
    &&& forall|i: int| 0 <= i < a.markers@.len() ==> marker_ok(a, #[trigger] a.markers@[i])
    &&& forall|i: int|
        0 <= i < a.video_sources@.len() ==> source_ok(a, #[trigger] a.video_sources@[i])
    &&& forall|i: int| 0 <= i < a.videos@.len() ==> video_ok(a, #[trigger] a.videos@[i])
    &&& forall|i: int|
        0 <= i < a.layer_videos@.len() ==> layer_video_ok(a, #[trigger] a.layer_videos@[i])
    &&& forall|i: int|
        0 <= i < a.layer_video_3ds@.len() ==> layer_video_3d_ok(
            a,
            #[trigger] a.layer_video_3ds@[i],
        )
    &&& forall|i: int|
        0 <= i < a.layer_audios@.len() ==> layer_audio_ok(a, #[trigger] a.layer_audios@[i])
    &&& forall|ci: int| 0 <= ci < a.comps@.len() ==> comp_ok(a, ci)
    &&& forall|i: int| 0 <= i < a.cameras@.len() ==> camera_ok(a, #[trigger] a.cameras@[i])
    &&& forall|i: int| 0 <= i < a.scenes@.len() ==> scene_ok(a, #[trigger] a.scenes@[i])
}

/// One arena extends another: every table of the smaller is a prefix of
/// the same table of the larger.  Each step of the flattener extends the
/// arena, so everything already emitted stays where it is.
pub open spec fn arena_extends(b: Arena, a: Arena) -> bool {
    &&& a.curve_keys@.is_prefix_of(b.curve_keys@)
    &&& a.names@.is_prefix_of(b.names@)
    &&& a.markers@.is_prefix_of(b.markers@)
    &&& a.video_sources@.is_prefix_of(b.video_sources@)
    &&& a.videos@.is_prefix_of(b.videos@)
    &&& a.audios@.is_prefix_of(b.audios@)
    &&& a.layer_videos@.is_prefix_of(b.layer_videos@)
    &&& a.layer_video_3ds@.is_prefix_of(b.layer_video_3ds@)
    &&& a.layer_audios@.is_prefix_of(b.layer_audios@)
    &&& a.layers@.is_prefix_of(b.layers@)
    &&& a.comps@.is_prefix_of(b.comps@)
    &&& a.cameras@.is_prefix_of(b.cameras@)
    &&& a.scenes@.is_prefix_of(b.scenes@)
}

// ---------------------------------------------------------------------
// Correspondence: which owned value a record denotes.  The flattener
// ensures each emitted record corresponds to its source; the unflattener
// ensures each rebuilt value corresponds to its record.  Parent fields
// are related separately, by the fix-up passes.
// ---------------------------------------------------------------------

/// The record denotes the same samples as the owned curve, by value.
pub open spec fn curve_matches(a: Arena, r: FlatCurve, own: FCurve) -> bool {
    eq_curve(own.keys@, flat_curve_keys(a.curve_keys@, r))
}

/// The marker record denotes the owned marker.
pub open spec fn marker_matches(a: Arena, m: FlatMarker, own: (String, u32)) -> bool {
    &&& m.name < a.names@.len()
    &&& a.names@[m.name as int]@ == own.0@
    &&& eq_scalar(own.1, m.time)
}

/// The source record denotes the owned sprite source.
pub open spec fn source_matches(a: Arena, s: FlatVideoSource, own: VideoSource) -> bool {
    &&& s.sprite_name < a.names@.len()
    &&& a.names@[s.sprite_name as int]@ == own.name@
    &&& s.sprite_index == own.id
}

/// The video record denotes the owned video item, sources element by
/// element.
pub open spec fn video_matches(a: Arena, v: FlatVideo, own: Video) -> bool {
    &&& v.color@ == own.color@
    &&& v.width == own.width
    &&& v.height == own.height
    &&& eq_scalar(own.fpf, v.fpf)
    &&& v.sources_count == own.sources@.len()
    &&& v.sources + v.sources_count <= a.video_sources@.len()
    &&& forall|i: int|
        0 <= i < own.sources@.len() ==> source_matches(
            a,
            #[trigger] a.video_sources@[v.sources + i],
            own.sources@[i],
        )
}

/// The audio record denotes the owned audio item.
pub open spec fn audio_matches(v: FlatAudio, own: Audio) -> bool {
    v.sound_index == own.sound_index
}

/// The three-dimensional block record denotes the owned block.
pub open spec fn layer_video_3d_matches(a: Arena, x: FlatLayerVideo3D, own: LayerVideo3D) -> bool {
    &&& curve_matches(a, x.anchor_z, own.anchor_z)
    &&& curve_matches(a, x.pos_z, own.pos_z)
    &&& curve_matches(a, x.dir_x, own.dir_x)
    &&& curve_matches(a, x.dir_y, own.dir_y)
    &&& curve_matches(a, x.dir_z, own.dir_z)
    &&& curve_matches(a, x.rot_x, own.rot_x)
    &&& curve_matches(a, x.rot_y, own.rot_y)
    &&& curve_matches(a, x.scale_z, own.scale_z)
}

/// The layer video record denotes the owned video block.
pub open spec fn layer_video_matches(a: Arena, v: FlatLayerVideo, own: LayerVideo) -> bool {
    &&& v.transfer_mode.mode == blend_mode_bits(own.transfer_mode.mode)
    &&& v.transfer_mode.flag == own.transfer_mode.flag
    &&& v.transfer_mode.matte == own.transfer_mode.matte
    &&& curve_matches(a, v.anchor_x, own.anchor_x)
    &&& curve_matches(a, v.anchor_y, own.anchor_y)
    &&& curve_matches(a, v.pos_x, own.pos_x)
    &&& curve_matches(a, v.pos_y, own.pos_y)
    &&& curve_matches(a, v.rot_z, own.rot_z)
    &&& curve_matches(a, v.scale_x, own.scale_x)
    &&& curve_matches(a, v.scale_y, own.scale_y)
    &&& curve_matches(a, v.opacity, own.opacity)
    &&& match (v._3d, own._3d) {
        (Option::None, Option::None) => true,
        (Option::Some(i), Option::Some(x)) => i < a.layer_video_3ds@.len()
            && layer_video_3d_matches(a, a.layer_video_3ds@[i as int], x),
        _ => false,
    }
}

/// The layer audio record denotes the owned audio block.
pub open spec fn layer_audio_matches(a: Arena, x: FlatLayerAudio, own: LayerAudio) -> bool {
    &&& curve_matches(a, x.volume_l, own.volume_l)
    &&& curve_matches(a, x.volume_r, own.volume_r)
    &&& curve_matches(a, x.pan_l, own.pan_l)
    &&& curve_matches(a, x.pan_r, own.pan_r)
}

/// The camera record denotes the owned camera.
pub open spec fn camera_matches(a: Arena, c: FlatCamera, own: Camera) -> bool {
    &&& curve_matches(a, c.eye_x, own.eye_x)
    &&& curve_matches(a, c.eye_y, own.eye_y)
    &&& curve_matches(a, c.eye_z, own.eye_z)
    &&& curve_matches(a, c.pos_x, own.pos_x)
    &&& curve_matches(a, c.pos_y, own.pos_y)
    &&& curve_matches(a, c.pos_z, own.pos_z)
    &&& curve_matches(a, c.dir_x, own.dir_x)
    &&& curve_matches(a, c.dir_y, own.dir_y)
    &&& curve_matches(a, c.dir_z, own.dir_z)
    &&& curve_matches(a, c.rot_x, own.rot_x)
    &&& curve_matches(a, c.rot_y, own.rot_y)
    &&& curve_matches(a, c.rot_z, own.rot_z)
    &&& curve_matches(a, c.zoom, own.zoom)
}

/// The layer record denotes the owned layer's immediate fields: name,
/// times, flags, quality, markers and the video and audio blocks.  The
/// item and the parent are related separately: the item recursively, the
/// parent by the fix-up pass.
pub open spec fn layer_matches(a: Arena, l: FlatLayer, own: Layer) -> bool {
    &&& l.name < a.names@.len()
    &&& a.names@[l.name as int]@ == own.name@
    &&& eq_scalar(own.start_time, l.start_time)
    &&& eq_scalar(own.end_time, l.end_time)
    &&& eq_scalar(own.offset_time, l.offset_time)
    &&& eq_scalar(own.time_scale, l.time_scale)
    &&& l.flags == own.flags.bits
    &&& l.quality == quality_bits(own.quality)
    &&& l.markers_count == own.markers@.len()
    &&& match l.markers {
        Option::None => own.markers@.len() == 0,
        Option::Some(m) => {
            &&& own.markers@.len() > 0
            &&& m + own.markers@.len() <= a.markers@.len()
            &&& forall|i: int|
                0 <= i < own.markers@.len() ==> marker_matches(
                    a,
                    #[trigger] a.markers@[m + i],
                    own.markers@[i],
                )
        },
    }
    &&& match (l.video, own.video) {
        (Option::None, Option::None) => true,
        (Option::Some(i), Option::Some(v)) => i < a.layer_videos@.len() && layer_video_matches(
            a,
            a.layer_videos@[i as int],
            v,
        ),
        _ => false,
    }
    &&& match (l.audio, own.audio) {
        (Option::None, Option::None) => true,
        (Option::Some(i), Option::Some(v)) => i < a.layer_audios@.len() && layer_audio_matches(
            a,
            a.layer_audios@[i as int],
            v,
        ),
        _ => false,
    }
}

/// The item field denotes the owned item: nothing, or a record of the
/// right table that denotes the owned payload, recursively for nested
/// compositions.
pub open spec fn item_matches(a: Arena, fi: FlatItem, own: Item) -> bool
    decreases own, 1int,
{
    match (fi, own) {
        (FlatItem::Empty, Item::Empty) => true,
        (FlatItem::Video(i), Item::Video(v)) => i < a.videos@.len() && video_matches(
            a,
            a.videos@[i as int],
            v,
        ),
        (FlatItem::Audio(i), Item::Audio(x)) => i < a.audios@.len() && audio_matches(
            a.audios@[i as int],
            x,
        ),
        (FlatItem::Composition(ci), Item::Composition(c)) => ci < a.comps@.len() && comp_matches(
            a,
            ci as int,
            c,
        ),
        _ => false,
    }
}

/// The composition record at the given index denotes the owned
/// composition: the same layer count, and layer by layer the record
/// denotes the owned layer, its item included.  Parents are related
/// separately by the fix-up passes.
pub open spec fn comp_matches(a: Arena, ci: int, own: Composition) -> bool
    decreases own, 0int,
{
    let fc = a.comps@[ci];
    &&& 0 <= ci < a.comps@.len()
    &&& fc.layers_count == own.layers@.len()
    &&& fc.layers + own.layers@.len() <= a.layers@.len()
    &&& forall|j: int|
        0 <= j < own.layers@.len() ==> layer_matches(
            a,
            #[trigger] a.layers@[fc.layers + j],
            own.layers@[j],
        ) && item_matches(a, a.layers@[fc.layers + j].item, own.layers@[j].item)
}

// ---------------------------------------------------------------------
// Stability: extending the arena changes no record already emitted, so
// validity and correspondence carry over.
// ---------------------------------------------------------------------

/// Validity of every record of a well-formed arena carries over to any
/// extension whose appended records are valid in the extension.
pub proof fn lemma_wf_extend(b: Arena, a: Arena)
    requires
        arena_wf(a),
        arena_extends(b, a),
        forall|i: int| a.markers@.len() <= i < b.markers@.len() ==> marker_ok(b, #[trigger] b.markers@[i]),
        forall|i: int|
            a.video_sources@.len() <= i < b.video_sources@.len() ==> source_ok(
                b,
                #[trigger] b.video_sources@[i],
            ),
        forall|i: int| a.videos@.len() <= i < b.videos@.len() ==> video_ok(b, #[trigger] b.videos@[i]),
        forall|i: int|
            a.layer_videos@.len() <= i < b.layer_videos@.len() ==> layer_video_ok(
                b,
                #[trigger] b.layer_videos@[i],
            ),
        forall|i: int|
            a.layer_video_3ds@.len() <= i < b.layer_video_3ds@.len() ==> layer_video_3d_ok(
                b,
                #[trigger] b.layer_video_3ds@[i],
            ),
        forall|i: int|
            a.layer_audios@.len() <= i < b.layer_audios@.len() ==> layer_audio_ok(
                b,
                #[trigger] b.layer_audios@[i],
            ),
        forall|ci: int| a.comps@.len() <= ci < b.comps@.len() ==> comp_ok(b, ci),
        forall|i: int| a.cameras@.len() <= i < b.cameras@.len() ==> camera_ok(b, #[trigger] b.cameras@[i]),
        forall|i: int| a.scenes@.len() <= i < b.scenes@.len() ==> scene_ok(b, #[trigger] b.scenes@[i]),
    ensures
        arena_wf(b),
{
    assert forall|i: int| 0 <= i < a.markers@.len() implies marker_ok(b, #[trigger] b.markers@[i]) by {
        assert(b.markers@[i] == a.markers@[i]);
        assert(marker_ok(a, a.markers@[i]));
    }
    assert forall|i: int| 0 <= i < a.video_sources@.len() implies source_ok(
        b,
        #[trigger] b.video_sources@[i],
    ) by {
        assert(b.video_sources@[i] == a.video_sources@[i]);
        assert(source_ok(a, a.video_sources@[i]));
    }
    assert forall|i: int| 0 <= i < a.videos@.len() implies video_ok(b, #[trigger] b.videos@[i]) by {
        assert(b.videos@[i] == a.videos@[i]);
        assert(video_ok(a, a.videos@[i]));
    }
    assert forall|i: int| 0 <= i < a.layer_videos@.len() implies layer_video_ok(
        b,
        #[trigger] b.layer_videos@[i],
    ) by {
        assert(b.layer_videos@[i] == a.layer_videos@[i]);
        assert(layer_video_ok(a, a.layer_videos@[i]));
    }
    assert forall|i: int| 0 <= i < a.layer_video_3ds@.len() implies layer_video_3d_ok(
        b,
        #[trigger] b.layer_video_3ds@[i],
    ) by {
        assert(b.layer_video_3ds@[i] == a.layer_video_3ds@[i]);
        assert(layer_video_3d_ok(a, a.layer_video_3ds@[i]));
    }
    assert forall|i: int| 0 <= i < a.layer_audios@.len() implies layer_audio_ok(
        b,
        #[trigger] b.layer_audios@[i],
    ) by {
        assert(b.layer_audios@[i] == a.layer_audios@[i]);
        assert(layer_audio_ok(a, a.layer_audios@[i]));
    }
    assert forall|i: int| 0 <= i < a.cameras@.len() implies camera_ok(b, #[trigger] b.cameras@[i]) by {
        assert(b.cameras@[i] == a.cameras@[i]);
        assert(camera_ok(a, a.cameras@[i]));
    }
    assert forall|ci: int| 0 <= ci < a.comps@.len() implies comp_ok(b, ci) by {
        assert(comp_ok(a, ci));
        assert(b.comps@[ci] == a.comps@[ci]);
        let c = a.comps@[ci];
        assert forall|j: int| c.layers <= j < c.layers + c.layers_count implies layer_ok(
            b,
            #[trigger] b.layers@[j],
            ci,
        ) by {
            assert(b.layers@[j] == a.layers@[j]);
            assert(layer_ok(a, a.layers@[j], ci));
        }
    }
    assert forall|i: int| 0 <= i < a.scenes@.len() implies scene_ok(b, #[trigger] b.scenes@[i]) by {
        assert(b.scenes@[i] == a.scenes@[i]);
    }
}

/// A curve correspondence carries over to any extension.
pub proof fn lemma_curve_matches_extend(b: Arena, a: Arena, r: FlatCurve, own: FCurve)
    requires
        arena_extends(b, a),
        curve_ok(a, r),
        curve_matches(a, r, own),
    ensures
        curve_ok(b, r),
        curve_matches(b, r, own),
{
    lemma_flat_curve_stable(a.curve_keys@, b.curve_keys@, r);
}

/// A layer video correspondence carries over to any extension.
pub proof fn lemma_layer_video_matches_extend(b: Arena, a: Arena, v: FlatLayerVideo, own: LayerVideo)
    requires
        arena_wf(a),
        arena_extends(b, a),
        layer_video_ok(a, v),
        layer_video_matches(a, v, own),
    ensures
        layer_video_matches(b, v, own),
{
    lemma_curve_matches_extend(b, a, v.anchor_x, own.anchor_x);
    lemma_curve_matches_extend(b, a, v.anchor_y, own.anchor_y);
    lemma_curve_matches_extend(b, a, v.pos_x, own.pos_x);
    lemma_curve_matches_extend(b, a, v.pos_y, own.pos_y);
    lemma_curve_matches_extend(b, a, v.rot_z, own.rot_z);
    lemma_curve_matches_extend(b, a, v.scale_x, own.scale_x);
    lemma_curve_matches_extend(b, a, v.scale_y, own.scale_y);
    lemma_curve_matches_extend(b, a, v.opacity, own.opacity);
    match (v._3d, own._3d) {
        (Option::Some(i), Option::Some(x)) => {
            let rec = a.layer_video_3ds@[i as int];
            assert(b.layer_video_3ds@[i as int] == rec);
            assert(layer_video_3d_ok(a, rec));
            lemma_curve_matches_extend(b, a, rec.anchor_z, x.anchor_z);
            lemma_curve_matches_extend(b, a, rec.pos_z, x.pos_z);
            lemma_curve_matches_extend(b, a, rec.dir_x, x.dir_x);
            lemma_curve_matches_extend(b, a, rec.dir_y, x.dir_y);
            lemma_curve_matches_extend(b, a, rec.dir_z, x.dir_z);
            lemma_curve_matches_extend(b, a, rec.rot_x, x.rot_x);
            lemma_curve_matches_extend(b, a, rec.rot_y, x.rot_y);
            lemma_curve_matches_extend(b, a, rec.scale_z, x.scale_z);
        },
        _ => {},
    }
}

/// A layer audio correspondence carries over to any extension.
pub proof fn lemma_layer_audio_matches_extend(b: Arena, a: Arena, v: FlatLayerAudio, own: LayerAudio)
    requires
        arena_extends(b, a),
        layer_audio_ok(a, v),
        layer_audio_matches(a, v, own),
    ensures
        layer_audio_matches(b, v, own),
{
    lemma_curve_matches_extend(b, a, v.volume_l, own.volume_l);
    lemma_curve_matches_extend(b, a, v.volume_r, own.volume_r);
    lemma_curve_matches_extend(b, a, v.pan_l, own.pan_l);
    lemma_curve_matches_extend(b, a, v.pan_r, own.pan_r);
}

/// A camera correspondence carries over to any extension.
pub proof fn lemma_camera_matches_extend(b: Arena, a: Arena, c: FlatCamera, own: Camera)
    requires
        arena_extends(b, a),
        camera_ok(a, c),
        camera_matches(a, c, own),
    ensures
        camera_matches(b, c, own),
{
    lemma_curve_matches_extend(b, a, c.eye_x, own.eye_x);
    lemma_curve_matches_extend(b, a, c.eye_y, own.eye_y);
    lemma_curve_matches_extend(b, a, c.eye_z, own.eye_z);
    lemma_curve_matches_extend(b, a, c.pos_x, own.pos_x);
    lemma_curve_matches_extend(b, a, c.pos_y, own.pos_y);
    lemma_curve_matches_extend(b, a, c.pos_z, own.pos_z);
    lemma_curve_matches_extend(b, a, c.dir_x, own.dir_x);
    lemma_curve_matches_extend(b, a, c.dir_y, own.dir_y);
    lemma_curve_matches_extend(b, a, c.dir_z, own.dir_z);
    lemma_curve_matches_extend(b, a, c.rot_x, own.rot_x);
    lemma_curve_matches_extend(b, a, c.rot_y, own.rot_y);
    lemma_curve_matches_extend(b, a, c.rot_z, own.rot_z);
    lemma_curve_matches_extend(b, a, c.zoom, own.zoom);
}

/// A layer correspondence (immediate fields) carries over to any
/// extension, provided the arena is well formed so the referenced
/// blocks' curves are valid.
pub proof fn lemma_layer_matches_extend(b: Arena, a: Arena, l: FlatLayer, own: Layer)
    requires
        arena_wf(a),
        arena_extends(b, a),
        layer_matches(a, l, own),
    ensures
        layer_matches(b, l, own),
{
    match (l.video, own.video) {
        (Option::Some(i), Option::Some(v)) => {
            assert(b.layer_videos@[i as int] == a.layer_videos@[i as int]);
            lemma_layer_video_matches_extend(b, a, a.layer_videos@[i as int], v);
        },
        _ => {},
    }
    match (l.audio, own.audio) {
        (Option::Some(i), Option::Some(v)) => {
            assert(b.layer_audios@[i as int] == a.layer_audios@[i as int]);
            lemma_layer_audio_matches_extend(b, a, a.layer_audios@[i as int], v);
        },
        _ => {},
    }
    match l.markers {
        Option::Some(m) => {
            assert forall|i: int| 0 <= i < own.markers@.len() implies marker_matches(
                b,
                #[trigger] b.markers@[m + i],
                own.markers@[i],
            ) by {
                assert(b.markers@[m + i] == a.markers@[m + i]);
            }
        },
        Option::None => {},
    }
}

/// An item correspondence carries over to any extension, recursively.
pub proof fn lemma_item_matches_extend(b: Arena, a: Arena, fi: FlatItem, own: Item)
    requires
        arena_wf(a),
        arena_extends(b, a),
        item_matches(a, fi, own),
    ensures
        item_matches(b, fi, own),
    decreases own, 1int,
{
    match (fi, own) {
        (FlatItem::Video(i), Item::Video(v)) => {
            assert(b.videos@[i as int] == a.videos@[i as int]);
            let rec = a.videos@[i as int];
            assert forall|t: int| 0 <= t < v.sources@.len() implies source_matches(
                b,
                #[trigger] b.video_sources@[rec.sources + t],
                v.sources@[t],
            ) by {
                assert(b.video_sources@[rec.sources + t] == a.video_sources@[rec.sources + t]);
            }
        },
        (FlatItem::Composition(ci), Item::Composition(c)) => {
            lemma_comp_matches_extend(b, a, ci as int, c);
        },
        _ => {},
    }
}

/// A composition correspondence carries over to any extension,
/// recursively.
pub proof fn lemma_comp_matches_extend(b: Arena, a: Arena, ci: int, own: Composition)
    requires
        arena_wf(a),
        arena_extends(b, a),
        comp_matches(a, ci, own),
    ensures
        comp_matches(b, ci, own),
    decreases own, 0int,
{
    let fc = a.comps@[ci];
    assert(b.comps@[ci] == fc);
    assert forall|j: int| 0 <= j < own.layers@.len() implies layer_matches(
        b,
        #[trigger] b.layers@[fc.layers + j],
        own.layers@[j],
    ) && item_matches(b, b.layers@[fc.layers + j].item, own.layers@[j].item) by {
        assert(b.layers@[fc.layers + j] == a.layers@[fc.layers + j]);
        lemma_layer_matches_extend(b, a, a.layers@[fc.layers + j], own.layers@[j]);
        lemma_item_matches_extend(b, a, a.layers@[fc.layers + j].item, own.layers@[j].item);
    }
}

} // verus!
