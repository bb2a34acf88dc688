//! What each line of a document does to the scanner's state: the keywords,
//! the scope trackers, and one rule per keyword, as specifications.
use vstd::prelude::*;
use crate::lexer::{
    braced_value, i32_value, is_float_text, line_tokens, strip_delimiters, u32_value,
};
use crate::model::{
    AnimationView, Attrib, Curve, CurveView, DiagnosticView, GeometryNodeView,
    GeometryObjectView, KeyType, KeyView, MaterialRefView, MaterialView, MetricView, TargetType,
    TextureView, TrackView, default_metric, empty_curve, identity_text, new_material, new_node,
    new_object,
};
use crate::tracker::{InBasicNode, InDoubleIndexedNode, InIndexedNode};

verus! {

pub const METRIC: &'static str = "Metric";
pub const GEOMETRY_NODE: &'static str = "GeometryNode";
pub const GEOMETRY_OBJECT: &'static str = "GeometryObject";
pub const NAME: &'static str = "Name";
pub const OBJECT_REF: &'static str = "ObjectRef";
pub const MATERIAL_REF: &'static str = "MaterialRef";
pub const TRANSFORM: &'static str = "Transform";
pub const MESH: &'static str = "Mesh";
pub const VERTEX_ARRAY: &'static str = "VertexArray";
pub const INDEX_ARRAY: &'static str = "IndexArray";
pub const MATERIAL: &'static str = "Material";
pub const TEXTURE: &'static str = "Texture";
pub const COLOUR: &'static str = "Color";
pub const PLAIN_STRING: &'static str = "string";
pub const ANIMATION: &'static str = "Animation";
pub const TRACK: &'static str = "Track";
pub const TRACK_TIME: &'static str = "Time";
pub const TRACK_VALUE: &'static str = "Value";
pub const TRACK_KEY: &'static str = "Key";
pub const OPEN_BRACKET: &'static str = "{";
pub const CLOSE_BRACKET: &'static str = "}";
pub const FLOAT2: &'static str = "float[2]";
pub const FLOAT3: &'static str = "float[3]";
pub const FLOAT16: &'static str = "float[16]";
pub const UNSIGNED_INT3: &'static str = "unsigned_int32[3]";

pub const KEY: &'static str = "(key";
pub const EQUALS: &'static str = "=";
pub const STRING: &'static str = "{string";
pub const REF: &'static str = "{ref";
pub const FLOAT: &'static str = "{float";
pub const INDEX: &'static str = "(index";
pub const PRIMITIVE: &'static str = "(primitive";
pub const ATTRIB: &'static str = "(attrib";
pub const CURVE: &'static str = "(curve";
pub const KIND: &'static str = "(kind";
pub const TARGET: &'static str = "(target";
pub const BEGIN: &'static str = "(begin";
pub const END: &'static str = "end";

pub const DISTANCE: &'static str = "\"distance\")";
pub const ANGLE: &'static str = "\"angle\")";
pub const TIME: &'static str = "\"time\")";
pub const UP: &'static str = "\"up\")";
pub const FORWARD: &'static str = "\"forward\")";
pub const POSITION: &'static str = "\"position\")";
pub const NORMAL: &'static str = "\"normal\")";
pub const TEXCOORD: &'static str = "\"texcoord\")";
pub const DIFFUSE: &'static str = "\"diffuse\")";
pub const SPECULAR: &'static str = "\"specular\")";
pub const LINEAR: &'static str = "\"linear\")";
pub const BEZIER: &'static str = "\"bezier\")";
pub const PLUS_CONTROL: &'static str = "\"+control\")";
pub const MINUS_CONTROL: &'static str = "\"-control\")";
pub const XPOS: &'static str = "%xpos)";
pub const YPOS: &'static str = "%ypos)";
pub const ZPOS: &'static str = "%zpos)";
pub const XROT: &'static str = "%xrot)";
pub const YROT: &'static str = "%yrot)";
pub const ZROT: &'static str = "%zrot)";

/// Every scope tracker of the scanner.
#[derive(Clone, Copy, Debug)]
pub struct Trackers {
    pub geometry_node: InIndexedNode,
    pub transform: InBasicNode,
    pub float2: InBasicNode,
    pub float3: InBasicNode,
    pub float16: InIndexedNode,
    pub unsigned_int3: InBasicNode,
    pub geometry_object: InIndexedNode,
    pub vertex_position: InBasicNode,
    pub vertex_normal: InBasicNode,
    pub texcoord: InBasicNode,
    pub index: InBasicNode,
    pub material: InDoubleIndexedNode,
    pub texture: InBasicNode,
    pub animation: InBasicNode,
    pub track: InIndexedNode,
    pub time: InIndexedNode,
    pub value: InIndexedNode,
}

/// All trackers closed.
pub open spec fn closed_trackers() -> Trackers {
    Trackers {
        geometry_node: InIndexedNode::spec_closed(),
        transform: InBasicNode::spec_closed(),
        float2: InBasicNode::spec_closed(),
        float3: InBasicNode::spec_closed(),
        float16: InIndexedNode::spec_closed(),
        unsigned_int3: InBasicNode::spec_closed(),
        geometry_object: InIndexedNode::spec_closed(),
        vertex_position: InBasicNode::spec_closed(),
        vertex_normal: InBasicNode::spec_closed(),
        texcoord: InBasicNode::spec_closed(),
        index: InBasicNode::spec_closed(),
        material: InDoubleIndexedNode::spec_closed(),
        texture: InBasicNode::spec_closed(),
        animation: InBasicNode::spec_closed(),
        track: InIndexedNode::spec_closed(),
        time: InIndexedNode::spec_closed(),
        value: InIndexedNode::spec_closed(),
    }
}

/// The trackers after a closing bracket that leaves the depth at `depth`:
/// each open tracker that was opened at `depth` closes, whatever lies between.
pub open spec fn close_all(t: Trackers, depth: i32) -> Trackers {
    Trackers {
        geometry_node: t.geometry_node.after_close(depth),
        transform: t.transform.after_close(depth),
        float2: t.float2.after_close(depth),
        float3: t.float3.after_close(depth),
        float16: t.float16.after_close(depth),
        unsigned_int3: t.unsigned_int3.after_close(depth),
        geometry_object: t.geometry_object.after_close(depth),
        vertex_position: t.vertex_position.after_close(depth),
        vertex_normal: t.vertex_normal.after_close(depth),
        texcoord: t.texcoord.after_close(depth),
        index: t.index.after_close(depth),
        material: t.material.after_close(depth),
        texture: t.texture.after_close(depth),
        animation: t.animation.after_close(depth),
        track: t.track.after_close(depth),
        time: t.time.after_close(depth),
        value: t.value.after_close(depth),
    }
}

/// What the scanner holds after some lines.
pub struct ScanView {
    pub metric: MetricView,
    pub nodes: Seq<GeometryNodeView>,
    pub objects: Seq<GeometryObjectView>,
    pub materials: Seq<MaterialView>,
    pub diagnostics: Seq<DiagnosticView>,
    pub trackers: Trackers,
    pub depth: i32,
    pub line: usize,
}

/// The scanner before the first line.
pub open spec fn initial_scan() -> ScanView {
    ScanView {
        metric: default_metric(),
        nodes: Seq::empty(),
        objects: Seq::empty(),
        materials: Seq::empty(),
        diagnostics: Seq::empty(),
        trackers: closed_trackers(),
        depth: 0,
        line: 0,
    }
}

/// The literal inside a braced token, where it is text that `f32::from_str` accepts.
pub open spec fn float_value(t: Seq<char>) -> Option<Seq<char>> {
    match braced_value(t) {
        Some(x) => if is_float_text(x) {
            Some(x)
        } else {
            None
        },
        None => None,
    }
}

/// The numbers among the tokens, in order: each token stripped of its
/// delimiters, kept where the rest is a number.
pub open spec fn float_items(v: Seq<Seq<char>>) -> Seq<Seq<char>>
    decreases v.len(),
{
    if v.len() == 0 {
        Seq::empty()
    } else {
        let r = float_items(v.drop_last());
        let t = strip_delimiters(v.last());
        if is_float_text(t) {
            r.push(t)
        } else {
            r
        }
    }
}

/// The unsigned integers among the tokens, in order.
pub open spec fn u32_items(v: Seq<Seq<char>>) -> Seq<u32>
    decreases v.len(),
{
    if v.len() == 0 {
        Seq::empty()
    } else {
        let r = u32_items(v.drop_last());
        match u32_value(strip_delimiters(v.last())) {
            Some(x) => r.push(x),
            None => r,
        }
    }
}

/// Consecutive groups of `n` numbers; an incomplete group at the end is dropped.
pub open spec fn groups(f: Seq<Seq<char>>, n: int) -> Seq<Seq<Seq<char>>>
    recommends
        n > 0,
{
    Seq::new((f.len() as int / n) as nat, |i: int| f.subrange(n * i, n * i + n))
}

/// `raw` with the numbers `f` written from position `pos` on; positions past
/// its end are not written.
pub open spec fn write_from(raw: Seq<Seq<char>>, pos: int, f: Seq<Seq<char>>) -> Seq<Seq<char>> {
    Seq::new(raw.len(), |j: int| if pos <= j < pos + f.len() { f[j - pos] } else { raw[j] })
}

/// A position moved on by `n`, held at `usize::MAX`.
pub open spec fn advance(pos: usize, n: nat) -> usize {
    if pos + n <= usize::MAX {
        (pos + n) as usize
    } else {
        usize::MAX
    }
}

/// A material index stands for the default slot where it reads as zero or
/// does not read as an `i32` at all.
pub open spec fn is_default_slot(t: Seq<char>) -> bool {
    match i32_value(t) {
        Some(x) => x == 0,
        None => true,
    }
}

pub open spec fn attrib_of(t: Seq<char>) -> Attrib {
    if t == DIFFUSE@ {
        Attrib::Diffuse
    } else if t == SPECULAR@ {
        Attrib::Specular
    } else if t == NORMAL@ {
        Attrib::Normal
    } else {
        Attrib::Unknown
    }
}

pub open spec fn curve_of(t: Seq<char>) -> Curve {
    if t == LINEAR@ {
        Curve::Linear
    } else if t == BEZIER@ {
        Curve::Bezier
    } else {
        Curve::Unknown
    }
}

pub open spec fn target_of(t: Seq<char>) -> TargetType {
    if t == XPOS@ {
        TargetType::Xpos
    } else if t == YPOS@ {
        TargetType::Ypos
    } else if t == ZPOS@ {
        TargetType::Zpos
    } else if t == XROT@ {
        TargetType::Xrot
    } else if t == YROT@ {
        TargetType::Yrot
    } else if t == ZROT@ {
        TargetType::Zrot
    } else {
        TargetType::Unknown
    }
}

/// The kind of a `Key` line and the token its numbers start at; `None` where
/// the line is too short for the kind it names.
pub open spec fn key_kind(v: Seq<Seq<char>>) -> Option<(KeyType, int)> {
    if v.len() < 2 {
        None
    } else if v[1] == KIND@ {
        if v.len() < 3 {
            None
        } else if v[2] != EQUALS@ {
            Some((KeyType::Single, 4))
        } else if v.len() < 4 {
            None
        } else if v[3] == PLUS_CONTROL@ {
            Some((KeyType::PlusControl, 4))
        } else if v[3] == MINUS_CONTROL@ {
            Some((KeyType::MinusControl, 4))
        } else {
            Some((KeyType::Single, 4))
        }
    } else {
        Some((KeyType::Single, 2))
    }
}

pub open spec fn with_metric(s: ScanView, m: MetricView) -> ScanView {
    ScanView { metric: m, ..s }
}

pub open spec fn with_node(s: ScanView, p: int, n: GeometryNodeView) -> ScanView {
    ScanView { nodes: s.nodes.update(p, n), ..s }
}

pub open spec fn with_object(s: ScanView, p: int, o: GeometryObjectView) -> ScanView {
    ScanView { objects: s.objects.update(p, o), ..s }
}

pub open spec fn with_material(s: ScanView, p: int, m: MaterialView) -> ScanView {
    ScanView { materials: s.materials.update(p, m), ..s }
}

pub open spec fn with_trackers(s: ScanView, t: Trackers) -> ScanView {
    ScanView { trackers: t, ..s }
}

/// The node that the open node tracker writes, if any.
pub open spec fn current_node(s: ScanView) -> Option<int> {
    let t = s.trackers.geometry_node;
    if t.in_use && t.position < s.nodes.len() {
        Some(t.position as int)
    } else {
        None
    }
}

pub open spec fn current_object(s: ScanView) -> Option<int> {
    let t = s.trackers.geometry_object;
    if t.in_use && t.position < s.objects.len() {
        Some(t.position as int)
    } else {
        None
    }
}

pub open spec fn current_material(s: ScanView) -> Option<int> {
    let t = s.trackers.material;
    if t.in_use && t.position < s.materials.len() {
        Some(t.position as int)
    } else {
        None
    }
}

/// `Metric (key = "distance") {float {2.0}}` and the like.
pub open spec fn on_metric(s: ScanView, v: Seq<Seq<char>>) -> Option<ScanView> {
    if v.len() < 3 {
        None
    } else if !(v[1] == KEY@ && v[2] == EQUALS@) {
        Some(s)
    } else if v.len() < 4 {
        None
    } else {
        let key = v[3];
        let m = s.metric;
        if key == DISTANCE@ || key == ANGLE@ || key == TIME@ {
            if v.len() < 5 {
                None
            } else if v[4] != FLOAT@ {
                Some(s)
            } else if v.len() < 6 {
                None
            } else {
                match float_value(v[5]) {
                    None => Some(s),
                    Some(f) => Some(
                        with_metric(
                            s,
                            if key == DISTANCE@ {
                                MetricView { distance: f, ..m }
                            } else if key == ANGLE@ {
                                MetricView { angle: f, ..m }
                            } else {
                                MetricView { time: f, ..m }
                            },
                        ),
                    ),
                }
            }
        } else if key == UP@ || key == FORWARD@ {
            if v.len() < 5 {
                None
            } else if v[4] != STRING@ {
                Some(s)
            } else if v.len() < 6 {
                None
            } else {
                match braced_value(v[5]) {
                    None => Some(s),
                    Some(x) => Some(
                        with_metric(
                            s,
                            if key == UP@ {
                                MetricView { up: x, ..m }
                            } else {
                                MetricView { forward: x, ..m }
                            },
                        ),
                    ),
                }
            }
        } else {
            Some(s)
        }
    }
}

/// `GeometryNode $node1`: a new node, named by the raw token.
pub open spec fn on_geometry_node(s: ScanView, v: Seq<Seq<char>>) -> Option<ScanView> {
    if v.len() < 2 {
        None
    } else {
        Some(
            ScanView {
                nodes: s.nodes.push(new_node(v[1])),
                trackers: Trackers {
                    geometry_node: s.trackers.geometry_node.opened(s.depth, s.nodes.len() as usize),
                    ..s.trackers
                },
                ..s
            },
        )
    }
}

/// `Name {string {"Cube"}}`: names the open node and the open material.
pub open spec fn on_name(s: ScanView, v: Seq<Seq<char>>) -> Option<ScanView> {
    if v.len() < 2 {
        None
    } else if v[1] != STRING@ {
        Some(s)
    } else if v.len() < 3 {
        None
    } else {
        let name = strip_delimiters(v[2]);
        let s1 = match current_node(s) {
            Some(p) => with_node(s, p, GeometryNodeView { name, ..s.nodes[p] }),
            None => s,
        };
        Some(
            match current_material(s1) {
                Some(p) => with_material(s1, p, MaterialView { name, ..s1.materials[p] }),
                None => s1,
            },
        )
    }
}

/// `ObjectRef {ref {$geometry1}}`.
pub open spec fn on_object_ref(s: ScanView, v: Seq<Seq<char>>) -> Option<ScanView> {
    if v.len() < 2 {
        None
    } else if v[1] != REF@ {
        Some(s)
    } else if v.len() < 3 {
        None
    } else {
        match current_node(s) {
            Some(p) => Some(
                with_node(
                    s,
                    p,
                    GeometryNodeView { object_ref: strip_delimiters(v[2]), ..s.nodes[p] },
                ),
            ),
            None => Some(s),
        }
    }
}

/// `MaterialRef (index = 0) {ref {$material1}}`: only the default slot is kept.
pub open spec fn on_material_ref(s: ScanView, v: Seq<Seq<char>>) -> Option<ScanView> {
    if v.len() < 2 {
        None
    } else if v[1] != INDEX@ {
        Some(s)
    } else if v.len() < 3 {
        None
    } else if v[2] != EQUALS@ {
        Some(s)
    } else if v.len() < 4 {
        None
    } else if !is_default_slot(strip_delimiters(v[3])) {
        Some(s)
    } else if v.len() < 5 {
        None
    } else if v[4] != REF@ || !s.trackers.geometry_node.in_use {
        Some(s)
    } else if v.len() < 6 {
        None
    } else {
        match current_node(s) {
            Some(p) => Some(
                with_node(
                    s,
                    p,
                    GeometryNodeView {
                        materialref: s.nodes[p].materialref.push(
                            MaterialRefView { index: 0, material_ref: strip_delimiters(v[5]) },
                        ),
                        ..s.nodes[p]
                    },
                ),
            ),
            None => Some(s),
        }
    }
}

/// `GeometryObject $geometry1`: a new object.
pub open spec fn on_geometry_object(s: ScanView, v: Seq<Seq<char>>) -> Option<ScanView> {
    if v.len() < 2 {
        None
    } else {
        Some(
            ScanView {
                objects: s.objects.push(
                    GeometryObjectView { name: strip_delimiters(v[1]), ..new_object() },
                ),
                trackers: Trackers {
                    geometry_object: s.trackers.geometry_object.opened(
                        s.depth,
                        s.objects.len() as usize,
                    ),
                    ..s.trackers
                },
                ..s
            },
        )
    }
}

/// `Mesh (primitive = "triangles")`.
pub open spec fn on_mesh(s: ScanView, v: Seq<Seq<char>>) -> Option<ScanView> {
    if !s.trackers.geometry_object.in_use {
        Some(s)
    } else if v.len() < 2 {
        None
    } else if v[1] != PRIMITIVE@ {
        Some(s)
    } else if v.len() < 3 {
        None
    } else if v[2] != EQUALS@ {
        Some(s)
    } else if v.len() < 4 {
        None
    } else {
        match current_object(s) {
            Some(p) => Some(
                with_object(
                    s,
                    p,
                    GeometryObjectView { mesh: strip_delimiters(v[3]), ..s.objects[p] },
                ),
            ),
            None => Some(s),
        }
    }
}

/// `VertexArray (attrib = "position")`: which buffer the numbers that follow feed.
pub open spec fn on_vertex_array(s: ScanView, v: Seq<Seq<char>>) -> Option<ScanView> {
    if !s.trackers.geometry_object.in_use {
        Some(s)
    } else if v.len() < 2 {
        None
    } else if v[1] != ATTRIB@ {
        Some(s)
    } else if v.len() < 3 {
        None
    } else if v[2] != EQUALS@ {
        Some(s)
    } else if v.len() < 4 {
        None
    } else {
        let t = s.trackers;
        let d = s.depth;
        Some(
            with_trackers(
                s,
                if v[3] == POSITION@ {
                    Trackers { vertex_position: t.vertex_position.opened(d), ..t }
                } else if v[3] == NORMAL@ {
                    Trackers { vertex_normal: t.vertex_normal.opened(d), ..t }
                } else if v[3] == TEXCOORD@ {
                    Trackers { texcoord: t.texcoord.opened(d), ..t }
                } else {
                    t
                },
            ),
        )
    }
}

/// `Material $material1`: a new material.
pub open spec fn on_material(s: ScanView, v: Seq<Seq<char>>) -> Option<ScanView> {
    if v.len() < 2 {
        None
    } else {
        Some(
            ScanView {
                materials: s.materials.push(
                    MaterialView { material_ref: strip_delimiters(v[1]), ..new_material() },
                ),
                trackers: Trackers {
                    material: InDoubleIndexedNode {
                        num_brackets_open: s.depth,
                        in_use: true,
                        position: s.materials.len() as usize,
                        second_index: 0,
                    },
                    ..s.trackers
                },
                ..s
            },
        )
    }
}

/// `Texture (attrib = "diffuse")`: a new texture of the open material.
pub open spec fn on_texture(s: ScanView, v: Seq<Seq<char>>) -> Option<ScanView> {
    if !s.trackers.material.in_use {
        Some(s)
    } else if v.len() < 2 {
        None
    } else if v[1] != ATTRIB@ {
        Some(s)
    } else if v.len() < 3 {
        None
    } else if v[2] != EQUALS@ {
        Some(s)
    } else if v.len() < 4 {
        None
    } else {
        match current_material(s) {
            Some(p) => {
                let m = s.materials[p];
                let t = s.trackers;
                Some(
                    ScanView {
                        materials: s.materials.update(
                            p,
                            MaterialView {
                                textures: m.textures.push(
                                    TextureView {
                                        texture: Seq::empty(),
                                        attrib: attrib_of(v[3]),
                                        raw_transform: identity_text(),
                                    },
                                ),
                                ..m
                            },
                        ),
                        trackers: Trackers {
                            texture: t.texture.opened(s.depth),
                            material: InDoubleIndexedNode {
                                second_index: m.textures.len() as usize,
                                ..t.material
                            },
                            ..t
                        },
                        ..s
                    },
                )
            },
            None => Some(s),
        }
    }
}

/// The texture that the open material and texture trackers write, if any.
pub open spec fn current_texture(s: ScanView) -> Option<(int, int)> {
    match current_material(s) {
        Some(p) => {
            let k = s.trackers.material.second_index as int;
            if s.trackers.texture.in_use && k < s.materials[p].textures.len() {
                Some((p, k))
            } else {
                None
            }
        },
        None => None,
    }
}

pub open spec fn with_texture(s: ScanView, p: int, k: int, t: TextureView) -> ScanView {
    with_material(
        s,
        p,
        MaterialView { textures: s.materials[p].textures.update(k, t), ..s.materials[p] },
    )
}

/// `string {"//texture.png"}`: the path of the open texture.
pub open spec fn on_plain_string(s: ScanView, v: Seq<Seq<char>>) -> Option<ScanView> {
    if !(s.trackers.material.in_use && s.trackers.texture.in_use) {
        Some(s)
    } else if v.len() < 2 {
        None
    } else {
        match current_texture(s) {
            Some((p, k)) => Some(
                with_texture(
                    s,
                    p,
                    k,
                    TextureView {
                        texture: strip_delimiters(v[1]),
                        ..s.materials[p].textures[k]
                    },
                ),
            ),
            None => Some(s),
        }
    }
}

/// `Color (attrib = "diffuse") {float[3] {{0.8, 0.8, 0.8}}}`: the last complete
/// triple on the line becomes the diffuse colour.
pub open spec fn on_colour(s: ScanView, v: Seq<Seq<char>>) -> Option<ScanView> {
    if !s.trackers.material.in_use {
        Some(s)
    } else if v.len() < 2 {
        None
    } else if v[1] != ATTRIB@ {
        Some(s)
    } else if v.len() < 3 {
        None
    } else if v[2] != EQUALS@ {
        Some(s)
    } else if v.len() < 4 {
        None
    } else if v[3] != DIFFUSE@ {
        Some(s)
    } else if v.len() < 5 {
        None
    } else if strip_delimiters(v[4]) != FLOAT3@ {
        Some(s)
    } else {
        let g = groups(float_items(v.subrange(5, v.len() as int)), 3);
        match current_material(s) {
            Some(p) => if g.len() > 0 {
                Some(
                    with_material(s, p, MaterialView { diffuse_colour: g.last(), ..s.materials[p] }),
                )
            } else {
                Some(s)
            },
            None => Some(s),
        }
    }
}


/// The time span on an `Animation (begin = 0.0, end = 1.0)` header: each
/// bound that is not given, or is not a number, stays `0.0`. `None` where the
/// line breaks off after `(begin`.
pub open spec fn animation_span(v: Seq<Seq<char>>) -> Option<(Seq<char>, Seq<char>)> {
    if v.len() > 1 && v[1] == BEGIN@ {
        if v.len() < 3 {
            None
        } else if v[2] != EQUALS@ {
            Some(("0.0"@, "0.0"@))
        } else if v.len() < 4 {
            None
        } else {
            let b = strip_delimiters(v[3]);
            let e = if v.len() >= 7 {
                strip_delimiters(v[6])
            } else {
                Seq::empty()
            };
            Some(
                (
                    if is_float_text(b) {
                        b
                    } else {
                        "0.0"@
                    },
                    if v.len() >= 7 && v[4] == END@ && v[5] == EQUALS@ && is_float_text(e) {
                        e
                    } else {
                        "0.0"@
                    },
                ),
            )
        }
    } else {
        Some(("0.0"@, "0.0"@))
    }
}

/// The open node, where it has an animation.
pub open spec fn current_animation(s: ScanView) -> Option<int> {
    match current_node(s) {
        Some(p) => if s.nodes[p].animation is Some {
            Some(p)
        } else {
            None
        },
        None => None,
    }
}

pub open spec fn with_animation(s: ScanView, p: int, a: AnimationView) -> ScanView {
    with_node(s, p, GeometryNodeView { animation: Some(a), ..s.nodes[p] })
}

/// `Animation (begin = 0.0, end = 1.0)`: a fresh animation on the open node.
pub open spec fn on_animation(s: ScanView, v: Seq<Seq<char>>) -> Option<ScanView> {
    if !s.trackers.geometry_node.in_use {
        Some(s)
    } else {
        match animation_span(v) {
            None => None,
            Some((b, e)) => {
                let s1 = with_trackers(
                    s,
                    Trackers { animation: s.trackers.animation.opened(s.depth), ..s.trackers },
                );
                match current_node(s1) {
                    Some(p) => Some(
                        with_animation(
                            s1,
                            p,
                            AnimationView { begin: b, end: e, tracks: Seq::empty() },
                        ),
                    ),
                    None => Some(s1),
                }
            },
        }
    }
}

/// The target named on a `Track (target = %xpos)` header; `None` where the
/// line breaks off.
pub open spec fn track_target(v: Seq<Seq<char>>) -> Option<TargetType> {
    if v[1] != TARGET@ {
        Some(TargetType::Unknown)
    } else if v.len() < 3 {
        None
    } else if v[2] != EQUALS@ {
        Some(TargetType::Unknown)
    } else if v.len() < 4 {
        None
    } else {
        Some(target_of(v[3]))
    }
}

/// `Track (target = %xpos)`: a new track on the open animation.
pub open spec fn on_track(s: ScanView, v: Seq<Seq<char>>) -> Option<ScanView> {
    let t = s.trackers;
    if !(t.geometry_node.in_use && t.animation.in_use) {
        Some(s)
    } else if v.len() < 2 {
        None
    } else {
        match track_target(v) {
            None => None,
            Some(target) => match current_animation(s) {
                Some(p) => {
                    let a = s.nodes[p].animation->0;
                    let s1 = with_animation(
                        s,
                        p,
                        AnimationView {
                            tracks: a.tracks.push(
                                TrackView { target, time: empty_curve(), value: empty_curve() },
                            ),
                            ..a
                        },
                    );
                    Some(
                        with_trackers(
                            s1,
                            Trackers { track: t.track.opened(s.depth, a.tracks.len() as usize), ..t },
                        ),
                    )
                },
                None => Some(with_trackers(s, Trackers { track: t.track.opened(s.depth, 0), ..t })),
            },
        }
    }
}

/// The open track of the open animation, where both exist.
pub open spec fn current_track(s: ScanView) -> Option<(int, int)> {
    match current_animation(s) {
        Some(p) => {
            let k = s.trackers.track.position as int;
            if k < s.nodes[p].animation->0.tracks.len() {
                Some((p, k))
            } else {
                None
            }
        },
        None => None,
    }
}

pub open spec fn with_track(s: ScanView, p: int, k: int, tr: TrackView) -> ScanView {
    let a = s.nodes[p].animation->0;
    with_animation(s, p, AnimationView { tracks: a.tracks.update(k, tr), ..a })
}

/// `Time (curve = "linear")` or `Value (curve = "bezier")`: the track's time
/// (or value) starts over with the named curve and no keys.
pub open spec fn on_curve(s: ScanView, v: Seq<Seq<char>>, is_time: bool) -> Option<ScanView> {
    let t = s.trackers;
    if !(t.geometry_node.in_use && t.animation.in_use && t.track.in_use) {
        Some(s)
    } else {
        let s1 = with_trackers(
            s,
            if is_time {
                Trackers { time: t.time.opened(s.depth, t.time.position), ..t }
            } else {
                Trackers { value: t.value.opened(s.depth, t.value.position), ..t }
            },
        );
        if current_animation(s) is None {
            Some(s1)
        } else if v.len() < 2 {
            None
        } else if v[1] != CURVE@ {
            Some(s1)
        } else if v.len() < 3 {
            None
        } else if v[2] != EQUALS@ {
            Some(s1)
        } else if v.len() < 4 {
            None
        } else {
            match current_track(s1) {
                Some((p, k)) => {
                    let tr = s1.nodes[p].animation->0.tracks[k];
                    let c = CurveView { curve: curve_of(v[3]), keys: Seq::empty() };
                    Some(
                        with_track(
                            s1,
                            p,
                            k,
                            if is_time {
                                TrackView { time: c, ..tr }
                            } else {
                                TrackView { value: c, ..tr }
                            },
                        ),
                    )
                },
                None => Some(s1),
            }
        }
    }
}

/// The tokens from position `off` on.
pub open spec fn tail_from(v: Seq<Seq<char>>, off: int) -> Seq<Seq<char>> {
    if off <= v.len() {
        v.subrange(off, v.len() as int)
    } else {
        Seq::empty()
    }
}

/// `Key {float {0.0, 1.0}}` or `Key (kind = "+control") {float {...}}`: one key
/// appended to the open time, and one to the open value.
pub open spec fn on_key(s: ScanView, v: Seq<Seq<char>>) -> Option<ScanView> {
    let t = s.trackers;
    if !(t.geometry_node.in_use && t.animation.in_use && t.track.in_use) {
        Some(s)
    } else if current_animation(s) is None || !(t.time.in_use || t.value.in_use) {
        Some(s)
    } else {
        match key_kind(v) {
            None => None,
            Some((kind, off)) => match current_track(s) {
                None => Some(s),
                Some((p, k)) => {
                    let key = KeyView { floats: float_items(tail_from(v, off)), key_type: kind };
                    let tr = s.nodes[p].animation->0.tracks[k];
                    let tr1 = if t.time.in_use {
                        TrackView {
                            time: CurveView { keys: tr.time.keys.push(key), ..tr.time },
                            ..tr
                        }
                    } else {
                        tr
                    };
                    let tr2 = if t.value.in_use {
                        TrackView {
                            value: CurveView { keys: tr1.value.keys.push(key), ..tr1.value },
                            ..tr1
                        }
                    } else {
                        tr1
                    };
                    let t1 = Trackers {
                        time: if t.time.in_use {
                            InIndexedNode { position: advance(t.time.position, 1), ..t.time }
                        } else {
                            t.time
                        },
                        value: if t.value.in_use {
                            InIndexedNode { position: advance(t.value.position, 1), ..t.value }
                        } else {
                            t.value
                        },
                        ..t
                    };
                    Some(with_trackers(with_track(s, p, k, tr2), t1))
                },
            },
        }
    }
}

/// The node transform written by a line of numbers inside `Transform` and
/// `float[16]`.
pub open spec fn numbers_into_node(s: ScanView, f: Seq<Seq<char>>) -> ScanView {
    let t = s.trackers;
    if t.transform.in_use && t.float16.in_use {
        match current_node(s) {
            Some(p) => {
                let n = s.nodes[p];
                ScanView {
                    nodes: s.nodes.update(
                        p,
                        GeometryNodeView {
                            raw_transform: write_from(
                                n.raw_transform,
                                t.float16.position as int,
                                f,
                            ),
                            ..n
                        },
                    ),
                    trackers: Trackers {
                        float16: InIndexedNode {
                            position: advance(t.float16.position, f.len()),
                            ..t.float16
                        },
                        ..t
                    },
                    ..s
                }
            },
            None => s,
        }
    } else {
        s
    }
}

/// The mesh buffers fed by a line of numbers, by the open array trackers.
pub open spec fn numbers_into_object(
    o: GeometryObjectView,
    t: Trackers,
    f: Seq<Seq<char>>,
    u: Seq<u32>,
) -> GeometryObjectView {
    GeometryObjectView {
        vertex: if t.vertex_position.in_use && t.float3.in_use {
            o.vertex + groups(f, 3)
        } else {
            o.vertex
        },
        normal: if t.vertex_normal.in_use && t.float3.in_use {
            o.normal + groups(f, 3)
        } else {
            o.normal
        },
        texcoord: if t.texcoord.in_use && t.float2.in_use {
            o.texcoord + groups(f, 2)
        } else {
            o.texcoord
        },
        index: if t.index.in_use && t.unsigned_int3.in_use {
            o.index + u
        } else {
            o.index
        },
        ..o
    }
}

/// The texture transform written by a line of numbers.
pub open spec fn numbers_into_texture(s: ScanView, f: Seq<Seq<char>>) -> ScanView {
    let t = s.trackers;
    if t.texture.in_use && t.transform.in_use && t.float16.in_use {
        match current_texture(s) {
            Some((p, k)) => {
                let x = s.materials[p].textures[k];
                with_trackers(
                    with_texture(
                        s,
                        p,
                        k,
                        TextureView {
                            raw_transform: write_from(x.raw_transform, t.float16.position as int, f),
                            ..x
                        },
                    ),
                    Trackers {
                        float16: InIndexedNode {
                            position: advance(t.float16.position, f.len()),
                            ..t.float16
                        },
                        ..t
                    },
                )
            },
            None => s,
        }
    } else {
        s
    }
}

/// A line of numbers, routed by the open trackers.
pub open spec fn on_numbers(s: ScanView, v: Seq<Seq<char>>) -> ScanView {
    let f = float_items(v);
    let s1 = numbers_into_node(s, f);
    match current_object(s1) {
        Some(o) => {
            let s2 = with_object(
                s1,
                o,
                numbers_into_object(s1.objects[o], s1.trackers, f, u32_items(v)),
            );
            numbers_into_texture(s2, f)
        },
        None => s1,
    }
}

/// A first token that starts a line of numbers: longer than one character,
/// with a numeric character in it.
pub open spec fn is_payload(w: Seq<char>) -> bool {
    w.len() > 1 && exists|i: int| 0 <= i < w.len() && crate::lexer::numeric_char(#[trigger] w[i])
}

pub open spec fn on_open(s: ScanView) -> ScanView {
    ScanView {
        depth: if s.depth < i32::MAX {
            (s.depth + 1) as i32
        } else {
            s.depth
        },
        ..s
    }
}

pub open spec fn on_close(s: ScanView) -> ScanView {
    let d = if s.depth > i32::MIN {
        (s.depth - 1) as i32
    } else {
        s.depth
    };
    ScanView { depth: d, trackers: close_all(s.trackers, d), ..s }
}

pub open spec fn open_basic(s: ScanView, w: Seq<char>) -> ScanView {
    let t = s.trackers;
    let d = s.depth;
    with_trackers(
        s,
        if w == TRANSFORM@ {
            Trackers { transform: t.transform.opened(d), ..t }
        } else if w == FLOAT2@ {
            Trackers { float2: t.float2.opened(d), ..t }
        } else if w == FLOAT3@ {
            Trackers { float3: t.float3.opened(d), ..t }
        } else if w == FLOAT16@ {
            Trackers { float16: t.float16.opened(d, 0), ..t }
        } else {
            Trackers { unsigned_int3: t.unsigned_int3.opened(d), ..t }
        },
    )
}

/// One line's effect, by its first token; `None` where the line lacks a token
/// that its keyword needs.
pub open spec fn dispatch(s: ScanView, v: Seq<Seq<char>>) -> Option<ScanView> {
    let w = v[0];
    if w == METRIC@ {
        on_metric(s, v)
    } else if w == GEOMETRY_NODE@ {
        on_geometry_node(s, v)
    } else if w == NAME@ {
        on_name(s, v)
    } else if w == OBJECT_REF@ {
        on_object_ref(s, v)
    } else if w == MATERIAL_REF@ {
        on_material_ref(s, v)
    } else if w == TRANSFORM@ || w == FLOAT2@ || w == FLOAT3@ || w == FLOAT16@ || w
        == UNSIGNED_INT3@ {
        Some(open_basic(s, w))
    } else if w == GEOMETRY_OBJECT@ {
        on_geometry_object(s, v)
    } else if w == MESH@ {
        on_mesh(s, v)
    } else if w == VERTEX_ARRAY@ {
        on_vertex_array(s, v)
    } else if w == INDEX_ARRAY@ {
        Some(
            if s.trackers.geometry_object.in_use {
                with_trackers(
                    s,
                    Trackers { index: s.trackers.index.opened(s.depth), ..s.trackers },
                )
            } else {
                s
            },
        )
    } else if w == MATERIAL@ {
        on_material(s, v)
    } else if w == TEXTURE@ {
        on_texture(s, v)
    } else if w == PLAIN_STRING@ {
        on_plain_string(s, v)
    } else if w == COLOUR@ {
        on_colour(s, v)
    } else if w == ANIMATION@ {
        on_animation(s, v)
    } else if w == TRACK@ {
        on_track(s, v)
    } else if w == TRACK_TIME@ {
        on_curve(s, v, true)
    } else if w == TRACK_VALUE@ {
        on_curve(s, v, false)
    } else if w == TRACK_KEY@ {
        on_key(s, v)
    } else if w == OPEN_BRACKET@ {
        Some(on_open(s))
    } else if w == CLOSE_BRACKET@ {
        Some(on_close(s))
    } else if is_payload(w) {
        Some(on_numbers(s, v))
    } else {
        Some(s)
    }
}

/// The scanner after one more line. A line that lacks a token its keyword
/// needs changes nothing but the line count and the diagnostics.
pub open spec fn step(s: ScanView, line: Seq<char>) -> ScanView {
    let v = line_tokens(line);
    let s1 = ScanView { line: advance(s.line, 1), ..s };
    match dispatch(s1, v) {
        Some(r) => r,
        None => ScanView {
            diagnostics: s1.diagnostics.push(
                DiagnosticView::MalformedLine { line: s1.line, keyword: v[0] },
            ),
            ..s1
        },
    }
}

/// The scanner after the given lines, in order.
pub open spec fn scan(lines: Seq<Seq<char>>) -> ScanView
    decreases lines.len(),
{
    if lines.len() == 0 {
        initial_scan()
    } else {
        step(scan(lines.drop_last()), lines.last())
    }
}

pub open spec fn line_views(lines: Seq<String>) -> Seq<Seq<char>> {
    lines.map_values(|l: String| l@)
}

} // verus!
