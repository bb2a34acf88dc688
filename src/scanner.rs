//! The line scanner: one pass over a document, dispatching on the first token
//! of each line, with scope trackers deciding where a construct ends. Each
//! handler is proved to do what its rule in `scan_rules` says.
use vstd::prelude::*;
use crate::lexer::{
    braced_chars, is_float_token, is_numeric_char, is_word, numeric_char, parse_i32, parse_u32,
    string_of, strip_delimiters, strip_token, tokenize, views_of,
};
use crate::model::{
    Animation, AnimationView, Attrib, Curve, CurveView, Diagnostic, GeometryNode,
    GeometryNodeView, GeometryObject, GeometryObjectView, Key, KeyType, KeyView, Material,
    MaterialRef, MaterialView, Metric, TargetType, Texture, TextureView, Time, Track, TrackView,
    Value, diagnostic_views, material_ref_views, material_views, new_node, new_object, node_views,
    object_views, pair_views, texts, texture_views, track_views, triple_views, with_track_view,
};
use crate::scan_rules::{
    ANGLE, ANIMATION, ATTRIB, BEGIN, BEZIER, CLOSE_BRACKET, COLOUR, CURVE, DIFFUSE, DISTANCE, END, EQUALS, FLOAT, FLOAT16, FLOAT2, FLOAT3, FORWARD, GEOMETRY_NODE, GEOMETRY_OBJECT, INDEX, INDEX_ARRAY, KEY, KIND, LINEAR, MATERIAL, MATERIAL_REF, MESH, METRIC, MINUS_CONTROL, NAME, NORMAL, OBJECT_REF, OPEN_BRACKET, PLAIN_STRING, PLUS_CONTROL, POSITION, PRIMITIVE, REF, SPECULAR, STRING, ScanView, TARGET, TEXCOORD, TEXTURE, TIME, TRACK, TRACK_KEY, TRACK_TIME, TRACK_VALUE, TRANSFORM, Trackers, UNSIGNED_INT3, UP, VERTEX_ARRAY, XPOS, XROT, YPOS, YROT, ZPOS, ZROT, advance, animation_span, closed_trackers, curve_of, dispatch, float_items, float_value, groups, initial_scan, is_payload, key_kind, line_views, numbers_into_node, numbers_into_object, on_animation, on_close, on_colour, on_curve, on_geometry_node, on_geometry_object, on_key, on_material, on_material_ref, on_mesh, on_metric, on_name, on_numbers, on_object_ref, on_plain_string, on_texture, on_track, on_vertex_array, open_basic, scan, step, tail_from, track_target, u32_items, write_from,
};
use crate::tracker::{InBasicNode, InDoubleIndexedNode, InIndexedNode};

verus! {

/// The scanner: what the lines read so far have built, and the open constructs.
pub struct Scanner {
    pub metric: Metric,
    pub nodes: Vec<GeometryNode>,
    pub objects: Vec<GeometryObject>,
    pub materials: Vec<Material>,
    pub diagnostics: Vec<Diagnostic>,
    pub trackers: Trackers,
    pub depth: i32,
    pub line: usize,
}

impl View for Scanner {
    type V = ScanView;

    open spec fn view(&self) -> ScanView {
        ScanView {
            metric: self.metric@,
            nodes: node_views(self.nodes@),
            objects: object_views(self.objects@),
            materials: material_views(self.materials@),
            diagnostics: diagnostic_views(self.diagnostics@),
            trackers: self.trackers,
            depth: self.depth,
            line: self.line,
        }
    }
}

/// A handler's result against its spec: on `Some` the state it gives and
/// `true`; on `None` the state unchanged and `false`.
pub open spec fn handled(before: ScanView, after: ScanView, r: Option<ScanView>, ok: bool) -> bool {
    match r {
        Some(x) => ok && after == x,
        None => !ok && after == before,
    }
}

fn new_trackers() -> (r: Trackers)
    ensures
        r == closed_trackers(),
{
    Trackers {
        geometry_node: InIndexedNode::new(),
        transform: InBasicNode::new(),
        float2: InBasicNode::new(),
        float3: InBasicNode::new(),
        float16: InIndexedNode::new(),
        unsigned_int3: InBasicNode::new(),
        geometry_object: InIndexedNode::new(),
        vertex_position: InBasicNode::new(),
        vertex_normal: InBasicNode::new(),
        texcoord: InBasicNode::new(),
        index: InBasicNode::new(),
        material: InDoubleIndexedNode::new(),
        texture: InBasicNode::new(),
        animation: InBasicNode::new(),
        track: InIndexedNode::new(),
        time: InIndexedNode::new(),
        value: InIndexedNode::new(),
    }
}

/// The token stripped of its delimiters, as a string.
fn stripped(t: &Vec<char>) -> (r: String)
    ensures
        r@ == strip_delimiters(t@),
{
    string_of(&strip_token(t))
}

/// The number inside a braced token (see `float_value`).
fn float_chars(t: &Vec<char>) -> (r: Option<Vec<char>>)
    ensures
        match r {
            Some(x) => float_value(t@) == Some(x@),
            None => float_value(t@) is None,
        },
{
    match braced_chars(t) {
        Some(x) => if is_float_token(&x) {
            Some(x)
        } else {
            None
        },
        None => None,
    }
}

/// The numbers among `v[from..]` (see `float_items`).
fn float_items_of(v: &Vec<Vec<char>>, from: usize) -> (r: Vec<Vec<char>>)
    requires
        from <= v@.len(),
    ensures
        views_of(r@) == float_items(views_of(v@).subrange(from as int, v@.len() as int)),
{
    let ghost vv = views_of(v@);
    let mut r: Vec<Vec<char>> = Vec::new();
    let mut i = from;
    assert(views_of(r@) =~= float_items(vv.subrange(from as int, from as int)));
    while i < v.len()
        invariant
            from <= i <= v@.len(),
            vv == views_of(v@),
            views_of(r@) == float_items(vv.subrange(from as int, i as int)),
        decreases v@.len() - i,
    {
        let ghost sub = vv.subrange(from as int, i + 1);
        assert(sub.drop_last() =~= vv.subrange(from as int, i as int));
        assert(sub.last() == v@[i as int]@);
        let t = strip_token(&v[i]);
        if is_float_token(&t) {
            let ghost before = r@;
            r.push(t);
            assert(views_of(r@) =~= views_of(before).push(t@));
        }
        i = i + 1;
    }
    r
}

/// The unsigned integers among the tokens (see `u32_items`).
fn u32_items_of(v: &Vec<Vec<char>>) -> (r: Vec<u32>)
    ensures
        r@ == u32_items(views_of(v@)),
{
    let ghost vv = views_of(v@);
    let mut r: Vec<u32> = Vec::new();
    let mut i: usize = 0;
    assert(r@ =~= u32_items(vv.subrange(0, 0)));
    while i < v.len()
        invariant
            i <= v@.len(),
            vv == views_of(v@),
            r@ == u32_items(vv.subrange(0, i as int)),
        decreases v@.len() - i,
    {
        let ghost sub = vv.subrange(0, i + 1);
        assert(sub.drop_last() =~= vv.subrange(0, i as int));
        assert(sub.last() == v@[i as int]@);
        match parse_u32(&strip_token(&v[i])) {
            Some(x) => r.push(x),
            None => {},
        }
        i = i + 1;
    }
    assert(vv.subrange(0, v@.len() as int) =~= vv);
    r
}

/// Each run of characters as a string.
fn strings_of(f: &Vec<Vec<char>>) -> (r: Vec<String>)
    ensures
        texts(r@) == views_of(f@),
{
    let mut r: Vec<String> = Vec::new();
    let mut i: usize = 0;
    while i < f.len()
        invariant
            i <= f@.len(),
            r@.len() == i,
            texts(r@) == views_of(f@).take(i as int),
        decreases f@.len() - i,
    {
        let ghost before = r@;
        r.push(string_of(&f[i]));
        i = i + 1;
        assert(texts(r@) =~= views_of(f@).take(i as int));
    }
    assert(views_of(f@).take(f@.len() as int) =~= views_of(f@));
    r
}

/// The complete triples of numbers (see `groups`).
fn triples_of(f: &Vec<Vec<char>>) -> (r: Vec<[String; 3]>)
    ensures
        triple_views(r@) == groups(views_of(f@), 3),
{
    let ghost g = groups(views_of(f@), 3);
    let count = f.len() / 3;
    let mut r: Vec<[String; 3]> = Vec::new();
    let mut i: usize = 0;
    while i < count
        invariant
            count == f.len() / 3,
            g == groups(views_of(f@), 3),
            i <= count,
            r@.len() == i,
            triple_views(r@) == g.take(i as int),
        decreases count - i,
    {
        assert(3 * i + 3 <= f.len()) by (nonlinear_arith)
            requires
                i < count,
                count == f.len() / 3,
        ;
        let a = [string_of(&f[3 * i]), string_of(&f[3 * i + 1]), string_of(&f[3 * i + 2])];
        assert(texts(a@) =~= g[i as int]);
        r.push(a);
        i = i + 1;
        assert(triple_views(r@) =~= g.take(i as int));
    }
    assert(g.take(count as int) =~= g);
    r
}

/// The complete pairs of numbers (see `groups`).
fn pairs_of(f: &Vec<Vec<char>>) -> (r: Vec<[String; 2]>)
    ensures
        pair_views(r@) == groups(views_of(f@), 2),
{
    let ghost g = groups(views_of(f@), 2);
    let count = f.len() / 2;
    let mut r: Vec<[String; 2]> = Vec::new();
    let mut i: usize = 0;
    while i < count
        invariant
            count == f.len() / 2,
            g == groups(views_of(f@), 2),
            i <= count,
            r@.len() == i,
            pair_views(r@) == g.take(i as int),
        decreases count - i,
    {
        assert(2 * i + 2 <= f.len()) by (nonlinear_arith)
            requires
                i < count,
                count == f.len() / 2,
        ;
        let a = [string_of(&f[2 * i]), string_of(&f[2 * i + 1])];
        assert(texts(a@) =~= g[i as int]);
        r.push(a);
        i = i + 1;
        assert(pair_views(r@) =~= g.take(i as int));
    }
    assert(g.take(count as int) =~= g);
    r
}

/// Writes the numbers `f` into `raw` from position `pos` on; returns the
/// position after them.
fn write_numbers(raw: &mut Vec<String>, pos: usize, f: &Vec<Vec<char>>) -> (r: usize)
    ensures
        texts(final(raw)@) == write_from(texts(old(raw)@), pos as int, views_of(f@)),
        r == advance(pos, f@.len()),
{
    let ghost t0 = texts(raw@);
    let ghost vf = views_of(f@);
    let mut cur = pos;
    let mut i: usize = 0;
    assert(texts(raw@) =~= write_from(t0, pos as int, vf.take(0)));
    while i < f.len()
        invariant
            i <= f@.len(),
            vf == views_of(f@),
            t0.len() == raw@.len(),
            texts(raw@) == write_from(t0, pos as int, vf.take(i as int)),
            cur == advance(pos, i as nat),
        decreases f@.len() - i,
    {
        let ghost before = texts(raw@);
        if cur < raw.len() {
            raw[cur] = string_of(&f[i]);
            assert(texts(raw@) =~= before.update(cur as int, vf[i as int]));
        }
        assert(texts(raw@) =~= write_from(t0, pos as int, vf.take(i + 1)));
        if cur < usize::MAX {
            cur = cur + 1;
        }
        i = i + 1;
    }
    assert(vf.take(f@.len() as int) =~= vf);
    cur
}

fn advance_one(pos: usize) -> (r: usize)
    ensures
        r == advance(pos, 1),
{
    if pos < usize::MAX {
        pos + 1
    } else {
        pos
    }
}

/// The time span on an `Animation` header (see `animation_span`).
fn animation_span_of(v: &Vec<Vec<char>>) -> (r: Option<(String, String)>)
    requires
        v@.len() >= 1,
    ensures
        match r {
            Some((b, e)) => animation_span(views_of(v@)) == Some((b@, e@)),
            None => animation_span(views_of(v@)) is None,
        },
{
    let ghost vv = views_of(v@);
    let n = v.len();
    if n > 1 {
        assert(vv[1] == v@[1]@);
    }
    if n > 1 && is_word(&v[1], BEGIN) {
        if n < 3 {
            return None;
        }
        assert(vv[2] == v@[2]@);
        if !is_word(&v[2], EQUALS) {
            return Some(("0.0".to_owned(), "0.0".to_owned()));
        }
        if n < 4 {
            return None;
        }
        assert(vv[3] == v@[3]@);
        let b = strip_token(&v[3]);
        let begin = if is_float_token(&b) {
            string_of(&b)
        } else {
            "0.0".to_owned()
        };
        let mut end = "0.0".to_owned();
        if n >= 7 {
            assert(vv[4] == v@[4]@ && vv[5] == v@[5]@ && vv[6] == v@[6]@);
            if is_word(&v[4], END) && is_word(&v[5], EQUALS) {
                let e = strip_token(&v[6]);
                if is_float_token(&e) {
                    end = string_of(&e);
                }
            }
        }
        Some((begin, end))
    } else {
        Some(("0.0".to_owned(), "0.0".to_owned()))
    }
}

/// The target on a `Track` header (see `track_target`).
fn track_target_of(v: &Vec<Vec<char>>) -> (r: Option<TargetType>)
    requires
        v@.len() >= 2,
    ensures
        r == track_target(views_of(v@)),
{
    let ghost vv = views_of(v@);
    let n = v.len();
    assert(vv[1] == v@[1]@);
    if !is_word(&v[1], TARGET) {
        return Some(TargetType::Unknown);
    }
    if n < 3 {
        return None;
    }
    assert(vv[2] == v@[2]@);
    if !is_word(&v[2], EQUALS) {
        return Some(TargetType::Unknown);
    }
    if n < 4 {
        return None;
    }
    assert(vv[3] == v@[3]@);
    let t = &v[3];
    Some(
        if is_word(t, XPOS) {
            TargetType::Xpos
        } else if is_word(t, YPOS) {
            TargetType::Ypos
        } else if is_word(t, ZPOS) {
            TargetType::Zpos
        } else if is_word(t, XROT) {
            TargetType::Xrot
        } else if is_word(t, YROT) {
            TargetType::Yrot
        } else if is_word(t, ZROT) {
            TargetType::Zrot
        } else {
            TargetType::Unknown
        },
    )
}

/// The kind of a `Key` line and where its numbers start (see `key_kind`).
fn key_kind_of(v: &Vec<Vec<char>>) -> (r: Option<(KeyType, usize)>)
    requires
        v@.len() >= 1,
    ensures
        match r {
            Some((k, off)) => key_kind(views_of(v@)) == Some((k, off as int)),
            None => key_kind(views_of(v@)) is None,
        },
{
    let ghost vv = views_of(v@);
    let n = v.len();
    if n < 2 {
        return None;
    }
    assert(vv[1] == v@[1]@);
    if !is_word(&v[1], KIND) {
        return Some((KeyType::Single, 2));
    }
    if n < 3 {
        return None;
    }
    assert(vv[2] == v@[2]@);
    if !is_word(&v[2], EQUALS) {
        return Some((KeyType::Single, 4));
    }
    if n < 4 {
        return None;
    }
    assert(vv[3] == v@[3]@);
    if is_word(&v[3], PLUS_CONTROL) {
        Some((KeyType::PlusControl, 4))
    } else if is_word(&v[3], MINUS_CONTROL) {
        Some((KeyType::MinusControl, 4))
    } else {
        Some((KeyType::Single, 4))
    }
}

fn curve_of_token(t: &Vec<char>) -> (r: Curve)
    ensures
        r == curve_of(t@),
{
    if is_word(t, LINEAR) {
        Curve::Linear
    } else if is_word(t, BEZIER) {
        Curve::Bezier
    } else {
        Curve::Unknown
    }
}

/// Feeds a line of numbers to the mesh buffers that the trackers leave open.
fn feed_object(o: &mut GeometryObject, t: Trackers, f: &Vec<Vec<char>>, v: &Vec<Vec<char>>)
    ensures
        final(o)@ == numbers_into_object(old(o)@, t, views_of(f@), u32_items(views_of(v@))),
{
    let ghost o0 = o@;
    if t.vertex_position.in_use && t.float3.in_use {
        let mut g = triples_of(f);
        let ghost gv = triple_views(g@);
        o.vertex.append(&mut g);
        assert(triple_views(o.vertex@) =~= o0.vertex + gv);
    }
    if t.vertex_normal.in_use && t.float3.in_use {
        let mut g = triples_of(f);
        let ghost gv = triple_views(g@);
        o.normal.append(&mut g);
        assert(triple_views(o.normal@) =~= o0.normal + gv);
    }
    if t.texcoord.in_use && t.float2.in_use {
        let mut g = pairs_of(f);
        let ghost gv = pair_views(g@);
        o.texcoord.append(&mut g);
        assert(pair_views(o.texcoord@) =~= o0.texcoord + gv);
    }
    if t.index.in_use && t.unsigned_int3.in_use {
        let mut u = u32_items_of(v);
        o.index.append(&mut u);
    }
}

/// Whether the first token starts a line of numbers (see `is_payload`).
fn is_payload_token(w: &Vec<char>) -> (r: bool)
    ensures
        r == is_payload(w@),
{
    if w.len() <= 1 {
        return false;
    }
    let mut i: usize = 0;
    while i < w.len()
        invariant
            1 < w@.len(),
            i <= w@.len(),
            forall|j: int| 0 <= j < i ==> !numeric_char(#[trigger] w@[j]),
        decreases w@.len() - i,
    {
        if is_numeric_char(w[i]) {
            assert(numeric_char(w@[i as int]));
            return true;
        }
        i = i + 1;
    }
    false
}

impl Scanner {
    pub fn new() -> (r: Scanner)
        ensures
            r@ == initial_scan(),
    {
        let r = Scanner {
            metric: Metric::new(),
            nodes: Vec::new(),
            objects: Vec::new(),
            materials: Vec::new(),
            diagnostics: Vec::new(),
            trackers: new_trackers(),
            depth: 0,
            line: 0,
        };
        assert(node_views(r.nodes@) =~= Seq::empty());
        assert(object_views(r.objects@) =~= Seq::empty());
        assert(material_views(r.materials@) =~= Seq::empty());
        assert(diagnostic_views(r.diagnostics@) =~= Seq::empty());
        r
    }

    fn on_metric(&mut self, v: &Vec<Vec<char>>) -> (ok: bool)
        requires
            v@.len() >= 1,
        ensures
            handled(old(self)@, final(self)@, on_metric(old(self)@, views_of(v@)), ok),
    {
        let ghost vv = views_of(v@);
        let n = v.len();
        if n < 3 {
            return false;
        }
        assert(vv[1] == v@[1]@ && vv[2] == v@[2]@);
        if !(is_word(&v[1], KEY) && is_word(&v[2], EQUALS)) {
            return true;
        }
        if n < 4 {
            return false;
        }
        assert(vv[3] == v@[3]@);
        let key = &v[3];
        if is_word(key, DISTANCE) || is_word(key, ANGLE) || is_word(key, TIME) {
            if n < 5 {
                return false;
            }
            assert(vv[4] == v@[4]@);
            if !is_word(&v[4], FLOAT) {
                return true;
            }
            if n < 6 {
                return false;
            }
            assert(vv[5] == v@[5]@);
            match float_chars(&v[5]) {
                None => true,
                Some(f) => {
                    let f = string_of(&f);
                    if is_word(key, DISTANCE) {
                        self.metric.distance = f;
                    } else if is_word(key, ANGLE) {
                        self.metric.angle = f;
                    } else {
                        self.metric.time = f;
                    }
                    true
                },
            }
        } else if is_word(key, UP) || is_word(key, FORWARD) {
            if n < 5 {
                return false;
            }
            assert(vv[4] == v@[4]@);
            if !is_word(&v[4], STRING) {
                return true;
            }
            if n < 6 {
                return false;
            }
            assert(vv[5] == v@[5]@);
            match braced_chars(&v[5]) {
                None => true,
                Some(x) => {
                    let x = string_of(&x);
                    if is_word(key, UP) {
                        self.metric.up = x;
                    } else {
                        self.metric.forward = x;
                    }
                    true
                },
            }
        } else {
            true
        }
    }

    fn on_geometry_node(&mut self, v: &Vec<Vec<char>>) -> (ok: bool)
        requires
            v@.len() >= 1,
        ensures
            handled(old(self)@, final(self)@, on_geometry_node(old(self)@, views_of(v@)), ok),
    {
        if v.len() < 2 {
            return false;
        }
        let ghost vv = views_of(v@);
        assert(vv[1] == v@[1]@);
        let position = self.nodes.len();
        self.trackers.geometry_node.open(self.depth, position);
        self.nodes.push(GeometryNode::new(string_of(&v[1])));
        assert(node_views(self.nodes@) =~= node_views(old(self).nodes@).push(new_node(vv[1])));
        true
    }

    fn on_name(&mut self, v: &Vec<Vec<char>>) -> (ok: bool)
        requires
            v@.len() >= 1,
        ensures
            handled(old(self)@, final(self)@, on_name(old(self)@, views_of(v@)), ok),
    {
        let ghost vv = views_of(v@);
        if v.len() < 2 {
            return false;
        }
        assert(vv[1] == v@[1]@);
        if !is_word(&v[1], STRING) {
            return true;
        }
        if v.len() < 3 {
            return false;
        }
        assert(vv[2] == v@[2]@);
        let ghost name = strip_delimiters(vv[2]);
        let ghost s0 = self@;
        let t = self.trackers.geometry_node;
        if t.in_use && t.position < self.nodes.len() {
            let p = t.position;
            self.nodes[p].name = stripped(&v[2]);
            assert(node_views(self.nodes@) =~= s0.nodes.update(
                p as int,
                GeometryNodeView { name, ..s0.nodes[p as int] },
            ));
        }
        let ghost s1 = self@;
        let m = self.trackers.material;
        if m.in_use && m.position < self.materials.len() {
            let p = m.position;
            self.materials[p].name = stripped(&v[2]);
            assert(material_views(self.materials@) =~= s1.materials.update(
                p as int,
                MaterialView { name, ..s1.materials[p as int] },
            ));
        }
        true
    }

    fn on_object_ref(&mut self, v: &Vec<Vec<char>>) -> (ok: bool)
        requires
            v@.len() >= 1,
        ensures
            handled(old(self)@, final(self)@, on_object_ref(old(self)@, views_of(v@)), ok),
    {
        let ghost vv = views_of(v@);
        if v.len() < 2 {
            return false;
        }
        assert(vv[1] == v@[1]@);
        if !is_word(&v[1], REF) {
            return true;
        }
        if v.len() < 3 {
            return false;
        }
        assert(vv[2] == v@[2]@);
        let ghost s0 = self@;
        let t = self.trackers.geometry_node;
        if t.in_use && t.position < self.nodes.len() {
            let p = t.position;
            self.nodes[p].object_ref = stripped(&v[2]);
            assert(node_views(self.nodes@) =~= s0.nodes.update(
                p as int,
                GeometryNodeView { object_ref: strip_delimiters(vv[2]), ..s0.nodes[p as int] },
            ));
        }
        true
    }

    fn on_material_ref(&mut self, v: &Vec<Vec<char>>) -> (ok: bool)
        requires
            v@.len() >= 1,
        ensures
            handled(old(self)@, final(self)@, on_material_ref(old(self)@, views_of(v@)), ok),
    {
        let ghost vv = views_of(v@);
        let n = v.len();
        if n < 2 {
            return false;
        }
        assert(vv[1] == v@[1]@);
        if !is_word(&v[1], INDEX) {
            return true;
        }
        if n < 3 {
            return false;
        }
        assert(vv[2] == v@[2]@);
        if !is_word(&v[2], EQUALS) {
            return true;
        }
        if n < 4 {
            return false;
        }
        assert(vv[3] == v@[3]@);
        let default_slot = match parse_i32(&strip_token(&v[3])) {
            Some(x) => x == 0,
            None => true,
        };
        if !default_slot {
            return true;
        }
        if n < 5 {
            return false;
        }
        assert(vv[4] == v@[4]@);
        if !is_word(&v[4], REF) || !self.trackers.geometry_node.in_use {
            return true;
        }
        if n < 6 {
            return false;
        }
        assert(vv[5] == v@[5]@);
        let ghost s0 = self@;
        let t = self.trackers.geometry_node;
        if t.position < self.nodes.len() {
            let p = t.position;
            let r = MaterialRef { index: 0, material_ref: stripped(&v[5]) };
            let ghost rv = r@;
            self.nodes[p].materialref.push(r);
            assert(material_ref_views(self.nodes@[p as int].materialref@) =~= s0.nodes[p as int].materialref.push(rv));
            assert(node_views(self.nodes@) =~= s0.nodes.update(
                p as int,
                GeometryNodeView {
                    materialref: s0.nodes[p as int].materialref.push(rv),
                    ..s0.nodes[p as int]
                },
            ));
        }
        true
    }

    fn on_geometry_object(&mut self, v: &Vec<Vec<char>>) -> (ok: bool)
        requires
            v@.len() >= 1,
        ensures
            handled(old(self)@, final(self)@, on_geometry_object(old(self)@, views_of(v@)), ok),
    {
        if v.len() < 2 {
            return false;
        }
        let ghost vv = views_of(v@);
        assert(vv[1] == v@[1]@);
        let position = self.objects.len();
        self.trackers.geometry_object.open(self.depth, position);
        let mut o = GeometryObject::new();
        o.name = stripped(&v[1]);
        let ghost ov = o@;
        assert(ov == GeometryObjectView { name: strip_delimiters(vv[1]), ..new_object() });
        self.objects.push(o);
        assert(object_views(self.objects@) =~= object_views(old(self).objects@).push(ov));
        true
    }

    fn on_mesh(&mut self, v: &Vec<Vec<char>>) -> (ok: bool)
        requires
            v@.len() >= 1,
        ensures
            handled(old(self)@, final(self)@, on_mesh(old(self)@, views_of(v@)), ok),
    {
        let ghost vv = views_of(v@);
        if !self.trackers.geometry_object.in_use {
            return true;
        }
        let n = v.len();
        if n < 2 {
            return false;
        }
        assert(vv[1] == v@[1]@);
        if !is_word(&v[1], PRIMITIVE) {
            return true;
        }
        if n < 3 {
            return false;
        }
        assert(vv[2] == v@[2]@);
        if !is_word(&v[2], EQUALS) {
            return true;
        }
        if n < 4 {
            return false;
        }
        assert(vv[3] == v@[3]@);
        let ghost s0 = self@;
        let t = self.trackers.geometry_object;
        if t.position < self.objects.len() {
            let p = t.position;
            self.objects[p].mesh = stripped(&v[3]);
            assert(object_views(self.objects@) =~= s0.objects.update(
                p as int,
                GeometryObjectView { mesh: strip_delimiters(vv[3]), ..s0.objects[p as int] },
            ));
        }
        true
    }

    fn on_vertex_array(&mut self, v: &Vec<Vec<char>>) -> (ok: bool)
        requires
            v@.len() >= 1,
        ensures
            handled(old(self)@, final(self)@, on_vertex_array(old(self)@, views_of(v@)), ok),
    {
        let ghost vv = views_of(v@);
        if !self.trackers.geometry_object.in_use {
            return true;
        }
        let n = v.len();
        if n < 2 {
            return false;
        }
        assert(vv[1] == v@[1]@);
        if !is_word(&v[1], ATTRIB) {
            return true;
        }
        if n < 3 {
            return false;
        }
        assert(vv[2] == v@[2]@);
        if !is_word(&v[2], EQUALS) {
            return true;
        }
        if n < 4 {
            return false;
        }
        assert(vv[3] == v@[3]@);
        let d = self.depth;
        if is_word(&v[3], POSITION) {
            self.trackers.vertex_position.open(d);
        } else if is_word(&v[3], NORMAL) {
            self.trackers.vertex_normal.open(d);
        } else if is_word(&v[3], TEXCOORD) {
            self.trackers.texcoord.open(d);
        }
        true
    }

    fn on_material(&mut self, v: &Vec<Vec<char>>) -> (ok: bool)
        requires
            v@.len() >= 1,
        ensures
            handled(old(self)@, final(self)@, on_material(old(self)@, views_of(v@)), ok),
    {
        if v.len() < 2 {
            return false;
        }
        let ghost vv = views_of(v@);
        assert(vv[1] == v@[1]@);
        let position = self.materials.len();
        self.trackers.material.open(self.depth, position);
        let mut m = Material::new();
        m.material_ref = stripped(&v[1]);
        let ghost mv = m@;
        self.materials.push(m);
        assert(material_views(self.materials@) =~= material_views(old(self).materials@).push(mv));
        true
    }

    fn on_texture(&mut self, v: &Vec<Vec<char>>) -> (ok: bool)
        requires
            v@.len() >= 1,
        ensures
            handled(old(self)@, final(self)@, on_texture(old(self)@, views_of(v@)), ok),
    {
        let ghost vv = views_of(v@);
        if !self.trackers.material.in_use {
            return true;
        }
        let n = v.len();
        if n < 2 {
            return false;
        }
        assert(vv[1] == v@[1]@);
        if !is_word(&v[1], ATTRIB) {
            return true;
        }
        if n < 3 {
            return false;
        }
        assert(vv[2] == v@[2]@);
        if !is_word(&v[2], EQUALS) {
            return true;
        }
        if n < 4 {
            return false;
        }
        assert(vv[3] == v@[3]@);
        let ghost s0 = self@;
        let p = self.trackers.material.position;
        if p < self.materials.len() {
            let attrib = if is_word(&v[3], DIFFUSE) {
                Attrib::Diffuse
            } else if is_word(&v[3], SPECULAR) {
                Attrib::Specular
            } else if is_word(&v[3], NORMAL) {
                Attrib::Normal
            } else {
                Attrib::Unknown
            };
            let mut x = Texture::new();
            x.attrib = attrib;
            let ghost xv = x@;
            let k = self.materials[p].textures.len();
            self.trackers.texture.open(self.depth);
            self.trackers.material.second_index = k;
            self.materials[p].textures.push(x);
            assert(texture_views(self.materials@[p as int].textures@) =~= s0.materials[p as int].textures.push(xv));
            assert(material_views(self.materials@) =~= s0.materials.update(
                p as int,
                MaterialView {
                    textures: s0.materials[p as int].textures.push(xv),
                    ..s0.materials[p as int]
                },
            ));
        }
        true
    }

    fn on_plain_string(&mut self, v: &Vec<Vec<char>>) -> (ok: bool)
        requires
            v@.len() >= 1,
        ensures
            handled(old(self)@, final(self)@, on_plain_string(old(self)@, views_of(v@)), ok),
    {
        let ghost vv = views_of(v@);
        if !(self.trackers.material.in_use && self.trackers.texture.in_use) {
            return true;
        }
        if v.len() < 2 {
            return false;
        }
        assert(vv[1] == v@[1]@);
        let ghost s0 = self@;
        let p = self.trackers.material.position;
        let k = self.trackers.material.second_index;
        if p < self.materials.len() && k < self.materials[p].textures.len() {
            self.materials[p].textures[k].texture = stripped(&v[1]);
            let ghost m0 = s0.materials[p as int];
            assert(texture_views(self.materials@[p as int].textures@) =~= m0.textures.update(
                k as int,
                TextureView { texture: strip_delimiters(vv[1]), ..m0.textures[k as int] },
            ));
            assert(material_views(self.materials@) =~= s0.materials.update(
                p as int,
                MaterialView {
                    textures: m0.textures.update(
                        k as int,
                        TextureView { texture: strip_delimiters(vv[1]), ..m0.textures[k as int] },
                    ),
                    ..m0
                },
            ));
        }
        true
    }

    fn on_colour(&mut self, v: &Vec<Vec<char>>) -> (ok: bool)
        requires
            v@.len() >= 1,
        ensures
            handled(old(self)@, final(self)@, on_colour(old(self)@, views_of(v@)), ok),
    {
        let ghost vv = views_of(v@);
        if !self.trackers.material.in_use {
            return true;
        }
        let n = v.len();
        if n < 2 {
            return false;
        }
        assert(vv[1] == v@[1]@);
        if !is_word(&v[1], ATTRIB) {
            return true;
        }
        if n < 3 {
            return false;
        }
        assert(vv[2] == v@[2]@);
        if !is_word(&v[2], EQUALS) {
            return true;
        }
        if n < 4 {
            return false;
        }
        assert(vv[3] == v@[3]@);
        if !is_word(&v[3], DIFFUSE) {
            return true;
        }
        if n < 5 {
            return false;
        }
        assert(vv[4] == v@[4]@);
        if !is_word(&strip_token(&v[4]), FLOAT3) {
            return true;
        }
        let f = float_items_of(v, 5);
        let ghost g = groups(views_of(f@), 3);
        let count = f.len() / 3;
        let ghost s0 = self@;
        let p = self.trackers.material.position;
        if p < self.materials.len() && count > 0 {
            let last = count - 1;
            assert(3 * last + 3 <= f.len()) by (nonlinear_arith)
                requires
                    last + 1 == count,
                    count == f.len() / 3,
            ;
            let mut c: Vec<String> = Vec::new();
            c.push(string_of(&f[3 * last]));
            c.push(string_of(&f[3 * last + 1]));
            c.push(string_of(&f[3 * last + 2]));
            assert(texts(c@) =~= g.last());
            let ghost cv = texts(c@);
            self.materials[p].diffuse_colour = c;
            assert(material_views(self.materials@) =~= s0.materials.update(
                p as int,
                MaterialView { diffuse_colour: cv, ..s0.materials[p as int] },
            ));
        }
        true
    }

    fn on_animation(&mut self, v: &Vec<Vec<char>>) -> (ok: bool)
        requires
            v@.len() >= 1,
        ensures
            handled(old(self)@, final(self)@, on_animation(old(self)@, views_of(v@)), ok),
    {
        if !self.trackers.geometry_node.in_use {
            return true;
        }
        match animation_span_of(v) {
            None => false,
            Some((b, e)) => {
                self.trackers.animation.open(self.depth);
                let ghost s1 = self@;
                let p = self.trackers.geometry_node.position;
                if p < self.nodes.len() {
                    let a = Animation { begin: b, end: e, tracks: Vec::new() };
                    let ghost av = a@;
                    assert(av.tracks =~= Seq::empty());
                    self.nodes[p].animation = Some(a);
                    assert(node_views(self.nodes@) =~= s1.nodes.update(
                        p as int,
                        GeometryNodeView { animation: Some(av), ..s1.nodes[p as int] },
                    ));
                }
                true
            },
        }
    }

    fn on_track(&mut self, v: &Vec<Vec<char>>) -> (ok: bool)
        requires
            v@.len() >= 1,
        ensures
            handled(old(self)@, final(self)@, on_track(old(self)@, views_of(v@)), ok),
    {
        let t = self.trackers;
        if !(t.geometry_node.in_use && t.animation.in_use) {
            return true;
        }
        if v.len() < 2 {
            return false;
        }
        let target = match track_target_of(v) {
            None => {
                return false;
            },
            Some(x) => x,
        };
        let p = t.geometry_node.position;
        let ghost s0 = self@;
        if p < self.nodes.len() && self.nodes[p].animation.is_some() {
            let k = match &self.nodes[p].animation {
                Some(a) => a.tracks.len(),
                None => 0,
            };
            let tr = Track { target, time: Time::new(), value: Value::new() };
            let ghost tv = tr@;
            let ghost a0 = s0.nodes[p as int].animation->0;
            if let Some(a) = &mut self.nodes[p].animation {
                a.push_track(tr);
            }
            assert(node_views(self.nodes@) =~= s0.nodes.update(
                p as int,
                GeometryNodeView {
                    animation: Some(AnimationView { tracks: a0.tracks.push(tv), ..a0 }),
                    ..s0.nodes[p as int]
                },
            ));
            self.trackers.track.open(self.depth, k);
        } else {
            self.trackers.track.open(self.depth, 0);
        }
        true
    }

    fn on_curve(&mut self, v: &Vec<Vec<char>>, is_time: bool) -> (ok: bool)
        requires
            v@.len() >= 1,
        ensures
            handled(old(self)@, final(self)@, on_curve(old(self)@, views_of(v@), is_time), ok),
    {
        let ghost vv = views_of(v@);
        let t = self.trackers;
        if !(t.geometry_node.in_use && t.animation.in_use && t.track.in_use) {
            return true;
        }
        let p = t.geometry_node.position;
        let has_animation = p < self.nodes.len() && self.nodes[p].animation.is_some();
        let mut curve: Option<Curve> = None;
        if has_animation {
            let n = v.len();
            if n < 2 {
                return false;
            }
            assert(vv[1] == v@[1]@);
            if is_word(&v[1], CURVE) {
                if n < 3 {
                    return false;
                }
                assert(vv[2] == v@[2]@);
                if is_word(&v[2], EQUALS) {
                    if n < 4 {
                        return false;
                    }
                    assert(vv[3] == v@[3]@);
                    curve = Some(curve_of_token(&v[3]));
                }
            }
        }
        if is_time {
            let position = t.time.position;
            self.trackers.time.open(self.depth, position);
        } else {
            let position = t.value.position;
            self.trackers.value.open(self.depth, position);
        }
        let ghost s1 = self@;
        if let Some(c) = curve {
            let k = t.track.position;
            let count = match &self.nodes[p].animation {
                Some(a) => a.tracks.len(),
                None => 0,
            };
            if k < count {
                let ghost a0 = s1.nodes[p as int].animation->0;
                let ghost tr = a0.tracks[k as int];
                if let Some(a) = &mut self.nodes[p].animation {
                    a.restart_curve(k, c, is_time);
                }
                assert(node_views(self.nodes@) =~= s1.nodes.update(
                    p as int,
                    GeometryNodeView {
                        animation: Some(
                            with_track_view(
                                a0,
                                k as int,
                                if is_time {
                                    TrackView { time: CurveView { curve: c, keys: Seq::empty() }, ..tr }
                                } else {
                                    TrackView { value: CurveView { curve: c, keys: Seq::empty() }, ..tr }
                                },
                            ),
                        ),
                        ..s1.nodes[p as int]
                    },
                ));
            }
        }
        true
    }

    fn on_key(&mut self, v: &Vec<Vec<char>>) -> (ok: bool)
        requires
            v@.len() >= 1,
        ensures
            handled(old(self)@, final(self)@, on_key(old(self)@, views_of(v@)), ok),
    {
        let ghost vv = views_of(v@);
        let t = self.trackers;
        if !(t.geometry_node.in_use && t.animation.in_use && t.track.in_use) {
            return true;
        }
        let p = t.geometry_node.position;
        if !(p < self.nodes.len() && self.nodes[p].animation.is_some()) || !(t.time.in_use
            || t.value.in_use) {
            return true;
        }
        let (kind, off) = match key_kind_of(v) {
            None => {
                return false;
            },
            Some(x) => x,
        };
        let k = t.track.position;
        let count = match &self.nodes[p].animation {
            Some(a) => a.tracks.len(),
            None => 0,
        };
        if k >= count {
            return true;
        }
        let f = if off <= v.len() {
            float_items_of(v, off)
        } else {
            Vec::new()
        };
        assert(views_of(f@) =~= float_items(tail_from(vv, off as int)));
        let ghost key = KeyView { floats: float_items(tail_from(vv, off as int)), key_type: kind };
        let ghost s0 = self@;
        let ghost a0 = s0.nodes[p as int].animation->0;
        let ghost tr = a0.tracks[k as int];
        let ghost tr1 = if t.time.in_use {
            TrackView { time: CurveView { keys: tr.time.keys.push(key), ..tr.time }, ..tr }
        } else {
            tr
        };
        if t.time.in_use {
            let key1 = Key { floats: strings_of(&f), key_type: kind };
            assert(key1@ == key);
            if let Some(a) = &mut self.nodes[p].animation {
                a.push_key(k, key1, true);
            }
            self.trackers.time.position = advance_one(t.time.position);
            assert(self@.nodes =~= s0.nodes.update(
                p as int,
                GeometryNodeView {
                    animation: Some(with_track_view(a0, k as int, tr1)),
                    ..s0.nodes[p as int]
                },
            ));
        } else {
            assert(with_track_view(a0, k as int, tr1).tracks =~= a0.tracks);
            assert(self@.nodes =~= s0.nodes.update(
                p as int,
                GeometryNodeView {
                    animation: Some(with_track_view(a0, k as int, tr1)),
                    ..s0.nodes[p as int]
                },
            ));
        }
        let ghost s1 = self@;
        let ghost a1 = with_track_view(a0, k as int, tr1);
        assert(s1.nodes[p as int].animation == Some(a1));
        let ghost tr2 = if t.value.in_use {
            TrackView { value: CurveView { keys: tr1.value.keys.push(key), ..tr1.value }, ..tr1 }
        } else {
            tr1
        };
        if t.value.in_use {
            assert(node_views(self.nodes@)[p as int] == self.nodes@[p as int]@);
            assert(track_views(self.nodes@[p as int].animation->0.tracks@).len()
                == self.nodes@[p as int].animation->0.tracks@.len());
            let key2 = Key { floats: strings_of(&f), key_type: kind };
            assert(key2@ == key);
            if let Some(a) = &mut self.nodes[p].animation {
                a.push_key(k, key2, false);
            }
            self.trackers.value.position = advance_one(t.value.position);
            assert(with_track_view(a1, k as int, tr2) == with_track_view(a0, k as int, tr2)) by {
                assert(with_track_view(a1, k as int, tr2).tracks =~= with_track_view(a0, k as int, tr2).tracks);
            }
        } else {
            assert(with_track_view(a0, k as int, tr2).tracks =~= a1.tracks);
        }
        assert(self@.nodes =~= s0.nodes.update(
            p as int,
            GeometryNodeView {
                animation: Some(with_track_view(a0, k as int, tr2)),
                ..s0.nodes[p as int]
            },
        ));
        true
    }

    fn on_numbers(&mut self, v: &Vec<Vec<char>>)
        ensures
            final(self)@ == on_numbers(old(self)@, views_of(v@)),
    {
        let f = float_items_of(v, 0);
        assert(views_of(v@).subrange(0, v@.len() as int) =~= views_of(v@));
        let ghost vf = views_of(f@);
        let ghost s0 = self@;
        let t = self.trackers;
        if t.transform.in_use && t.float16.in_use {
            let p = t.geometry_node.position;
            if t.geometry_node.in_use && p < self.nodes.len() {
                let np = write_numbers(&mut self.nodes[p].raw_transform, t.float16.position, &f);
                self.trackers.float16.position = np;
                assert(self@.nodes =~= s0.nodes.update(
                    p as int,
                    GeometryNodeView {
                        raw_transform: write_from(
                            s0.nodes[p as int].raw_transform,
                            t.float16.position as int,
                            vf,
                        ),
                        ..s0.nodes[p as int]
                    },
                ));
            }
        }
        let ghost s1 = self@;
        assert(s1 == numbers_into_node(s0, vf));
        let t = self.trackers;
        let o = t.geometry_object.position;
        if t.geometry_object.in_use && o < self.objects.len() {
            feed_object(&mut self.objects[o], t, &f, v);
            let ghost s2 = self@;
            assert(s2.objects =~= s1.objects.update(
                o as int,
                numbers_into_object(s1.objects[o as int], t, vf, u32_items(views_of(v@))),
            ));
            if t.texture.in_use && t.transform.in_use && t.float16.in_use {
                let mp = t.material.position;
                let k = t.material.second_index;
                if t.material.in_use && mp < self.materials.len() && k
                    < self.materials[mp].textures.len() {
                    let np = write_numbers(
                        &mut self.materials[mp].textures[k].raw_transform,
                        t.float16.position,
                        &f,
                    );
                    self.trackers.float16.position = np;
                    let ghost m0 = s2.materials[mp as int];
                    let ghost x0 = m0.textures[k as int];
                    assert(self@.materials[mp as int].textures =~= m0.textures.update(
                        k as int,
                        TextureView {
                            raw_transform: write_from(x0.raw_transform, t.float16.position as int, vf),
                            ..x0
                        },
                    ));
                    assert(self@.materials =~= s2.materials.update(
                        mp as int,
                        MaterialView {
                            textures: m0.textures.update(
                                k as int,
                                TextureView {
                                    raw_transform: write_from(
                                        x0.raw_transform,
                                        t.float16.position as int,
                                        vf,
                                    ),
                                    ..x0
                                },
                            ),
                            ..m0
                        },
                    ));
                }
            }
        }
    }

    fn on_close(&mut self)
        ensures
            final(self)@ == on_close(old(self)@),
    {
        let d = if self.depth > i32::MIN {
            self.depth - 1
        } else {
            self.depth
        };
        self.depth = d;
        self.trackers.geometry_node.close_at(d);
        self.trackers.transform.close_at(d);
        self.trackers.float2.close_at(d);
        self.trackers.float3.close_at(d);
        self.trackers.float16.close_at(d);
        self.trackers.unsigned_int3.close_at(d);
        self.trackers.geometry_object.close_at(d);
        self.trackers.vertex_position.close_at(d);
        self.trackers.vertex_normal.close_at(d);
        self.trackers.texcoord.close_at(d);
        self.trackers.index.close_at(d);
        self.trackers.material.close_at(d);
        self.trackers.texture.close_at(d);
        self.trackers.animation.close_at(d);
        self.trackers.track.close_at(d);
        self.trackers.time.close_at(d);
        self.trackers.value.close_at(d);
    }

    fn open_basic(&mut self, w: &Vec<char>)
        ensures
            final(self)@ == open_basic(old(self)@, w@),
    {
        let d = self.depth;
        if is_word(w, TRANSFORM) {
            self.trackers.transform.open(d);
        } else if is_word(w, FLOAT2) {
            self.trackers.float2.open(d);
        } else if is_word(w, FLOAT3) {
            self.trackers.float3.open(d);
        } else if is_word(w, FLOAT16) {
            self.trackers.float16.open(d, 0);
        } else {
            self.trackers.unsigned_int3.open(d);
        }
    }

    fn dispatch(&mut self, v: &Vec<Vec<char>>) -> (ok: bool)
        requires
            v@.len() >= 1,
        ensures
            handled(old(self)@, final(self)@, dispatch(old(self)@, views_of(v@)), ok),
    {
        let ghost vv = views_of(v@);
        assert(vv[0] == v@[0]@);
        let w = &v[0];
        if is_word(w, METRIC) {
            self.on_metric(v)
        } else if is_word(w, GEOMETRY_NODE) {
            self.on_geometry_node(v)
        } else if is_word(w, NAME) {
            self.on_name(v)
        } else if is_word(w, OBJECT_REF) {
            self.on_object_ref(v)
        } else if is_word(w, MATERIAL_REF) {
            self.on_material_ref(v)
        } else if is_word(w, TRANSFORM) || is_word(w, FLOAT2) || is_word(w, FLOAT3) || is_word(
            w,
            FLOAT16,
        ) || is_word(w, UNSIGNED_INT3) {
            self.open_basic(w);
            true
        } else if is_word(w, GEOMETRY_OBJECT) {
            self.on_geometry_object(v)
        } else if is_word(w, MESH) {
            self.on_mesh(v)
        } else if is_word(w, VERTEX_ARRAY) {
            self.on_vertex_array(v)
        } else if is_word(w, INDEX_ARRAY) {
            if self.trackers.geometry_object.in_use {
                let d = self.depth;
                self.trackers.index.open(d);
            }
            true
        } else if is_word(w, MATERIAL) {
            self.on_material(v)
        } else if is_word(w, TEXTURE) {
            self.on_texture(v)
        } else if is_word(w, PLAIN_STRING) {
            self.on_plain_string(v)
        } else if is_word(w, COLOUR) {
            self.on_colour(v)
        } else if is_word(w, ANIMATION) {
            self.on_animation(v)
        } else if is_word(w, TRACK) {
            self.on_track(v)
        } else if is_word(w, TRACK_TIME) {
            self.on_curve(v, true)
        } else if is_word(w, TRACK_VALUE) {
            self.on_curve(v, false)
        } else if is_word(w, TRACK_KEY) {
            self.on_key(v)
        } else if is_word(w, OPEN_BRACKET) {
            if self.depth < i32::MAX {
                self.depth = self.depth + 1;
            }
            true
        } else if is_word(w, CLOSE_BRACKET) {
            self.on_close();
            true
        } else if is_payload_token(w) {
            self.on_numbers(v);
            true
        } else {
            true
        }
    }

    /// Reads one line of a document.
    pub fn scan_line(&mut self, line: &str)
        ensures
            final(self)@ == step(old(self)@, line@),
    {
        let v = tokenize(line);
        self.line = advance_one(self.line);
        let ok = self.dispatch(&v);
        if !ok {
            let ghost before = self.diagnostics@;
            let d = Diagnostic::MalformedLine { line: self.line, keyword: string_of(&v[0]) };
            let ghost dv = d@;
            self.diagnostics.push(d);
            assert(diagnostic_views(self.diagnostics@) =~= diagnostic_views(before).push(dv));
        }
    }

    /// Reads a whole document, line by line.
    pub fn scan_lines(lines: &Vec<String>) -> (r: Scanner)
        ensures
            r@ == scan(line_views(lines@)),
    {
        let ghost lv = line_views(lines@);
        let mut s = Scanner::new();
        let mut i: usize = 0;
        assert(lv.take(0) =~= Seq::<Seq<char>>::empty());
        while i < lines.len()
            invariant
                i <= lines@.len(),
                lv == line_views(lines@),
                s@ == scan(lv.take(i as int)),
            decreases lines@.len() - i,
        {
            assert(lv.take(i + 1).drop_last() =~= lv.take(i as int));
            s.scan_line(lines[i].as_str());
            i = i + 1;
        }
        assert(lv.take(lines@.len() as int) =~= lv);
        s
    }
}

} // verus!
