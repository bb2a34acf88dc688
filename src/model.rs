//! The records a scene is read into. A number is kept as the text it was
//! written as: text that `is_float_text` accepts.
use vstd::prelude::*;

verus! {

/// What a texture is bound to.
#[derive(Clone, Copy, Debug, PartialEq, Eq, Structural)]
pub enum Attrib {
    Diffuse,
    Normal,
    Specular,
    Unknown,
}

/// How an animation curve runs between its keys.
#[derive(Clone, Copy, Debug, PartialEq, Eq, Structural)]
pub enum Curve {
    Linear,
    Bezier,
    Unknown,
}

/// The kind of an animation key.
#[derive(Clone, Copy, Debug, PartialEq, Eq, Structural)]
pub enum KeyType {
    Single,
    Double,
    Triple,
    Quad,
    Sixteen,
    PlusControl,
    MinusControl,
}

/// The channel an animation track drives.
#[derive(Clone, Copy, Debug, PartialEq, Eq, Structural)]
pub enum TargetType {
    Xpos,
    Ypos,
    Zpos,
    Xrot,
    Yrot,
    Zrot,
    Unknown,
}

/// One entry of an index array.
#[derive(Clone, Copy, Debug, PartialEq, Eq, Structural)]
pub struct Index {
    pub index: u32,
}

pub open spec fn texts(v: Seq<String>) -> Seq<Seq<char>> {
    v.map_values(|s: String| s@)
}

/// A binding of a material to one of a node's material slots.
#[derive(Debug)]
pub struct MaterialRef {
    pub index: i32,
    pub material_ref: String,
}

pub struct MaterialRefView {
    pub index: i32,
    pub material_ref: Seq<char>,
}

impl View for MaterialRef {
    type V = MaterialRefView;

    open spec fn view(&self) -> MaterialRefView {
        MaterialRefView { index: self.index, material_ref: self.material_ref@ }
    }
}

impl MaterialRef {
    pub fn new() -> (r: MaterialRef)
        ensures
            r@ == (MaterialRefView { index: 0, material_ref: Seq::<char>::empty() }),
    {
        MaterialRef { index: 0, material_ref: String::new() }
    }
}

/// One animation key: its numbers in order, and its kind.
#[derive(Debug)]
pub struct Key {
    pub floats: Vec<String>,
    pub key_type: KeyType,
}

pub struct KeyView {
    pub floats: Seq<Seq<char>>,
    pub key_type: KeyType,
}

impl View for Key {
    type V = KeyView;

    open spec fn view(&self) -> KeyView {
        KeyView { floats: texts(self.floats@), key_type: self.key_type }
    }
}

pub open spec fn key_views(v: Seq<Key>) -> Seq<KeyView> {
    v.map_values(|k: Key| k@)
}

impl Key {
    pub fn new() -> (r: Key)
        ensures
            r@ == (KeyView { floats: Seq::empty(), key_type: KeyType::Single }),
    {
        let r = Key { floats: Vec::new(), key_type: KeyType::Single };
        assert(texts(r.floats@) =~= Seq::empty());
        r
    }
}

/// A curve and its keys: the shape of both the time and the value of a track.
pub struct CurveView {
    pub curve: Curve,
    pub keys: Seq<KeyView>,
}

pub open spec fn empty_curve() -> CurveView {
    CurveView { curve: Curve::Unknown, keys: Seq::empty() }
}

/// The time curve of a track.
#[derive(Debug)]
pub struct Time {
    pub curve: Curve,
    pub keys: Vec<Key>,
}

impl View for Time {
    type V = CurveView;

    open spec fn view(&self) -> CurveView {
        CurveView { curve: self.curve, keys: key_views(self.keys@) }
    }
}

impl Time {
    pub fn new() -> (r: Time)
        ensures
            r@ == empty_curve(),
    {
        let r = Time { curve: Curve::Unknown, keys: Vec::with_capacity(3) };
        assert(key_views(r.keys@) =~= Seq::empty());
        r
    }
}

/// The value curve of a track.
#[derive(Debug)]
pub struct Value {
    pub curve: Curve,
    pub keys: Vec<Key>,
}

impl View for Value {
    type V = CurveView;

    open spec fn view(&self) -> CurveView {
        CurveView { curve: self.curve, keys: key_views(self.keys@) }
    }
}

impl Value {
    pub fn new() -> (r: Value)
        ensures
            r@ == empty_curve(),
    {
        let r = Value { curve: Curve::Unknown, keys: Vec::with_capacity(4) };
        assert(key_views(r.keys@) =~= Seq::empty());
        r
    }
}

/// One animated channel.
#[derive(Debug)]
pub struct Track {
    pub target: TargetType,
    pub time: Time,
    pub value: Value,
}

pub struct TrackView {
    pub target: TargetType,
    pub time: CurveView,
    pub value: CurveView,
}

impl View for Track {
    type V = TrackView;

    open spec fn view(&self) -> TrackView {
        TrackView { target: self.target, time: self.time@, value: self.value@ }
    }
}

pub open spec fn track_views(v: Seq<Track>) -> Seq<TrackView> {
    v.map_values(|t: Track| t@)
}

impl Track {
    pub fn new() -> (r: Track)
        ensures
            r@ == (TrackView {
                target: TargetType::Unknown,
                time: empty_curve(),
                value: empty_curve(),
            }),
    {
        Track { target: TargetType::Unknown, time: Time::new(), value: Value::new() }
    }
}

/// The animation of a node: its time span and its tracks.
#[derive(Debug)]
pub struct Animation {
    pub begin: String,
    pub end: String,
    pub tracks: Vec<Track>,
}

pub struct AnimationView {
    pub begin: Seq<char>,
    pub end: Seq<char>,
    pub tracks: Seq<TrackView>,
}

impl View for Animation {
    type V = AnimationView;

    open spec fn view(&self) -> AnimationView {
        AnimationView { begin: self.begin@, end: self.end@, tracks: track_views(self.tracks@) }
    }
}

pub open spec fn empty_animation() -> AnimationView {
    AnimationView { begin: "0.0"@, end: "0.0"@, tracks: Seq::empty() }
}

impl Animation {
    pub fn new() -> (r: Animation)
        ensures
            r@ == empty_animation(),
    {
        let r = Animation { begin: "0.0".to_owned(), end: "0.0".to_owned(), tracks: Vec::new() };
        assert(track_views(r.tracks@) =~= Seq::empty());
        r
    }
}

/// `a` with its track `k` replaced by `tr`.
pub open spec fn with_track_view(a: AnimationView, k: int, tr: TrackView) -> AnimationView {
    AnimationView { tracks: a.tracks.update(k, tr), ..a }
}

impl Animation {
    pub fn push_track(&mut self, tr: Track)
        ensures
            final(self)@ == (AnimationView { tracks: old(self)@.tracks.push(tr@), ..old(self)@ }),
    {
        let ghost tv = tr@;
        self.tracks.push(tr);
        assert(track_views(self.tracks@) =~= track_views(old(self).tracks@).push(tv));
    }

    /// Track `k` starts its time (or its value) over with `curve` and no keys.
    pub fn restart_curve(&mut self, k: usize, curve: Curve, is_time: bool)
        requires
            k < old(self).tracks@.len(),
        ensures
            final(self)@ == with_track_view(
                old(self)@,
                k as int,
                if is_time {
                    TrackView {
                        time: CurveView { curve, keys: Seq::empty() },
                        ..old(self)@.tracks[k as int]
                    }
                } else {
                    TrackView {
                        value: CurveView { curve, keys: Seq::empty() },
                        ..old(self)@.tracks[k as int]
                    }
                },
            ),
    {
        let ghost a0 = self@;
        if is_time {
            let mut c = Time::new();
            c.curve = curve;
            self.tracks[k].time = c;
        } else {
            let mut c = Value::new();
            c.curve = curve;
            self.tracks[k].value = c;
        }
        assert(track_views(self.tracks@) =~= with_track_view(
            a0,
            k as int,
            if is_time {
                TrackView { time: CurveView { curve, keys: Seq::empty() }, ..a0.tracks[k as int] }
            } else {
                TrackView { value: CurveView { curve, keys: Seq::empty() }, ..a0.tracks[k as int] }
            },
        ).tracks);
    }

    /// Appends `key` to the time (or the value) of track `k`.
    pub fn push_key(&mut self, k: usize, key: Key, to_time: bool)
        requires
            k < old(self).tracks@.len(),
        ensures
            ({
                let tr = old(self)@.tracks[k as int];
                final(self)@ == with_track_view(
                    old(self)@,
                    k as int,
                    if to_time {
                        TrackView {
                            time: CurveView { keys: tr.time.keys.push(key@), ..tr.time },
                            ..tr
                        }
                    } else {
                        TrackView {
                            value: CurveView { keys: tr.value.keys.push(key@), ..tr.value },
                            ..tr
                        }
                    },
                )
            }),
    {
        let ghost a0 = self@;
        let ghost kv = key@;
        let ghost tr = a0.tracks[k as int];
        if to_time {
            self.tracks[k].time.keys.push(key);
            assert(key_views(self.tracks@[k as int].time.keys@) =~= tr.time.keys.push(kv));
        } else {
            self.tracks[k].value.keys.push(key);
            assert(key_views(self.tracks@[k as int].value.keys@) =~= tr.value.keys.push(kv));
        }
        assert(track_views(self.tracks@) =~= with_track_view(
            a0,
            k as int,
            if to_time {
                TrackView { time: CurveView { keys: tr.time.keys.push(kv), ..tr.time }, ..tr }
            } else {
                TrackView { value: CurveView { keys: tr.value.keys.push(kv), ..tr.value }, ..tr }
            },
        ).tracks);
    }
}

/// The sixteen entries of an identity matrix, as text.
pub open spec fn identity_text() -> Seq<Seq<char>> {
    Seq::new(16, |i: int| if i % 5 == 0 { "1.0"@ } else { "0.0"@ })
}

pub fn identity_matrix() -> (r: Vec<String>)
    ensures
        texts(r@) == identity_text(),
{
    let mut r: Vec<String> = Vec::new();
    let mut i: usize = 0;
    while i < 16
        invariant
            i <= 16,
            r@.len() == i,
            texts(r@) == identity_text().take(i as int),
        decreases 16 - i,
    {
        let ghost before = r@;
        if i % 5 == 0 {
            r.push("1.0".to_owned());
        } else {
            r.push("0.0".to_owned());
        }
        assert(texts(r@)[i as int] == identity_text()[i as int]);
        assert(texts(r@) =~= texts(before).push(identity_text()[i as int]));
        i = i + 1;
        assert(texts(r@) =~= identity_text().take(i as int));
    }
    assert(identity_text().take(16) =~= identity_text());
    r
}

/// Three zeros, as text.
pub open spec fn zero_colour() -> Seq<Seq<char>> {
    seq!["0.0"@, "0.0"@, "0.0"@]
}

fn zeros3() -> (r: Vec<String>)
    ensures
        texts(r@) == zero_colour(),
{
    let r = vec!["0.0".to_owned(), "0.0".to_owned(), "0.0".to_owned()];
    assert(texts(r@) =~= zero_colour());
    r
}

/// A texture of a material.
#[derive(Debug)]
pub struct Texture {
    pub texture: String,
    pub attrib: Attrib,
    pub raw_transform: Vec<String>,
}

pub struct TextureView {
    pub texture: Seq<char>,
    pub attrib: Attrib,
    pub raw_transform: Seq<Seq<char>>,
}

impl View for Texture {
    type V = TextureView;

    open spec fn view(&self) -> TextureView {
        TextureView {
            texture: self.texture@,
            attrib: self.attrib,
            raw_transform: texts(self.raw_transform@),
        }
    }
}

pub open spec fn texture_views(v: Seq<Texture>) -> Seq<TextureView> {
    v.map_values(|t: Texture| t@)
}

impl Texture {
    pub fn new() -> (r: Texture)
        ensures
            r@ == (TextureView {
                texture: Seq::empty(),
                attrib: Attrib::Unknown,
                raw_transform: identity_text(),
            }),
    {
        Texture { texture: String::new(), attrib: Attrib::Unknown, raw_transform: identity_matrix() }
    }
}

/// A material: its textures and colours.
#[derive(Debug)]
pub struct Material {
    pub name: String,
    pub material_ref: String,
    pub textures: Vec<Texture>,
    pub diffuse_colour: Vec<String>,
    pub specular_colour: Vec<String>,
    pub specular_power: String,
}

pub struct MaterialView {
    pub name: Seq<char>,
    pub material_ref: Seq<char>,
    pub textures: Seq<TextureView>,
    pub diffuse_colour: Seq<Seq<char>>,
    pub specular_colour: Seq<Seq<char>>,
    pub specular_power: Seq<char>,
}

impl View for Material {
    type V = MaterialView;

    open spec fn view(&self) -> MaterialView {
        MaterialView {
            name: self.name@,
            material_ref: self.material_ref@,
            textures: texture_views(self.textures@),
            diffuse_colour: texts(self.diffuse_colour@),
            specular_colour: texts(self.specular_colour@),
            specular_power: self.specular_power@,
        }
    }
}

pub open spec fn material_views(v: Seq<Material>) -> Seq<MaterialView> {
    v.map_values(|m: Material| m@)
}

pub open spec fn new_material() -> MaterialView {
    MaterialView {
        name: Seq::empty(),
        material_ref: Seq::empty(),
        textures: Seq::empty(),
        diffuse_colour: zero_colour(),
        specular_colour: zero_colour(),
        specular_power: "0.0"@,
    }
}

impl Material {
    pub fn new() -> (r: Material)
        ensures
            r@ == new_material(),
    {
        let r = Material {
            name: String::new(),
            material_ref: String::new(),
            textures: Vec::new(),
            diffuse_colour: zeros3(),
            specular_colour: zeros3(),
            specular_power: "0.0".to_owned(),
        };
        assert(texture_views(r.textures@) =~= Seq::empty());
        r
    }
}

pub open spec fn triple_views(v: Seq<[String; 3]>) -> Seq<Seq<Seq<char>>> {
    v.map_values(|t: [String; 3]| texts(t@))
}

pub open spec fn pair_views(v: Seq<[String; 2]>) -> Seq<Seq<Seq<char>>> {
    v.map_values(|t: [String; 2]| texts(t@))
}

/// Mesh data, referred to by name from nodes.
#[derive(Debug)]
pub struct GeometryObject {
    pub name: String,
    pub mesh: String,
    pub vertex: Vec<[String; 3]>,
    pub index: Vec<u32>,
    pub normal: Vec<[String; 3]>,
    pub texcoord: Vec<[String; 2]>,
}

pub struct GeometryObjectView {
    pub name: Seq<char>,
    pub mesh: Seq<char>,
    pub vertex: Seq<Seq<Seq<char>>>,
    pub index: Seq<u32>,
    pub normal: Seq<Seq<Seq<char>>>,
    pub texcoord: Seq<Seq<Seq<char>>>,
}

impl View for GeometryObject {
    type V = GeometryObjectView;

    open spec fn view(&self) -> GeometryObjectView {
        GeometryObjectView {
            name: self.name@,
            mesh: self.mesh@,
            vertex: triple_views(self.vertex@),
            index: self.index@,
            normal: triple_views(self.normal@),
            texcoord: pair_views(self.texcoord@),
        }
    }
}

pub open spec fn object_views(v: Seq<GeometryObject>) -> Seq<GeometryObjectView> {
    v.map_values(|o: GeometryObject| o@)
}

pub open spec fn new_object() -> GeometryObjectView {
    GeometryObjectView {
        name: Seq::empty(),
        mesh: Seq::empty(),
        vertex: Seq::empty(),
        index: Seq::empty(),
        normal: Seq::empty(),
        texcoord: Seq::empty(),
    }
}

impl GeometryObject {
    pub fn new() -> (r: GeometryObject)
        ensures
            r@ == new_object(),
    {
        let r = GeometryObject {
            name: String::new(),
            mesh: String::new(),
            vertex: Vec::new(),
            index: Vec::new(),
            normal: Vec::new(),
            texcoord: Vec::new(),
        };
        assert(triple_views(r.vertex@) =~= Seq::empty());
        assert(triple_views(r.normal@) =~= Seq::empty());
        assert(pair_views(r.texcoord@) =~= Seq::empty());
        r
    }
}

/// A placement of mesh data in the scene.
#[derive(Debug)]
pub struct GeometryNode {
    pub name: String,
    pub raw_transform: Vec<String>,
    pub object_ref: String,
    pub materialref: Vec<MaterialRef>,
    pub animation: Option<Animation>,
}

pub struct GeometryNodeView {
    pub name: Seq<char>,
    pub raw_transform: Seq<Seq<char>>,
    pub object_ref: Seq<char>,
    pub materialref: Seq<MaterialRefView>,
    pub animation: Option<AnimationView>,
}

pub open spec fn material_ref_views(v: Seq<MaterialRef>) -> Seq<MaterialRefView> {
    v.map_values(|m: MaterialRef| m@)
}

pub open spec fn animation_view(a: Option<Animation>) -> Option<AnimationView> {
    match a {
        Some(x) => Some(x@),
        None => None,
    }
}

impl View for GeometryNode {
    type V = GeometryNodeView;

    open spec fn view(&self) -> GeometryNodeView {
        GeometryNodeView {
            name: self.name@,
            raw_transform: texts(self.raw_transform@),
            object_ref: self.object_ref@,
            materialref: material_ref_views(self.materialref@),
            animation: animation_view(self.animation),
        }
    }
}

pub open spec fn node_views(v: Seq<GeometryNode>) -> Seq<GeometryNodeView> {
    v.map_values(|n: GeometryNode| n@)
}

pub open spec fn new_node(name: Seq<char>) -> GeometryNodeView {
    GeometryNodeView {
        name,
        raw_transform: identity_text(),
        object_ref: Seq::empty(),
        materialref: Seq::empty(),
        animation: None,
    }
}

impl GeometryNode {
    pub fn new(name: String) -> (r: GeometryNode)
        ensures
            r@ == new_node(name@),
    {
        let r = GeometryNode {
            name,
            raw_transform: identity_matrix(),
            object_ref: String::new(),
            materialref: Vec::new(),
            animation: None,
        };
        assert(material_ref_views(r.materialref@) =~= Seq::empty());
        r
    }
}

/// The units and axes of a document.
#[derive(Debug)]
pub struct Metric {
    pub distance: String,
    pub angle: String,
    pub time: String,
    pub up: String,
    pub forward: String,
}

pub struct MetricView {
    pub distance: Seq<char>,
    pub angle: Seq<char>,
    pub time: Seq<char>,
    pub up: Seq<char>,
    pub forward: Seq<char>,
}

impl View for Metric {
    type V = MetricView;

    open spec fn view(&self) -> MetricView {
        MetricView {
            distance: self.distance@,
            angle: self.angle@,
            time: self.time@,
            up: self.up@,
            forward: self.forward@,
        }
    }
}

/// Scales of one, the y axis up, and no forward axis.
pub open spec fn default_metric() -> MetricView {
    MetricView {
        distance: "1.0"@,
        angle: "1.0"@,
        time: "1.0"@,
        up: "\"y\""@,
        forward: Seq::empty(),
    }
}

impl Metric {
    pub fn new() -> (r: Metric)
        ensures
            r@ == default_metric(),
    {
        Metric {
            distance: "1.0".to_owned(),
            angle: "1.0".to_owned(),
            time: "1.0".to_owned(),
            up: "\"y\"".to_owned(),
            forward: String::new(),
        }
    }
}


/// A condition met while reading a document. None of them stops the reading.
#[derive(Debug)]
pub enum Diagnostic {
    /// The document could not be opened; the result is empty.
    SourceNotFound { path: String },
    /// A line lacks a token that its keyword needs; the line was skipped.
    MalformedLine { line: usize, keyword: String },
    /// A node names an object that the document does not hold; the node was dropped.
    UnresolvedReference { node: String },
}

pub enum DiagnosticView {
    SourceNotFound { path: Seq<char> },
    MalformedLine { line: usize, keyword: Seq<char> },
    UnresolvedReference { node: Seq<char> },
}

impl View for Diagnostic {
    type V = DiagnosticView;

    open spec fn view(&self) -> DiagnosticView {
        match self {
            Diagnostic::SourceNotFound { path } => DiagnosticView::SourceNotFound { path: path@ },
            Diagnostic::MalformedLine { line, keyword } => DiagnosticView::MalformedLine {
                line: *line,
                keyword: keyword@,
            },
            Diagnostic::UnresolvedReference { node } => DiagnosticView::UnresolvedReference {
                node: node@,
            },
        }
    }
}

pub open spec fn diagnostic_views(v: Seq<Diagnostic>) -> Seq<DiagnosticView> {
    v.map_values(|d: Diagnostic| d@)
}


pub fn copy_texts(v: &Vec<String>) -> (r: Vec<String>)
    ensures
        texts(r@) == texts(v@),
{
    let mut r: Vec<String> = Vec::new();
    let mut i: usize = 0;
    while i < v.len()
        invariant
            i <= v@.len(),
            r@.len() == i,
            texts(r@) == texts(v@).take(i as int),
        decreases v@.len() - i,
    {
        r.push(v[i].clone());
        i = i + 1;
        assert(texts(r@) =~= texts(v@).take(i as int));
    }
    assert(texts(v@).take(v@.len() as int) =~= texts(v@));
    r
}

pub fn copy_triples(v: &Vec<[String; 3]>) -> (r: Vec<[String; 3]>)
    ensures
        triple_views(r@) == triple_views(v@),
{
    let mut r: Vec<[String; 3]> = Vec::new();
    let mut i: usize = 0;
    while i < v.len()
        invariant
            i <= v@.len(),
            r@.len() == i,
            triple_views(r@) == triple_views(v@).take(i as int),
        decreases v@.len() - i,
    {
        let a = [v[i][0].clone(), v[i][1].clone(), v[i][2].clone()];
        assert(texts(a@) =~= texts(v@[i as int]@));
        r.push(a);
        i = i + 1;
        assert(triple_views(r@) =~= triple_views(v@).take(i as int));
    }
    assert(triple_views(v@).take(v@.len() as int) =~= triple_views(v@));
    r
}

pub fn copy_pairs(v: &Vec<[String; 2]>) -> (r: Vec<[String; 2]>)
    ensures
        pair_views(r@) == pair_views(v@),
{
    let mut r: Vec<[String; 2]> = Vec::new();
    let mut i: usize = 0;
    while i < v.len()
        invariant
            i <= v@.len(),
            r@.len() == i,
            pair_views(r@) == pair_views(v@).take(i as int),
        decreases v@.len() - i,
    {
        let a = [v[i][0].clone(), v[i][1].clone()];
        assert(texts(a@) =~= texts(v@[i as int]@));
        r.push(a);
        i = i + 1;
        assert(pair_views(r@) =~= pair_views(v@).take(i as int));
    }
    assert(pair_views(v@).take(v@.len() as int) =~= pair_views(v@));
    r
}

pub fn copy_indices(v: &Vec<u32>) -> (r: Vec<u32>)
    ensures
        r@ == v@,
{
    let mut r: Vec<u32> = Vec::new();
    let mut i: usize = 0;
    while i < v.len()
        invariant
            i <= v@.len(),
            r@ == v@.take(i as int),
        decreases v@.len() - i,
    {
        r.push(v[i]);
        i = i + 1;
        assert(r@ =~= v@.take(i as int));
    }
    assert(v@.take(v@.len() as int) =~= v@);
    r
}

fn copy_keys(v: &Vec<Key>) -> (r: Vec<Key>)
    ensures
        key_views(r@) == key_views(v@),
{
    let mut r: Vec<Key> = Vec::new();
    let mut i: usize = 0;
    while i < v.len()
        invariant
            i <= v@.len(),
            r@.len() == i,
            key_views(r@) == key_views(v@).take(i as int),
        decreases v@.len() - i,
    {
        let k = Key { floats: copy_texts(&v[i].floats), key_type: v[i].key_type };
        r.push(k);
        i = i + 1;
        assert(key_views(r@) =~= key_views(v@).take(i as int));
    }
    assert(key_views(v@).take(v@.len() as int) =~= key_views(v@));
    r
}

fn copy_track(t: &Track) -> (r: Track)
    ensures
        r@ == t@,
{
    Track {
        target: t.target,
        time: Time { curve: t.time.curve, keys: copy_keys(&t.time.keys) },
        value: Value { curve: t.value.curve, keys: copy_keys(&t.value.keys) },
    }
}

impl Animation {
    pub fn deep_copy(&self) -> (r: Animation)
        ensures
            r@ == self@,
    {
        let mut tracks: Vec<Track> = Vec::new();
        let mut i: usize = 0;
        while i < self.tracks.len()
            invariant
                i <= self.tracks@.len(),
                tracks@.len() == i,
                track_views(tracks@) == track_views(self.tracks@).take(i as int),
            decreases self.tracks@.len() - i,
        {
            tracks.push(copy_track(&self.tracks[i]));
            i = i + 1;
            assert(track_views(tracks@) =~= track_views(self.tracks@).take(i as int));
        }
        assert(track_views(self.tracks@).take(self.tracks@.len() as int) =~= track_views(
            self.tracks@,
        ));
        Animation { begin: self.begin.clone(), end: self.end.clone(), tracks }
    }
}

} // verus!
