//! The second pass: each node is bound to the first object that bears the
//! name it refers to, and the pair becomes a model. Then the read-only queries
//! over the models and materials.
use vstd::prelude::*;
use crate::model::{
    Texture, texture_views, Animation, AnimationView, Attrib, Diagnostic, DiagnosticView, GeometryNodeView,
    GeometryObjectView, Material, MaterialRefView, MaterialView, Metric, MetricView,
    TextureView, copy_indices, copy_pairs, copy_texts, copy_triples, default_metric,
    diagnostic_views, empty_animation, material_views, pair_views, texts, triple_views,
};
use crate::scan_rules::{ScanView, line_views, scan};
use crate::scanner::Scanner;

verus! {

/// A node's mesh data bound to it: the raw buffers of the object, the node's
/// transform still to be applied, its default material and its animation.
#[derive(Debug)]
pub struct BakedModel {
    pub transform: Vec<String>,
    pub vertices: Vec<[String; 3]>,
    pub indices: Vec<u32>,
    pub normals: Vec<[String; 3]>,
    pub texcoords: Vec<[String; 2]>,
    pub material_ref: String,
    pub animation: Animation,
}

pub struct ModelView {
    pub transform: Seq<Seq<char>>,
    pub vertices: Seq<Seq<Seq<char>>>,
    pub indices: Seq<u32>,
    pub normals: Seq<Seq<Seq<char>>>,
    pub texcoords: Seq<Seq<Seq<char>>>,
    pub material_ref: Seq<char>,
    pub animation: AnimationView,
}

impl View for BakedModel {
    type V = ModelView;

    open spec fn view(&self) -> ModelView {
        ModelView {
            transform: texts(self.transform@),
            vertices: triple_views(self.vertices@),
            indices: self.indices@,
            normals: triple_views(self.normals@),
            texcoords: pair_views(self.texcoords@),
            material_ref: self.material_ref@,
            animation: self.animation@,
        }
    }
}

pub open spec fn model_views(v: Seq<BakedModel>) -> Seq<ModelView> {
    v.map_values(|m: BakedModel| m@)
}

/// Where some object bears the name, the first one that does.
pub open spec fn first_object(objects: Seq<GeometryObjectView>, name: Seq<char>) -> Option<int> {
    if exists|j: int|
        0 <= j < objects.len() && #[trigger] objects[j].name == name && forall|i: int|
            0 <= i < j ==> objects[i].name != name {
        Some(
            choose|j: int|
                0 <= j < objects.len() && #[trigger] objects[j].name == name && forall|i: int|
                    0 <= i < j ==> objects[i].name != name,
        )
    } else {
        None
    }
}

/// The material of the first binding in the default slot, or nothing.
pub open spec fn default_material(refs: Seq<MaterialRefView>) -> Seq<char>
    decreases refs.len(),
{
    if refs.len() == 0 {
        Seq::empty()
    } else if refs[0].index == 0 {
        refs[0].material_ref
    } else {
        default_material(refs.drop_first())
    }
}

/// The model a node and its object make.
pub open spec fn bake(n: GeometryNodeView, o: GeometryObjectView) -> ModelView {
    ModelView {
        transform: n.raw_transform,
        vertices: o.vertex,
        indices: o.index,
        normals: o.normal,
        texcoords: o.texcoord,
        material_ref: default_material(n.materialref),
        animation: match n.animation {
            Some(a) => a,
            None => empty_animation(),
        },
    }
}

pub open spec fn resolves(objects: Seq<GeometryObjectView>, n: GeometryNodeView) -> bool {
    first_object(objects, n.object_ref) is Some
}

/// One model for each node that resolves, in the order of the nodes.
pub open spec fn resolve_models(
    nodes: Seq<GeometryNodeView>,
    objects: Seq<GeometryObjectView>,
) -> Seq<ModelView>
    decreases nodes.len(),
{
    if nodes.len() == 0 {
        Seq::empty()
    } else {
        let r = resolve_models(nodes.drop_last(), objects);
        match first_object(objects, nodes.last().object_ref) {
            Some(j) => r.push(bake(nodes.last(), objects[j])),
            None => r,
        }
    }
}

/// One diagnostic for each node that does not resolve, naming it.
pub open spec fn unresolved(
    nodes: Seq<GeometryNodeView>,
    objects: Seq<GeometryObjectView>,
) -> Seq<DiagnosticView>
    decreases nodes.len(),
{
    if nodes.len() == 0 {
        Seq::empty()
    } else {
        let r = unresolved(nodes.drop_last(), objects);
        if resolves(objects, nodes.last()) {
            r
        } else {
            r.push(DiagnosticView::UnresolvedReference { node: nodes.last().name })
        }
    }
}

/// The result of a document: its metric, its models, its materials and what
/// went wrong on the way.
pub struct Scene {
    pub metric: Metric,
    pub models: Vec<BakedModel>,
    pub materials: Vec<Material>,
    pub diagnostics: Vec<Diagnostic>,
}

pub struct SceneView {
    pub metric: MetricView,
    pub models: Seq<ModelView>,
    pub materials: Seq<MaterialView>,
    pub diagnostics: Seq<DiagnosticView>,
}

impl View for Scene {
    type V = SceneView;

    open spec fn view(&self) -> SceneView {
        SceneView {
            metric: self.metric@,
            models: model_views(self.models@),
            materials: material_views(self.materials@),
            diagnostics: diagnostic_views(self.diagnostics@),
        }
    }
}

/// The scene that a finished scan resolves to.
pub open spec fn resolve(s: ScanView) -> SceneView {
    SceneView {
        metric: s.metric,
        models: resolve_models(s.nodes, s.objects),
        materials: s.materials,
        diagnostics: s.diagnostics + unresolved(s.nodes, s.objects),
    }
}

/// The scene of a document given as its lines.
pub open spec fn document_scene(lines: Seq<Seq<char>>) -> SceneView {
    resolve(scan(lines))
}

fn find_object(objects: &Vec<crate::model::GeometryObject>, name: &String) -> (r: Option<usize>)
    ensures
        match r {
            Some(j) => j < objects@.len() && first_object(crate::model::object_views(objects@), name@)
                == Some(j as int),
            None => first_object(crate::model::object_views(objects@), name@) is None,
        },
{
    let ghost ov = crate::model::object_views(objects@);
    let mut j: usize = 0;
    while j < objects.len()
        invariant
            j <= objects@.len(),
            ov == crate::model::object_views(objects@),
            forall|i: int| 0 <= i < j ==> ov[i].name != name@,
        decreases objects@.len() - j,
    {
        if objects[j].name == *name {
            assert(ov[j as int].name == name@ && forall|i: int| 0 <= i < j ==> ov[i].name != name@);
            let ghost c = choose|c: int|
                0 <= c < ov.len() && #[trigger] ov[c].name == name@ && forall|i: int|
                    0 <= i < c ==> ov[i].name != name@;
            assert(c == j) by {
                if c < j {
                } else if c > j {
                    assert(ov[j as int].name == name@);
                }
            }
            return Some(j);
        }
        j = j + 1;
    }
    None
}

fn default_material_of(refs: &Vec<crate::model::MaterialRef>) -> (r: String)
    ensures
        r@ == default_material(crate::model::material_ref_views(refs@)),
{
    let ghost rv = crate::model::material_ref_views(refs@);
    let mut k: usize = 0;
    assert(rv.subrange(0, rv.len() as int) =~= rv);
    while k < refs.len()
        invariant
            k <= refs@.len(),
            rv == crate::model::material_ref_views(refs@),
            default_material(rv.subrange(k as int, rv.len() as int)) == default_material(rv),
        decreases refs@.len() - k,
    {
        let ghost rest = rv.subrange(k as int, rv.len() as int);
        assert(rest[0] == refs@[k as int]@);
        if refs[k].index == 0 {
            return refs[k].material_ref.clone();
        }
        assert(rest.drop_first() =~= rv.subrange(k + 1, rv.len() as int));
        k = k + 1;
    }
    String::new()
}

impl Scene {
    /// Binds each node of a finished scan to its object.
    pub fn from_scan(s: Scanner) -> (r: Scene)
        ensures
            r@ == resolve(s@),
    {
        let ghost sv = s@;
        let Scanner { metric, nodes, objects, materials, mut diagnostics, .. } = s;
        let mut models: Vec<BakedModel> = Vec::with_capacity(objects.len());
        let mut i: usize = 0;
        let ghost nv = sv.nodes;
        let ghost ov = sv.objects;
        assert(nv.take(0) =~= Seq::<GeometryNodeView>::empty());
        assert(diagnostic_views(diagnostics@) =~= sv.diagnostics + unresolved(nv.take(0), ov));
        while i < nodes.len()
            invariant
                i <= nodes@.len(),
                nv == crate::model::node_views(nodes@),
                ov == crate::model::object_views(objects@),
                model_views(models@) == resolve_models(nv.take(i as int), ov),
                diagnostic_views(diagnostics@) == sv.diagnostics + unresolved(nv.take(i as int), ov),
            decreases nodes@.len() - i,
        {
            assert(nv.take(i + 1).drop_last() =~= nv.take(i as int));
            assert(nv.take(i + 1).last() == nodes@[i as int]@);
            let n = &nodes[i];
            match find_object(&objects, &n.object_ref) {
                Some(j) => {
                    let o = &objects[j];
                    let m = BakedModel {
                        transform: copy_texts(&n.raw_transform),
                        vertices: copy_triples(&o.vertex),
                        indices: copy_indices(&o.index),
                        normals: copy_triples(&o.normal),
                        texcoords: copy_pairs(&o.texcoord),
                        material_ref: default_material_of(&n.materialref),
                        animation: match &n.animation {
                            Some(a) => a.deep_copy(),
                            None => Animation::new(),
                        },
                    };
                    let ghost mv = m@;
                    assert(mv == bake(nv[i as int], ov[j as int]));
                    models.push(m);
                    assert(model_views(models@) =~= resolve_models(nv.take(i as int), ov).push(mv));
                },
                None => {
                    let d = Diagnostic::UnresolvedReference { node: n.name.clone() };
                    let ghost dv = d@;
                    let ghost before = diagnostic_views(diagnostics@);
                    diagnostics.push(d);
                    assert(diagnostic_views(diagnostics@) =~= before.push(dv));
                },
            }
            i = i + 1;
        }
        assert(nv.take(nodes@.len() as int) =~= nv);
        Scene { metric, models, materials, diagnostics }
    }

    /// Reads a document given as its lines, and resolves it.
    pub fn from_lines(lines: &Vec<String>) -> (r: Scene)
        ensures
            r@ == document_scene(line_views(lines@)),
    {
        Scene::from_scan(Scanner::scan_lines(lines))
    }

    /// The empty result for a document that could not be opened.
    pub fn source_not_found(path: String) -> (r: Scene)
        ensures
            r@ == (SceneView {
                metric: default_metric(),
                models: Seq::empty(),
                materials: Seq::empty(),
                diagnostics: seq![DiagnosticView::SourceNotFound { path: path@ }],
            }),
    {
        let d = Diagnostic::SourceNotFound { path };
        let ghost dv = d@;
        let mut diagnostics: Vec<Diagnostic> = Vec::new();
        diagnostics.push(d);
        let r = Scene { metric: Metric::new(), models: Vec::new(), materials: Vec::new(), diagnostics };
        assert(model_views(r.models@) =~= Seq::empty());
        assert(material_views(r.materials@) =~= Seq::empty());
        assert(diagnostic_views(r.diagnostics@) =~= seq![dv]);
        r
    }
}


/// The up axis under which vertices are left as they are.
pub const Y_UP: &'static str = "\"y\"";
/// The up axis under which the y and z components trade places.
pub const Z_UP: &'static str = "\"z\"";
/// The up axis under which the y and x components trade places.
pub const X_UP: &'static str = "\"x\"";

/// A point after the axis convention of the up axis `up` is applied.
pub open spec fn remapped<T>(p: Seq<T>, up: Seq<char>) -> Seq<T> {
    if up == Z_UP@ {
        seq![p[0], p[2], p[1]]
    } else if up == X_UP@ {
        seq![p[1], p[0], p[2]]
    } else {
        p
    }
}

/// Applies the axis convention of the up axis `up` to a transformed point.
pub fn remap_axes<T: Copy>(p: [T; 3], up: &String) -> (r: [T; 3])
    ensures
        r@ == remapped(p@, up@),
{
    if *up == Z_UP.to_owned() {
        let r = [p[0], p[2], p[1]];
        assert(r@ =~= remapped(p@, up@));
        r
    } else if *up == X_UP.to_owned() {
        let r = [p[1], p[0], p[2]];
        assert(r@ =~= remapped(p@, up@));
        r
    } else {
        p
    }
}

/// The texcoord buffers of the models that have any, in order.
pub open spec fn nonempty_texcoords(models: Seq<ModelView>) -> Seq<Seq<Seq<Seq<char>>>>
    decreases models.len(),
{
    if models.len() == 0 {
        Seq::empty()
    } else {
        let r = nonempty_texcoords(models.drop_last());
        if models.last().texcoords.len() > 0 {
            r.push(models.last().texcoords)
        } else {
            r
        }
    }
}

/// The path of the last diffuse texture, if there is one.
pub open spec fn last_diffuse(ts: Seq<TextureView>) -> Option<Seq<char>>
    decreases ts.len(),
{
    if ts.len() == 0 {
        None
    } else if ts.last().attrib == Attrib::Diffuse {
        Some(ts.last().texture)
    } else {
        last_diffuse(ts.drop_last())
    }
}

/// The diffuse texture path of a material (empty where it has none) and its
/// diffuse colour.
pub open spec fn diffuse_entry(m: MaterialView) -> (Seq<char>, Seq<Seq<char>>) {
    (
        match last_diffuse(m.textures) {
            Some(p) => p,
            None => Seq::empty(),
        },
        m.diffuse_colour,
    )
}

/// The diffuse texture path bound to the material `r`: of the materials with
/// that reference that have a diffuse texture, the last one's last.
pub open spec fn diffuse_lookup(ms: Seq<MaterialView>, r: Seq<char>) -> Option<Seq<char>>
    decreases ms.len(),
{
    if ms.len() == 0 {
        None
    } else if ms.last().material_ref == r && last_diffuse(ms.last().textures) is Some {
        last_diffuse(ms.last().textures)
    } else {
        diffuse_lookup(ms.drop_last(), r)
    }
}

pub open spec fn opt_text(o: Option<String>) -> Option<Seq<char>> {
    match o {
        Some(x) => Some(x@),
        None => None,
    }
}

fn last_diffuse_of(ts: &Vec<Texture>) -> (r: Option<String>)
    ensures
        opt_text(r) == last_diffuse(texture_views(ts@)),
{
    let ghost tv = texture_views(ts@);
    let mut r: Option<String> = None;
    let mut j: usize = 0;
    assert(tv.take(0) =~= Seq::<TextureView>::empty());
    while j < ts.len()
        invariant
            j <= ts@.len(),
            tv == texture_views(ts@),
            opt_text(r) == last_diffuse(tv.take(j as int)),
        decreases ts@.len() - j,
    {
        assert(tv.take(j + 1).drop_last() =~= tv.take(j as int));
        assert(tv.take(j + 1).last() == ts@[j as int]@);
        if ts[j].attrib == Attrib::Diffuse {
            r = Some(ts[j].texture.clone());
        }
        j = j + 1;
    }
    assert(tv.take(ts@.len() as int) =~= tv);
    r
}

impl Scene {
    /// The index buffer of each model, in order.
    pub fn get_index(&self) -> (r: Vec<Vec<u32>>)
        ensures
            r@.len() == self@.models.len(),
            forall|i: int| 0 <= i < r@.len() ==> #[trigger] r@[i]@ == self@.models[i].indices,
    {
        let mut r: Vec<Vec<u32>> = Vec::with_capacity(self.models.len());
        let mut i: usize = 0;
        while i < self.models.len()
            invariant
                i <= self.models@.len(),
                r@.len() == i,
                forall|k: int| 0 <= k < i ==> #[trigger] r@[k]@ == self@.models[k].indices,
            decreases self.models@.len() - i,
        {
            r.push(copy_indices(&self.models[i].indices));
            i = i + 1;
        }
        r
    }

    /// The texcoord buffers of the models that have any; models without
    /// texcoords are left out, not given an empty buffer.
    pub fn get_texcoords(&self) -> (r: Vec<Vec<[String; 2]>>)
        ensures
            r@.map_values(|t: Vec<[String; 2]>| pair_views(t@)) == nonempty_texcoords(
                self@.models,
            ),
    {
        let ghost mv = self@.models;
        let mut r: Vec<Vec<[String; 2]>> = Vec::new();
        let mut i: usize = 0;
        assert(mv.take(0) =~= Seq::<ModelView>::empty());
        assert(r@.map_values(|t: Vec<[String; 2]>| pair_views(t@)) =~= Seq::empty());
        while i < self.models.len()
            invariant
                i <= self.models@.len(),
                mv == self@.models,
                r@.map_values(|t: Vec<[String; 2]>| pair_views(t@)) == nonempty_texcoords(
                    mv.take(i as int),
                ),
            decreases self.models@.len() - i,
        {
            assert(mv.take(i + 1).drop_last() =~= mv.take(i as int));
            assert(mv.take(i + 1).last() == self.models@[i as int]@);
            if self.models[i].texcoords.len() > 0 {
                let ghost before = r@;
                let t = copy_pairs(&self.models[i].texcoords);
                r.push(t);
                assert(r@.map_values(|t: Vec<[String; 2]>| pair_views(t@)) =~= before.map_values(
                    |t: Vec<[String; 2]>| pair_views(t@),
                ).push(mv[i as int].texcoords));
            }
            i = i + 1;
        }
        assert(mv.take(self.models@.len() as int) =~= mv);
        r
    }

    /// For each material, the path of its diffuse texture (empty where it has
    /// none) and its diffuse colour.
    pub fn get_diffuse_textures(&self) -> (r: Vec<(String, Vec<String>)>)
        ensures
            r@.len() == self@.materials.len(),
            forall|i: int|
                0 <= i < r@.len() ==> (#[trigger] r@[i].0@, texts(r@[i].1@)) == diffuse_entry(
                    self@.materials[i],
                ),
    {
        let mut r: Vec<(String, Vec<String>)> = Vec::new();
        let mut i: usize = 0;
        while i < self.materials.len()
            invariant
                i <= self.materials@.len(),
                r@.len() == i,
                forall|k: int|
                    0 <= k < i ==> (#[trigger] r@[k].0@, texts(r@[k].1@)) == diffuse_entry(
                        self@.materials[k],
                    ),
            decreases self.materials@.len() - i,
        {
            let m = &self.materials[i];
            let path = match last_diffuse_of(&m.textures) {
                Some(p) => p,
                None => String::new(),
            };
            r.push((path, copy_texts(&m.diffuse_colour)));
            i = i + 1;
        }
        r
    }

    /// The diffuse texture path bound to the material `material_ref`; `None`
    /// where no material of that reference has a diffuse texture.
    pub fn get_diffuse_texture(&self, material_ref: String) -> (r: Option<String>)
        ensures
            opt_text(r) == diffuse_lookup(self@.materials, material_ref@),
    {
        let ghost ms = self@.materials;
        let mut r: Option<String> = None;
        let mut i: usize = 0;
        assert(ms.take(0) =~= Seq::<MaterialView>::empty());
        while i < self.materials.len()
            invariant
                i <= self.materials@.len(),
                ms == self@.materials,
                opt_text(r) == diffuse_lookup(ms.take(i as int), material_ref@),
            decreases self.materials@.len() - i,
        {
            assert(ms.take(i + 1).drop_last() =~= ms.take(i as int));
            assert(ms.take(i + 1).last() == self.materials@[i as int]@);
            if self.materials[i].material_ref == material_ref {
                match last_diffuse_of(&self.materials[i].textures) {
                    Some(p) => {
                        r = Some(p);
                    },
                    None => {},
                }
            }
            i = i + 1;
        }
        assert(ms.take(self.materials@.len() as int) =~= ms);
        r
    }
}

} // verus!
