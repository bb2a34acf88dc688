//! Properties that hold of every document, stated over the specifications of
//! the scanner and the resolver.
use vstd::prelude::*;
use crate::lexer::line_tokens;
use crate::model::{GeometryNodeView, GeometryObjectView, default_metric, identity_text};
use crate::scan_rules::{
    ANIMATION, CLOSE_BRACKET, COLOUR, FLOAT16, FLOAT2, FLOAT3, GEOMETRY_NODE, GEOMETRY_OBJECT,
    INDEX_ARRAY, MATERIAL, MATERIAL_REF, MESH, METRIC, NAME, OBJECT_REF, OPEN_BRACKET, PLAIN_STRING,
    TEXTURE, TRACK, TRACK_KEY, TRACK_TIME, TRACK_VALUE, TRANSFORM, UNSIGNED_INT3, VERTEX_ARRAY,
    ScanView, dispatch, is_payload, on_animation, on_close, on_colour, on_curve,
    on_geometry_node, on_geometry_object, on_key, on_material, on_material_ref, on_mesh,
    on_name, on_numbers, on_object_ref, on_open, on_plain_string, on_texture, on_track,
    on_vertex_array, open_basic, scan, step,
};
use crate::model::{Attrib, MaterialView, TextureView};
use crate::scene::{
    diffuse_lookup, last_diffuse, ModelView, X_UP, Y_UP, Z_UP, bake, document_scene, first_object, remapped, resolve_models,
    resolves, unresolved,
};

verus! {

/// The model a resolving node makes with the first object of its name.
pub open spec fn bake_resolved(objects: Seq<GeometryObjectView>, n: GeometryNodeView) -> ModelView {
    bake(n, objects[first_object(objects, n.object_ref)->0])
}

/// The models are exactly the nodes whose object reference resolves, each
/// baked with its object, in the order of the nodes; every other node gives
/// one diagnostic instead, so models and diagnostics together count the nodes.
pub proof fn lemma_models_are_resolving_nodes(
    nodes: Seq<GeometryNodeView>,
    objects: Seq<GeometryObjectView>,
)
    ensures
        resolve_models(nodes, objects) == nodes.filter(|n: GeometryNodeView| resolves(objects, n)).map_values(
            |n: GeometryNodeView| bake_resolved(objects, n),
        ),
        resolve_models(nodes, objects).len() == nodes.filter(
            |n: GeometryNodeView| resolves(objects, n),
        ).len(),
        resolve_models(nodes, objects).len() + unresolved(nodes, objects).len() == nodes.len(),
    decreases nodes.len(),
{
    let p = |n: GeometryNodeView| resolves(objects, n);
    let f = |n: GeometryNodeView| bake_resolved(objects, n);
    if nodes.len() > 0 {
        let init = nodes.drop_last();
        lemma_models_are_resolving_nodes(init, objects);
        assert(init.push(nodes.last()) =~= nodes);
        init.lemma_filter_push(nodes.last(), p);
        if p(nodes.last()) {
            assert(init.filter(p).push(nodes.last()).map_values(f) =~= init.filter(p).map_values(
                f,
            ).push(f(nodes.last())));
        }
    } else {
        assert(nodes.filter(p) =~= Seq::<GeometryNodeView>::empty()) by {
            reveal(Seq::filter);
        }
        assert(nodes.filter(p).map_values(f) =~= Seq::<ModelView>::empty());
    }
}

/// The parts of the scanner that the geometry is built from.
pub open spec fn same_structure(a: ScanView, b: ScanView) -> bool {
    &&& a.nodes == b.nodes
    &&& a.objects == b.objects
    &&& a.materials == b.materials
    &&& a.trackers == b.trackers
    &&& a.depth == b.depth
}

/// Two handler results that agree on the geometry.
pub open spec fn agree(ra: Option<ScanView>, rb: Option<ScanView>) -> bool {
    match (ra, rb) {
        (Some(x), Some(y)) => same_structure(x, y),
        (None, None) => true,
        _ => false,
    }
}

#[verifier::rlimit(40)]
proof fn lemma_dispatch_ignores_metric(a: ScanView, b: ScanView, v: Seq<Seq<char>>)
    requires
        same_structure(a, b),
        v.len() >= 1,
    ensures
        v[0] != METRIC@ ==> agree(dispatch(a, v), dispatch(b, v)),
{
    let w = v[0];
    if w == METRIC@ {
    } else if w == GEOMETRY_NODE@ {
        assert(agree(on_geometry_node(a, v), on_geometry_node(b, v)));
    } else if w == NAME@ {
        assert(agree(on_name(a, v), on_name(b, v)));
    } else if w == OBJECT_REF@ {
        assert(agree(on_object_ref(a, v), on_object_ref(b, v)));
    } else if w == MATERIAL_REF@ {
        assert(agree(on_material_ref(a, v), on_material_ref(b, v)));
    } else if w == TRANSFORM@ || w == FLOAT2@ || w == FLOAT3@ || w == FLOAT16@ || w
        == UNSIGNED_INT3@ {
        assert(same_structure(open_basic(a, w), open_basic(b, w)));
    } else if w == GEOMETRY_OBJECT@ {
        assert(agree(on_geometry_object(a, v), on_geometry_object(b, v)));
    } else if w == MESH@ {
        assert(agree(on_mesh(a, v), on_mesh(b, v)));
    } else if w == VERTEX_ARRAY@ {
        assert(agree(on_vertex_array(a, v), on_vertex_array(b, v)));
    } else if w == INDEX_ARRAY@ {
    } else if w == MATERIAL@ {
        assert(agree(on_material(a, v), on_material(b, v)));
    } else if w == TEXTURE@ {
        assert(agree(on_texture(a, v), on_texture(b, v)));
    } else if w == PLAIN_STRING@ {
        assert(agree(on_plain_string(a, v), on_plain_string(b, v)));
    } else if w == COLOUR@ {
        assert(agree(on_colour(a, v), on_colour(b, v)));
    } else if w == ANIMATION@ {
        assert(agree(on_animation(a, v), on_animation(b, v)));
    } else if w == TRACK@ {
        assert(agree(on_track(a, v), on_track(b, v)));
    } else if w == TRACK_TIME@ {
        assert(agree(on_curve(a, v, true), on_curve(b, v, true)));
    } else if w == TRACK_VALUE@ {
        assert(agree(on_curve(a, v, false), on_curve(b, v, false)));
    } else if w == TRACK_KEY@ {
        assert(agree(on_key(a, v), on_key(b, v)));
    } else if w == OPEN_BRACKET@ {
        assert(same_structure(on_open(a), on_open(b)));
    } else if w == CLOSE_BRACKET@ {
        assert(same_structure(on_close(a), on_close(b)));
    } else if is_payload(w) {
        assert(same_structure(on_numbers(a, v), on_numbers(b, v)));
    }
}

/// What a line does to the geometry does not depend on the metric read so
/// far, nor on the line count or the diagnostics.
pub proof fn lemma_step_ignores_metric(a: ScanView, b: ScanView, line: Seq<char>)
    requires
        same_structure(a, b),
    ensures
        same_structure(step(a, line), step(b, line)),
{
    let v = line_tokens(line);
    crate::lexer::lemma_split_nonempty(crate::lexer::trim_white(line), ' ');
    if v[0] == METRIC@ {
        lemma_metric_line_is_metadata(a, line);
        lemma_metric_line_is_metadata(b, line);
    } else {
        let a1 = ScanView { line: crate::scan_rules::advance(a.line, 1), ..a };
        let b1 = ScanView { line: crate::scan_rules::advance(b.line, 1), ..b };
        lemma_dispatch_ignores_metric(a1, b1, v);
    }
}

/// A `Metric` line is metadata only: it changes the metric (or, where it lacks
/// a token, the diagnostics) and the line count, and no node, object,
/// material or open construct.
#[verifier::rlimit(60)]
pub proof fn lemma_metric_line_is_metadata(s: ScanView, line: Seq<char>)
    requires
        line_tokens(line)[0] == METRIC@,
    ensures
        same_structure(step(s, line), s),
{
}

/// Two documents that differ only in their `Metric` lines give the same
/// models and the same materials: a metric (a distance scale, an up axis)
/// never reaches the geometry through the scan.
pub proof fn lemma_metric_lines_leave_geometry(a: Seq<Seq<char>>, b: Seq<Seq<char>>)
    requires
        a.len() == b.len(),
        forall|i: int|
            0 <= i < a.len() ==> a[i] == b[i] || (line_tokens(a[i])[0] == METRIC@ && line_tokens(
                b[i],
            )[0] == METRIC@),
    ensures
        same_structure(scan(a), scan(b)),
        document_scene(a).models == document_scene(b).models,
        document_scene(a).materials == document_scene(b).materials,
    decreases a.len(),
{
    if a.len() > 0 {
        let n = a.len() - 1;
        lemma_metric_lines_leave_geometry(a.drop_last(), b.drop_last());
        if a[n] == b[n] {
            lemma_step_ignores_metric(scan(a.drop_last()), scan(b.drop_last()), a[n]);
        } else {
            lemma_metric_line_is_metadata(scan(a.drop_last()), a[n]);
            lemma_metric_line_is_metadata(scan(b.drop_last()), b[n]);
        }
    }
}

/// The axis convention of a `z` up axis is that of the default `y` up axis
/// with the y and z components traded.
pub proof fn lemma_z_up_swaps_y_and_z<T>(p: Seq<T>)
    requires
        p.len() == 3,
    ensures
        remapped(p, Y_UP@) == p,
        remapped(p, Z_UP@) == seq![
            remapped(p, Y_UP@)[0],
            remapped(p, Y_UP@)[2],
            remapped(p, Y_UP@)[1],
        ],
{
    reveal_strlit("\"y\"");
    reveal_strlit("\"z\"");
    reveal_strlit("\"x\"");
    assert(Y_UP@ != Z_UP@ && Y_UP@ != X_UP@) by {
        assert(Y_UP@[1] != Z_UP@[1]);
        assert(Y_UP@[1] != X_UP@[1]);
    }
}

/// The lines hold no `Transform` block and no `Metric` line.
pub open spec fn plain_document(lines: Seq<Seq<char>>) -> bool {
    forall|i: int|
        0 <= i < lines.len() ==> line_tokens(lines[i])[0] != TRANSFORM@ && line_tokens(
            lines[i],
        )[0] != METRIC@
}

pub open spec fn identity_nodes(s: ScanView) -> bool {
    &&& !s.trackers.transform.in_use
    &&& s.metric == default_metric()
    &&& forall|k: int| 0 <= k < s.nodes.len() ==> #[trigger] s.nodes[k].raw_transform == identity_text()
}

#[verifier::rlimit(40)]
proof fn lemma_plain_dispatch(s: ScanView, v: Seq<Seq<char>>)
    requires
        identity_nodes(s),
        v.len() >= 1,
        v[0] != TRANSFORM@,
        v[0] != METRIC@,
    ensures
        match dispatch(s, v) {
            Some(r) => identity_nodes(r),
            None => true,
        },
{
    let w = v[0];
    if w == GEOMETRY_NODE@ {
        assert(on_geometry_node(s, v) matches Some(r) ==> identity_nodes(r));
    } else if w == NAME@ {
        assert(on_name(s, v) matches Some(r) ==> identity_nodes(r));
    } else if w == OBJECT_REF@ {
        assert(on_object_ref(s, v) matches Some(r) ==> identity_nodes(r));
    } else if w == MATERIAL_REF@ {
        assert(on_material_ref(s, v) matches Some(r) ==> identity_nodes(r));
    } else if w == FLOAT2@ || w == FLOAT3@ || w == FLOAT16@ || w == UNSIGNED_INT3@ {
        assert(identity_nodes(open_basic(s, w)));
    } else if w == GEOMETRY_OBJECT@ {
        assert(on_geometry_object(s, v) matches Some(r) ==> identity_nodes(r));
    } else if w == MESH@ {
        assert(on_mesh(s, v) matches Some(r) ==> identity_nodes(r));
    } else if w == VERTEX_ARRAY@ {
        assert(on_vertex_array(s, v) matches Some(r) ==> identity_nodes(r));
    } else if w == INDEX_ARRAY@ {
    } else if w == MATERIAL@ {
        assert(on_material(s, v) matches Some(r) ==> identity_nodes(r));
    } else if w == TEXTURE@ {
        assert(on_texture(s, v) matches Some(r) ==> identity_nodes(r));
    } else if w == PLAIN_STRING@ {
        assert(on_plain_string(s, v) matches Some(r) ==> identity_nodes(r));
    } else if w == COLOUR@ {
        assert(on_colour(s, v) matches Some(r) ==> identity_nodes(r));
    } else if w == ANIMATION@ {
        assert(on_animation(s, v) matches Some(r) ==> identity_nodes(r));
    } else if w == TRACK@ {
        assert(on_track(s, v) matches Some(r) ==> identity_nodes(r));
    } else if w == TRACK_TIME@ {
        assert(on_curve(s, v, true) matches Some(r) ==> identity_nodes(r));
    } else if w == TRACK_VALUE@ {
        assert(on_curve(s, v, false) matches Some(r) ==> identity_nodes(r));
    } else if w == TRACK_KEY@ {
        assert(on_key(s, v) matches Some(r) ==> identity_nodes(r));
    } else if w == OPEN_BRACKET@ {
        assert(identity_nodes(on_open(s)));
    } else if w == CLOSE_BRACKET@ {
        assert(identity_nodes(on_close(s)));
    } else if is_payload(w) {
        assert(identity_nodes(on_numbers(s, v)));
    }
}

proof fn lemma_plain_step(s: ScanView, line: Seq<char>)
    requires
        identity_nodes(s),
        line_tokens(line)[0] != TRANSFORM@,
        line_tokens(line)[0] != METRIC@,
    ensures
        identity_nodes(step(s, line)),
{
    let v = line_tokens(line);
    crate::lexer::lemma_split_nonempty(crate::lexer::trim_white(line), ' ');
    let s1 = ScanView { line: crate::scan_rules::advance(s.line, 1), ..s };
    lemma_plain_dispatch(s1, v);
}

/// Without a `Transform` block and with the default metric, every model
/// keeps the identity transform and the y up axis, whose convention leaves
/// a point as it is: the baked vertices and normals are the object's own.
pub proof fn lemma_plain_document_keeps_identity(lines: Seq<Seq<char>>)
    requires
        plain_document(lines),
    ensures
        identity_nodes(scan(lines)),
        document_scene(lines).metric.up == Y_UP@,
        forall|m: int|
            0 <= m < document_scene(lines).models.len() ==> (#[trigger] document_scene(
                lines,
            ).models[m]).transform == identity_text(),
    decreases lines.len(),
{
    reveal_strlit("\"y\"");
    if lines.len() > 0 {
        let init = lines.drop_last();
        lemma_plain_document_keeps_identity(init);
        lemma_plain_step(scan(init), lines.last());
    }
    let s = scan(lines);
    lemma_models_are_resolving_nodes(s.nodes, s.objects);
    let p = |n: GeometryNodeView| resolves(s.objects, n);
    assert forall|m: int| 0 <= m < document_scene(lines).models.len() implies (#[trigger] document_scene(
        lines,
    ).models[m]).transform == identity_text() by {
        let fl = s.nodes.filter(p);
        let n = fl[m];
        assert(s.nodes.contains(n)) by {
            s.nodes.lemma_filter_contains_rev(p, n);
        }
    }
}


proof fn lemma_last_diffuse(ts: Seq<TextureView>)
    ensures
        last_diffuse(ts) is Some <==> exists|k: int|
            0 <= k < ts.len() && #[trigger] ts[k].attrib == Attrib::Diffuse,
        last_diffuse(ts) matches Some(p) ==> exists|k: int|
            0 <= k < ts.len() && #[trigger] ts[k].attrib == Attrib::Diffuse && ts[k].texture == p,
    decreases ts.len(),
{
    if ts.len() > 0 {
        let init = ts.drop_last();
        lemma_last_diffuse(init);
        if ts.last().attrib != Attrib::Diffuse {
            if exists|k: int| 0 <= k < ts.len() && #[trigger] ts[k].attrib == Attrib::Diffuse {
                let k = choose|k: int| 0 <= k < ts.len() && #[trigger] ts[k].attrib == Attrib::Diffuse;
                assert(init[k].attrib == Attrib::Diffuse);
            }
            if last_diffuse(ts) is Some {
                let k = choose|k: int|
                    0 <= k < init.len() && #[trigger] init[k].attrib == Attrib::Diffuse
                        && init[k].texture == last_diffuse(ts)->0;
                assert(ts[k] == init[k]);
            }
        } else {
            assert(ts[ts.len() - 1].attrib == Attrib::Diffuse);
        }
    }
}

/// The lookup of a material's diffuse texture finds one exactly where a
/// material of that reference holds a diffuse texture, and what it finds is
/// the path of such a texture. A material whose only texture is specular
/// gives nothing.
pub proof fn lemma_diffuse_lookup(ms: Seq<MaterialView>, r: Seq<char>)
    ensures
        diffuse_lookup(ms, r) is Some <==> exists|i: int, k: int|
            0 <= i < ms.len() && ms[i].material_ref == r && 0 <= k < ms[i].textures.len()
                && #[trigger] ms[i].textures[k].attrib == Attrib::Diffuse,
        diffuse_lookup(ms, r) matches Some(p) ==> exists|i: int, k: int|
            0 <= i < ms.len() && ms[i].material_ref == r && 0 <= k < ms[i].textures.len()
                && #[trigger] ms[i].textures[k].attrib == Attrib::Diffuse
                && ms[i].textures[k].texture == p,
    decreases ms.len(),
{
    if ms.len() > 0 {
        let init = ms.drop_last();
        let n = ms.len() - 1;
        lemma_diffuse_lookup(init, r);
        lemma_last_diffuse(ms.last().textures);
        if ms.last().material_ref == r && last_diffuse(ms.last().textures) is Some {
            let k = choose|k: int|
                0 <= k < ms[n].textures.len() && #[trigger] ms[n].textures[k].attrib
                    == Attrib::Diffuse && ms[n].textures[k].texture == last_diffuse(
                    ms.last().textures,
                )->0;
            assert(ms[n].textures[k].attrib == Attrib::Diffuse);
        } else {
            if exists|i: int, k: int|
                0 <= i < ms.len() && ms[i].material_ref == r && 0 <= k < ms[i].textures.len()
                    && #[trigger] ms[i].textures[k].attrib == Attrib::Diffuse {
                let (i, k) = choose|i: int, k: int|
                    0 <= i < ms.len() && ms[i].material_ref == r && 0 <= k < ms[i].textures.len()
                        && #[trigger] ms[i].textures[k].attrib == Attrib::Diffuse;
                if i == n {
                    assert(ms.last().textures[k].attrib == Attrib::Diffuse);
                } else {
                    assert(init[i] == ms[i]);
                    assert(init[i].textures[k].attrib == Attrib::Diffuse);
                }
            }
            if diffuse_lookup(ms, r) is Some {
                let (i, k) = choose|i: int, k: int|
                    0 <= i < init.len() && init[i].material_ref == r && 0 <= k
                        < init[i].textures.len() && #[trigger] init[i].textures[k].attrib
                        == Attrib::Diffuse && init[i].textures[k].texture == diffuse_lookup(ms, r)->0;
                assert(ms[i] == init[i]);
                assert(ms[i].textures[k].attrib == Attrib::Diffuse);
            }
        }
    }
}

} // verus!
