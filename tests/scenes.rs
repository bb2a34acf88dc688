use opengex_parser::{remap_axes, Attrib, Curve, Diagnostic, KeyType, Scene, TargetType};

fn lines(text: &str) -> Vec<String> {
    text.lines().map(|l| l.to_string()).collect()
}

fn s(x: &str) -> String {
    x.to_string()
}

fn triple(a: &str, b: &str, c: &str) -> [String; 3] {
    [s(a), s(b), s(c)]
}

const TRIANGLE_OBJECT: &str = "GeometryObject $Obj1
{
\tMesh (primitive = \"triangles\")
\t{
\t\tVertexArray (attrib = \"position\")
\t\t{
\t\t\tfloat[3]
\t\t\t{
\t\t\t\t{0.0, 0.0, 0.0}, {1.0, 0.0, 0.0},
\t\t\t\t{0.0, 1.0, 0.0}
\t\t\t}
\t\t}
\t\tVertexArray (attrib = \"normal\")
\t\t{
\t\t\tfloat[3]
\t\t\t{
\t\t\t\t{0.0, 0.0, 1.0}, {0.0, 0.0, 1.0}, {0.0, 0.0, 1.0}
\t\t\t}
\t\t}
\t\tIndexArray
\t\t{
\t\t\tunsigned_int32[3]
\t\t\t{
\t\t\t\t{0, 1, 2}
\t\t\t}
\t\t}
\t}
}";

fn node(name: &str, object_ref: &str) -> String {
    format!(
        "GeometryNode {}\n{{\n\tName {{string {{\"{}\"}}}}\n\tObjectRef {{ref {{{}}}}}\n\tMaterialRef (index = 0) {{ref {{$matA}}}}\n}}",
        name, name, object_ref
    )
}

fn unit_triangle() -> Vec<[String; 3]> {
    vec![triple("0.0", "0.0", "0.0"), triple("1.0", "0.0", "0.0"), triple("0.0", "1.0", "0.0")]
}

#[test]
fn one_node_one_triangle_gives_one_model() {
    let doc = format!("{}\n{}", node("$node1", "$Obj1"), TRIANGLE_OBJECT);
    let scene = Scene::from_lines(&lines(&doc));
    assert_eq!(scene.models.len(), 1);
    assert_eq!(scene.models[0].vertices, unit_triangle());
    assert_eq!(scene.get_index(), vec![vec![0u32, 1, 2]]);
    assert_eq!(scene.models[0].normals.len(), 3);
    assert_eq!(scene.models[0].material_ref, "$matA");
    assert!(scene.diagnostics.is_empty());
    assert_eq!(scene.models[0].transform[0], "1.0");
    assert_eq!(scene.models[0].transform[12], "0.0");
}

#[test]
fn missing_object_gives_no_model_and_a_diagnostic() {
    let doc = format!("{}\n{}", node("$node1", "Missing"), TRIANGLE_OBJECT);
    let scene = Scene::from_lines(&lines(&doc));
    assert_eq!(scene.models.len(), 0);
    assert_eq!(scene.diagnostics.len(), 1);
    match &scene.diagnostics[0] {
        Diagnostic::UnresolvedReference { node } => assert_eq!(node, "$node1"),
        other => panic!("unexpected {:?}", other),
    }
}

#[test]
fn models_count_the_resolving_nodes() {
    let doc = format!(
        "{}\n{}\n{}\n{}",
        node("$a", "$Obj1"),
        node("$b", "Missing"),
        node("$c", "$Obj1"),
        TRIANGLE_OBJECT
    );
    let scene = Scene::from_lines(&lines(&doc));
    assert_eq!(scene.models.len(), 2);
    assert_eq!(scene.diagnostics.len(), 1);
    assert_eq!(scene.get_index().len(), 2);
}

#[test]
fn first_object_of_a_name_wins() {
    let second = TRIANGLE_OBJECT.replace("{0.0, 1.0, 0.0}", "{5.0, 5.0, 5.0}");
    let doc = format!("{}\n{}\n{}", node("$n", "$Obj1"), TRIANGLE_OBJECT, second);
    let scene = Scene::from_lines(&lines(&doc));
    assert_eq!(scene.models.len(), 1);
    assert_eq!(scene.models[0].vertices, unit_triangle());
}

#[test]
fn no_transform_keeps_identity_and_raw_vertices() {
    let doc = format!("{}\n{}", node("$node1", "$Obj1"), TRIANGLE_OBJECT);
    let scene = Scene::from_lines(&lines(&doc));
    let identity: Vec<String> = (0..16).map(|i| if i % 5 == 0 { s("1.0") } else { s("0.0") }).collect();
    assert_eq!(scene.models[0].transform, identity);
    assert_eq!(scene.metric.up, "\"y\"");
    for v in &scene.models[0].vertices {
        let p = [v[0].as_str(), v[1].as_str(), v[2].as_str()];
        assert_eq!(remap_axes(p, &scene.metric.up), p);
    }
}

#[test]
fn transform_block_fills_the_node_matrix() {
    let with_transform = node("$node1", "$Obj1").replace(
        "\tMaterialRef",
        "\tTransform\n\t{\n\t\tfloat[16]\n\t\t{\n\t\t\t{1.0, 0.0, 0.0, 0.0,\n\t\t\t 0.0, 1.0, 0.0, 0.0,\n\t\t\t 0.0, 0.0, 1.0, 0.0,\n\t\t\t 2.0, 3.0, 4.0, 1.0}\n\t\t}\n\t}\n\tMaterialRef",
    );
    let doc = format!("{}\n{}", with_transform, TRIANGLE_OBJECT);
    let scene = Scene::from_lines(&lines(&doc));
    assert_eq!(scene.models.len(), 1);
    let t = &scene.models[0].transform;
    assert_eq!((t[12].as_str(), t[13].as_str(), t[14].as_str(), t[15].as_str()), ("2.0", "3.0", "4.0", "1.0"));
    assert_eq!(scene.models[0].vertices, unit_triangle());
}

#[test]
fn up_axis_z_swaps_y_and_z() {
    let base = format!("{}\n{}", node("$node1", "$Obj1"), TRIANGLE_OBJECT);
    let y = Scene::from_lines(&lines(&format!("Metric (key = \"up\") {{string {{\"y\"}}}}\n{}", base)));
    let z = Scene::from_lines(&lines(&format!("Metric (key = \"up\") {{string {{\"z\"}}}}\n{}", base)));
    assert_eq!(y.metric.up, "\"y\"");
    assert_eq!(z.metric.up, "\"z\"");
    assert_eq!(y.models[0].vertices, z.models[0].vertices);
    for v in &y.models[0].vertices {
        let p = [v[0].as_str(), v[1].as_str(), v[2].as_str()];
        let a = remap_axes(p, &y.metric.up);
        let b = remap_axes(p, &z.metric.up);
        assert_eq!(b, [a[0], a[2], a[1]]);
    }
}

#[test]
fn metric_distance_is_stored_and_does_not_scale() {
    let base = format!("{}\n{}", node("$node1", "$Obj1"), TRIANGLE_OBJECT);
    let scaled = Scene::from_lines(&lines(&format!("Metric (key = \"distance\") {{float {{2.0}}}}\n{}", base)));
    let plain = Scene::from_lines(&lines(&base));
    assert_eq!(scaled.metric.distance, "2.0");
    assert_eq!(plain.metric.distance, "1.0");
    assert_eq!(scaled.models[0].vertices, plain.models[0].vertices);
    assert_eq!(scaled.models[0].transform, plain.models[0].transform);
}

#[test]
fn metric_lines_set_each_field() {
    let doc = "Metric (key = \"angle\") {float {0.5}}\nMetric (key = \"time\") {float {3}}\nMetric (key = \"forward\") {string {\"x\"}}\nMetric (key = \"distance\") {float {abc}}";
    let scene = Scene::from_lines(&lines(doc));
    assert_eq!(scene.metric.angle, "0.5");
    assert_eq!(scene.metric.time, "3");
    assert_eq!(scene.metric.forward, "\"x\"");
    assert_eq!(scene.metric.distance, "1.0");
}

const MATERIALS: &str = "Material $matA
{
\tName {string {\"Shiny\"}}
\tColor (attrib = \"diffuse\") {float[3] {{0.8, 0.6, 0.4}}}
\tTexture (attrib = \"diffuse\")
\t{
\t\tstring {\"//textures/a.png\"}
\t}
}
Material $matB
{
\tTexture (attrib = \"specular\")
\t{
\t\tstring {\"//textures/b_spec.png\"}
\t}
}";

#[test]
fn diffuse_texture_lookup() {
    let scene = Scene::from_lines(&lines(MATERIALS));
    assert_eq!(scene.materials.len(), 2);
    assert_eq!(scene.materials[0].name, "Shiny");
    assert_eq!(scene.materials[0].textures[0].attrib, Attrib::Diffuse);
    assert_eq!(scene.materials[1].textures[0].attrib, Attrib::Specular);
    assert_eq!(scene.get_diffuse_texture(s("$matA")), Some(s("textures/a.png")));
    assert_eq!(scene.get_diffuse_texture(s("$matB")), None);
    assert_eq!(scene.get_diffuse_texture(s("$none")), None);
}

#[test]
fn diffuse_textures_one_per_material() {
    let scene = Scene::from_lines(&lines(MATERIALS));
    let d = scene.get_diffuse_textures();
    assert_eq!(d.len(), 2);
    assert_eq!(d[0], (s("textures/a.png"), vec![s("0.8"), s("0.6"), s("0.4")]));
    assert_eq!(d[1], (s(""), vec![s("0.0"), s("0.0"), s("0.0")]));
}

#[test]
fn texcoords_only_for_models_that_have_them() {
    let with_uv = TRIANGLE_OBJECT.replace("$Obj1", "$Obj2").replace(
        "\t\tIndexArray",
        "\t\tVertexArray (attrib = \"texcoord\")\n\t\t{\n\t\t\tfloat[2]\n\t\t\t{\n\t\t\t\t{0.0, 0.0}, {1.0, 0.0}, {0.0, 1.0}, {9.0}\n\t\t\t}\n\t\t}\n\t\tIndexArray",
    );
    let doc = format!("{}\n{}\n{}\n{}", node("$a", "$Obj1"), node("$b", "$Obj2"), TRIANGLE_OBJECT, with_uv);
    let scene = Scene::from_lines(&lines(&doc));
    assert_eq!(scene.models.len(), 2);
    let t = scene.get_texcoords();
    assert_eq!(t.len(), 1);
    assert_eq!(t[0], vec![[s("0.0"), s("0.0")], [s("1.0"), s("0.0")], [s("0.0"), s("1.0")]]);
}

#[test]
fn track_keys_keep_kind_and_order() {
    let doc = "GeometryNode $node1
{
\tObjectRef {ref {$Obj1}}
\tAnimation (begin = 0.0, end = 1.0)
\t{
\t\tTrack (target = %xpos)
\t\t{
\t\t\tTime (curve = \"linear\")
\t\t\t{
\t\t\t\tKey {float {0.0}}
\t\t\t\tKey {float {1.0}}
\t\t\t}
\t\t\tValue (curve = \"bezier\")
\t\t\t{
\t\t\t\tKey (kind = \"+control\") {float {0.5, 0.25}}
\t\t\t\tKey (kind = \"-control\") {float {0.75}}
\t\t\t}
\t\t}
\t}
}";
    let scene = Scene::from_lines(&lines(&format!("{}\n{}", doc, TRIANGLE_OBJECT)));
    assert_eq!(scene.models.len(), 1);
    let a = &scene.models[0].animation;
    assert_eq!((a.begin.as_str(), a.end.as_str()), ("0.0", "1.0"));
    assert_eq!(a.tracks.len(), 1);
    let t = &a.tracks[0];
    assert_eq!(t.target, TargetType::Xpos);
    assert_eq!(t.time.curve, Curve::Linear);
    assert_eq!(t.time.keys.len(), 2);
    assert_eq!(t.time.keys[0].key_type, KeyType::Single);
    assert_eq!(t.time.keys[1].key_type, KeyType::Single);
    assert_eq!(t.time.keys[0].floats, vec![s("0.0")]);
    assert_eq!(t.time.keys[1].floats, vec![s("1.0")]);
    assert_eq!(t.value.curve, Curve::Bezier);
    assert_eq!(t.value.keys.len(), 2);
    assert_eq!(t.value.keys[0].key_type, KeyType::PlusControl);
    assert_eq!(t.value.keys[1].key_type, KeyType::MinusControl);
    assert_eq!(t.value.keys[0].floats, vec![s("0.5"), s("0.25")]);
}

#[test]
fn model_without_animation_gets_an_empty_one() {
    let doc = format!("{}\n{}", node("$node1", "$Obj1"), TRIANGLE_OBJECT);
    let scene = Scene::from_lines(&lines(&doc));
    let a = &scene.models[0].animation;
    assert_eq!((a.begin.as_str(), a.end.as_str()), ("0.0", "0.0"));
    assert!(a.tracks.is_empty());
}

#[test]
fn malformed_line_is_skipped_and_reported() {
    let doc = format!("Name\n{}\nGeometryObject\n{}", node("$node1", "$Obj1"), TRIANGLE_OBJECT);
    let scene = Scene::from_lines(&lines(&doc));
    assert_eq!(scene.models.len(), 1);
    assert_eq!(scene.diagnostics.len(), 2);
    match &scene.diagnostics[0] {
        Diagnostic::MalformedLine { line, keyword } => {
            assert_eq!(*line, 1);
            assert_eq!(keyword, "Name");
        }
        other => panic!("unexpected {:?}", other),
    }
    match &scene.diagnostics[1] {
        Diagnostic::MalformedLine { line, keyword } => {
            assert_eq!(*line, 8);
            assert_eq!(keyword, "GeometryObject");
        }
        other => panic!("unexpected {:?}", other),
    }
}

#[test]
fn sibling_constructs_at_one_depth_do_not_leak() {
    let doc = "GeometryObject $o
{
\tVertexArray (attrib = \"position\")
\t{
\t\tfloat[3]
\t\t{
\t\t\t{1.0, 2.0, 3.0}
\t\t}
\t}
\tVertexArray (attrib = \"normal\")
\t{
\t\tfloat[3]
\t\t{
\t\t\t{4.0, 5.0, 6.0}
\t\t}
\t}
}
{
\t{7.0, 8.0, 9.0}
}";
    let scene = Scene::from_lines(&lines(doc));
    assert_eq!(scene.models.len(), 0);
    let mut sc = opengex_parser::Scanner::new();
    for l in lines(doc) {
        sc.scan_line(&l);
    }
    assert_eq!(sc.objects.len(), 1);
    assert_eq!(sc.objects[0].vertex, vec![triple("1.0", "2.0", "3.0")]);
    assert_eq!(sc.objects[0].normal, vec![triple("4.0", "5.0", "6.0")]);
    assert_eq!(sc.depth, 0);
}

#[test]
fn source_not_found_is_empty() {
    let scene = Scene::source_not_found(s("nowhere.ogex"));
    assert!(scene.models.is_empty());
    assert!(scene.materials.is_empty());
    assert_eq!(scene.metric.up, "\"y\"");
    match &scene.diagnostics[0] {
        Diagnostic::SourceNotFound { path } => assert_eq!(path, "nowhere.ogex"),
        other => panic!("unexpected {:?}", other),
    }
}
