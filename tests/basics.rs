use opengex_parser::lexer::{is_float_token, parse_i32, parse_u32, tokenize};
use opengex_parser::{
    get_string_value, remove_brackets, remap_axes, Attrib, Curve, GeometryNode, InBasicNode,
    InDoubleIndexedNode, InIndexedNode, Key, KeyType, MaterialRef, Metric, TargetType, Texture,
};

fn chars(s: &str) -> Vec<char> {
    s.chars().collect()
}

#[test]
fn it_works() {
    assert_eq!(2 + 2, 4);
}

#[test]
fn remove_brackets_strips_delimiters() {
    assert_eq!(remove_brackets("{\"//texture.png\"}"), "texture.png");
    assert_eq!(remove_brackets("{\"//texture.png\"}},"), "texture.png\"");
    assert_eq!(remove_brackets("{-0.5,"), "-0.5");
    assert_eq!(remove_brackets("0.5},"), "0.5");
    assert_eq!(remove_brackets("\"triangles\")"), "triangles");
    assert_eq!(remove_brackets("{$geometry1}}"), "$geometry1");
    assert_eq!(remove_brackets("0)"), "0");
    assert_eq!(remove_brackets("plain"), "plain");
    assert_eq!(remove_brackets("{}"), "");
}

#[test]
fn get_string_value_reads_braced_text() {
    assert_eq!(get_string_value(vec!["{\"z\"}}"]), Some("\"z\""));
    assert_eq!(get_string_value(vec!["{2.0}}"]), Some("2.0"));
    assert_eq!(get_string_value(vec!["{{a}"]), Some(""));
    assert_eq!(get_string_value(vec!["novalue"]), None);
    assert_eq!(get_string_value(vec![]), None);
}

#[test]
fn float_grammar_follows_from_str() {
    for t in ["0.0", "-0.5", "+1", "1.", ".5", "1e5", "2.5E-3", "inf", "-Infinity", "NaN"] {
        assert!(is_float_token(&chars(t)), "{}", t);
        assert!(t.parse::<f32>().is_ok(), "{}", t);
    }
    for t in ["", ".", "+", "1..2", "e5", "1e", "1e+", "abc", "1,", "0x10", " 1"] {
        assert!(!is_float_token(&chars(t)), "{}", t);
        assert!(t.parse::<f32>().is_err(), "{}", t);
    }
}

#[test]
fn integers_parse_as_std_does() {
    assert_eq!(parse_u32(&chars("42")), Some(42));
    assert_eq!(parse_u32(&chars("+7")), Some(7));
    assert_eq!(parse_u32(&chars("4294967295")), Some(u32::MAX));
    assert_eq!(parse_u32(&chars("4294967296")), None);
    assert_eq!(parse_u32(&chars("-1")), None);
    assert_eq!(parse_u32(&chars("+")), None);
    assert_eq!(parse_u32(&chars("")), None);
    assert_eq!(parse_i32(&chars("-2147483648")), Some(i32::MIN));
    assert_eq!(parse_i32(&chars("2147483648")), None);
    assert_eq!(parse_i32(&chars("-0")), Some(0));
    assert_eq!(parse_i32(&chars("12")), Some(12));
}

#[test]
fn tokenize_trims_and_splits() {
    let v = tokenize("\t  Metric (key = \"up\") {string {\"z\"}}  ");
    let v: Vec<String> = v.iter().map(|t| t.iter().collect()).collect();
    assert_eq!(v, vec!["Metric", "(key", "=", "\"up\")", "{string", "{\"z\"}}"]);
    let v = tokenize("a  b");
    assert_eq!(v.len(), 3);
    assert!(v[1].is_empty());
    let v = tokenize("{float[3]");
    let first: String = v[0].iter().collect();
    assert_eq!(first, "float[3]");
    let v = tokenize("");
    assert_eq!(v.len(), 1);
}

#[test]
fn constructors_hold_defaults() {
    let m = Metric::new();
    assert_eq!(m.distance, "1.0");
    assert_eq!(m.up, "\"y\"");
    assert_eq!(m.forward, "");
    let r = MaterialRef::new();
    assert_eq!(r.index, 0);
    assert_eq!(r.material_ref, "");
    let t = Texture::new();
    assert_eq!(t.attrib, Attrib::Unknown);
    assert_eq!(t.raw_transform.len(), 16);
    assert_eq!(t.raw_transform[0], "1.0");
    assert_eq!(t.raw_transform[1], "0.0");
    assert_eq!(t.raw_transform[15], "1.0");
    let n = GeometryNode::new("$node".to_string());
    assert_eq!(n.name, "$node");
    assert!(n.animation.is_none());
    let k = Key::new();
    assert_eq!(k.key_type, KeyType::Single);
    assert!(k.floats.is_empty());
    assert_eq!(Curve::Unknown, Curve::Unknown);
    assert_ne!(TargetType::Xpos, TargetType::Unknown);
}

#[test]
fn trackers_open_and_close_at_their_depth() {
    let mut b = InBasicNode::new();
    assert!(!b.in_use);
    assert_eq!(b.num_brackets_open, -1);
    b.open(2);
    b.close_at(3);
    assert!(b.in_use);
    b.close_at(2);
    assert!(!b.in_use);
    let mut i = InIndexedNode::new();
    i.open(1, 5);
    assert_eq!(i.position, 5);
    i.close_at(1);
    assert_eq!(i.position, 0);
    assert!(!i.in_use);
    let mut d = InDoubleIndexedNode::new();
    d.open(0, 3);
    d.second_index = 2;
    d.close_at(0);
    assert_eq!((d.position, d.second_index, d.in_use), (0, 0, false));
}

#[test]
fn remap_axes_follows_the_up_axis() {
    let p = [1, 2, 3];
    assert_eq!(remap_axes(p, &"\"y\"".to_string()), [1, 2, 3]);
    assert_eq!(remap_axes(p, &"\"z\"".to_string()), [1, 3, 2]);
    assert_eq!(remap_axes(p, &"\"x\"".to_string()), [2, 1, 3]);
    assert_eq!(remap_axes(p, &"".to_string()), [1, 2, 3]);
}
