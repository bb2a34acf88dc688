//! Reads OpenGEX scene text line by line into nodes, mesh objects, materials
//! and animation tracks, and binds each node to the mesh object it names.
//!
//! Numbers are kept as the text they were written as; turning them into
//! floating-point values and applying a node's transform to its vertices is
//! left to the caller (see `remap_axes` for the axis convention).
pub mod lexer;
pub mod model;
pub mod tracker;
pub mod scan_rules;
pub mod scanner;
pub mod scene;
pub mod laws;

pub use lexer::{get_string_value, remove_brackets};
pub use model::{
    Animation, Attrib, Curve, Diagnostic, GeometryNode, GeometryObject, Index, Key, KeyType,
    Material, MaterialRef, Metric, TargetType, Texture, Time, Track, Value,
};
pub use scanner::Scanner;
pub use scene::{BakedModel, Scene, remap_axes};
pub use tracker::{InBasicNode, InDoubleIndexedNode, InIndexedNode};
