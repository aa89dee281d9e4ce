use gltf_animation::index::{Accessor, Index};
use gltf_animation::path::{JsonPath, PathSegment};
use gltf_animation::validation::{Error, ErrorKind};

#[test]
fn root_path_is_empty() {
    assert_eq!(JsonPath::root().as_string(), "");
    assert!(JsonPath::root().segments().is_empty());
}

#[test]
fn path_renders_fields_and_positions() {
    let p = JsonPath::root()
        .field("animations")
        .index(2)
        .field("channels")
        .index(0)
        .field("sampler");
    assert_eq!(p.as_string(), "animations[2].channels[0].sampler");
}

#[test]
fn path_renders_multi_digit_positions() {
    let p = JsonPath::root().field("accessors").index(12045);
    assert_eq!(p.as_string(), "accessors[12045]");
    let q = JsonPath::root().field("nodes").index(10);
    assert_eq!(q.as_string(), "nodes[10]");
}

#[test]
fn extending_leaves_base_untouched() {
    let base = JsonPath::root().field("animations");
    let left = base.index(0);
    let right = base.field("name");
    assert_eq!(base.as_string(), "animations");
    assert_eq!(left.as_string(), "animations[0]");
    assert_eq!(right.as_string(), "animations.name");
    assert_eq!(base.segments().len(), 1);
    assert!(matches!(&left.segments()[1], PathSegment::Index(0)));
}

#[test]
fn index_keeps_its_value() {
    let i: Index<Accessor> = Index::new(7);
    let j = i;
    assert_eq!(i.value(), 7);
    assert_eq!(j.value(), 7);
    assert_eq!(Index::<Accessor>::new(u32::MAX).value(), u32::MAX);
}

#[test]
fn out_of_bounds_error_keeps_path() {
    let e = Error::index_out_of_bounds(JsonPath::root().field("samplers").index(1));
    assert_eq!(e.kind, ErrorKind::IndexOutOfBounds);
    assert_eq!(e.path.as_string(), "samplers[1]");
}
