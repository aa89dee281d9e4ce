use gltf_animation::animation::{
    sampler_interpolation_default, Animation, AnimationExtensions, Channel, ChannelExtensions,
    Sampler, SamplerExtensions, Target, TargetExtensions,
};
use gltf_animation::index::Index;
use gltf_animation::path::JsonPath;
use gltf_animation::root::Root;
use gltf_animation::validation::{Error, ErrorKind, Validate};

fn sampler(input: u32, output: u32) -> Sampler {
    Sampler {
        extensions: SamplerExtensions::default(),
        extras: None,
        input: Index::new(input),
        interpolation: sampler_interpolation_default(),
        output: Index::new(output),
    }
}

fn channel(sampler: u32, node: u32) -> Channel {
    Channel {
        sampler: Index::new(sampler),
        target: Target {
            extensions: TargetExtensions::default(),
            extras: None,
            node: Index::new(node),
            path: "translation".to_string(),
        },
        extensions: ChannelExtensions::default(),
        extras: None,
    }
}

fn animation(samplers: Vec<Sampler>, channels: Vec<Channel>) -> Animation {
    Animation {
        extensions: AnimationExtensions::default(),
        extras: None,
        channels,
        name: None,
        samplers,
    }
}

fn validate_at_root(a: &Animation) -> Vec<Error> {
    let root = Root { animations: Vec::new() };
    let mut report = Vec::new();
    a.validate(&root, JsonPath::root(), &mut report);
    report
}

fn paths(errors: &[Error]) -> Vec<String> {
    errors.iter().map(|e| e.path.as_string()).collect()
}

#[test]
fn interpolation_defaults_to_linear() {
    assert_eq!(sampler_interpolation_default(), "LINEAR");
}

#[test]
fn empty_animation_yields_no_errors() {
    let a = animation(Vec::new(), Vec::new());
    assert!(validate_at_root(&a).is_empty());
}

#[test]
fn one_sampler_two_channels_reports_second() {
    let a = animation(vec![sampler(0, 1)], vec![channel(0, 0), channel(1, 1)]);
    let errors = validate_at_root(&a);
    assert_eq!(errors.len(), 1);
    assert_eq!(errors[0].kind, ErrorKind::IndexOutOfBounds);
    assert_eq!(paths(&errors), vec!["channels[1].sampler".to_string()]);
}

#[test]
fn channels_without_samplers_are_each_reported() {
    let a = animation(Vec::new(), vec![channel(0, 0)]);
    let errors = validate_at_root(&a);
    assert_eq!(paths(&errors), vec!["channels[0].sampler".to_string()]);
}

#[test]
fn in_bounds_references_yield_no_errors() {
    let a = animation(
        vec![sampler(0, 1), sampler(2, 3), sampler(4, 5)],
        vec![channel(2, 0), channel(0, 1), channel(1, 2), channel(2, 3)],
    );
    assert!(validate_at_root(&a).is_empty());
}

#[test]
fn errors_follow_channel_order() {
    let a = animation(
        vec![sampler(0, 1)],
        vec![channel(5, 0), channel(0, 1), channel(1, 2)],
    );
    let errors = validate_at_root(&a);
    assert_eq!(
        paths(&errors),
        vec!["channels[0].sampler".to_string(), "channels[2].sampler".to_string()]
    );
    assert!(errors.iter().all(|e| e.kind == ErrorKind::IndexOutOfBounds));
}

#[test]
fn largest_index_is_out_of_bounds() {
    let a = animation(vec![sampler(0, 1)], vec![channel(u32::MAX, 0)]);
    assert_eq!(paths(&validate_at_root(&a)), vec!["channels[0].sampler".to_string()]);
}

#[test]
fn report_keeps_earlier_errors() {
    let root = Root { animations: Vec::new() };
    let earlier = Error::index_out_of_bounds(JsonPath::root().field("meshes").index(3));
    let mut report = vec![earlier];
    let a = animation(Vec::new(), vec![channel(0, 0)]);
    a.validate(&root, JsonPath::root().field("animations").index(4), &mut report);
    assert_eq!(
        paths(&report),
        vec!["meshes[3]".to_string(), "animations[4].channels[0].sampler".to_string()]
    );
}

#[test]
fn document_validation_locates_animation() {
    let good = animation(vec![sampler(0, 1)], vec![channel(0, 0)]);
    let bad = animation(vec![sampler(0, 1)], vec![channel(0, 0), channel(3, 1), channel(1, 2)]);
    let root = Root { animations: vec![good, bad] };
    let errors = root.validate_document();
    assert_eq!(
        paths(&errors),
        vec![
            "animations[1].channels[1].sampler".to_string(),
            "animations[1].channels[2].sampler".to_string()
        ]
    );
}

#[test]
fn empty_document_yields_no_errors() {
    let root = Root { animations: Vec::new() };
    assert!(root.validate_document().is_empty());
}

#[test]
fn channel_target_and_sampler_report_nothing() {
    let root = Root { animations: Vec::new() };
    let mut report = Vec::new();
    channel(9, 9).validate(&root, JsonPath::root(), &mut report);
    channel(9, 9).target.validate(&root, JsonPath::root(), &mut report);
    sampler(9, 9).validate(&root, JsonPath::root(), &mut report);
    assert!(report.is_empty());
}
