use wgsl_to_msl::translate::convert_wgsl_to_msl;
use wgsl_to_msl::TranslateError;

const VERTEX_WGSL: &str = "\
@group(0) @binding(0) var<uniform> tint: vec4<f32>;

@vertex
fn main(@builtin(vertex_index) idx: u32) -> @builtin(position) vec4<f32> {
    return tint;
}
";

#[test]
fn overlay_vertex_stem_renames_the_entry_point() {
    let out = convert_wgsl_to_msl(VERTEX_WGSL, "demo_overlay_vertex".as_bytes()).unwrap();
    let msl = String::from_utf8(out).unwrap();
    assert!(msl.contains("vertex main_Output overlay_vertex("), "got:\n{}", msl);
    assert!(!msl.contains("vertex main_Output main_("), "got:\n{}", msl);
}

#[test]
fn plain_vertex_stem_gets_the_default_vertex_name() {
    let out = convert_wgsl_to_msl(VERTEX_WGSL, "demo_vertex".as_bytes()).unwrap();
    let msl = String::from_utf8(out).unwrap();
    assert!(msl.contains("vertex main_Output main_vertex("), "got:\n{}", msl);
}

#[test]
fn unmatched_stem_keeps_the_generated_name() {
    let out = convert_wgsl_to_msl(VERTEX_WGSL, "demo".as_bytes()).unwrap();
    let msl = String::from_utf8(out).unwrap();
    assert!(msl.contains("vertex main_Output main_("), "got:\n{}", msl);
}

#[test]
fn identical_inputs_give_identical_output() {
    let first = convert_wgsl_to_msl(VERTEX_WGSL, "demo_overlay_vertex".as_bytes()).unwrap();
    let second = convert_wgsl_to_msl(VERTEX_WGSL, "demo_overlay_vertex".as_bytes()).unwrap();
    assert_eq!(first, second);
}

#[test]
fn parse_failure_is_reported() {
    match convert_wgsl_to_msl("not wgsl at all {", "demo_vertex".as_bytes()) {
        Err(TranslateError::Parse(m)) => assert!(m.contains("parse error"), "got: {}", m),
        other => panic!("expected a parse failure, got {:?}", other.map(|_| ())),
    }
}

#[test]
fn validation_failure_is_reported() {
    // Parses, but the workgroup size is zero, which validation rejects.
    let bad = "\
@compute @workgroup_size(0)
fn main() {
}
";
    match convert_wgsl_to_msl(bad, "demo".as_bytes()) {
        Err(TranslateError::Validation(m)) => assert!(m.contains("Validation error"), "got: {}", m),
        other => panic!("expected a validation failure, got {:?}", other.map(|_| ())),
    }
}

#[test]
fn out_of_range_binding_aborts_translation() {
    let wgsl = "\
@group(0) @binding(300) var<uniform> tint: vec4<f32>;

@vertex
fn main(@builtin(vertex_index) idx: u32) -> @builtin(position) vec4<f32> {
    return tint;
}
";
    match convert_wgsl_to_msl(wgsl, "demo_overlay_vertex".as_bytes()) {
        Err(TranslateError::BindingRange { group, binding }) => {
            assert_eq!(group, 0);
            assert_eq!(binding, 300);
        }
        other => panic!("expected a binding-range failure, got {:?}", other.map(|_| ())),
    }
}
