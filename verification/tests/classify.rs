use wgsl_to_msl::classify::determine_entrypoint_name;

fn classify(stem: &str) -> Option<String> {
    determine_entrypoint_name(stem.as_bytes()).map(|v| String::from_utf8(v).unwrap())
}

#[test]
fn vertex_with_overlay_marker() {
    assert_eq!(classify("demo_overlay_shader_vertex").as_deref(), Some("overlay_vertex"));
    assert_eq!(classify("x_overlay_vertex").as_deref(), Some("overlay_vertex"));
}

#[test]
fn vertex_without_overlay_marker() {
    assert_eq!(classify("demo_vertex").as_deref(), Some("main_vertex"));
    assert_eq!(classify("_vertex").as_deref(), Some("main_vertex"));
}

#[test]
fn fragment_with_overlay_marker() {
    assert_eq!(classify("demo_overlay_shader_fragment").as_deref(), Some("overlay_fragment"));
    assert_eq!(classify("x_overlay_fragment").as_deref(), Some("overlay_fragment"));
}

#[test]
fn fragment_without_overlay_marker() {
    assert_eq!(classify("demo_fragment").as_deref(), Some("main_fragment"));
}

#[test]
fn unmatched_stems_ask_no_rename() {
    assert_eq!(classify(""), None);
    assert_eq!(classify("demo"), None);
    assert_eq!(classify("vertex_demo"), None);
    assert_eq!(classify("demo_vertex_extra"), None);
    assert_eq!(classify("demo_overlay_"), None);
}

#[test]
fn vertex_suffix_wins_over_fragment_marker() {
    // The suffix decides the kind; the overlay marker decides the variant.
    assert_eq!(classify("demo_fragment_vertex").as_deref(), Some("main_vertex"));
}
